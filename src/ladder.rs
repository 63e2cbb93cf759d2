use vstd::prelude::*;

use crate::constants::{MAX_ORDERS_PER_SIDE, PRICE_SCALE};
use crate::error::GridError;
use crate::instruction::StrategyParam;
use crate::math::mul_div_u64;

verus! {

/// The strategy steps the right way for its side: asks rise, bids fall, and a
/// geometric ratio of exactly 1.0 is never accepted.
pub open spec fn strategy_valid(strategy: StrategyParam, is_ask: bool) -> bool {
    match strategy {
        StrategyParam::Linear { gap } => if is_ask {
            gap > 0
        } else {
            gap < 0
        },
        StrategyParam::Geometry { ratio_x1e9 } => if is_ask {
            ratio_x1e9 > PRICE_SCALE
        } else {
            0 < ratio_x1e9 < PRICE_SCALE
        },
    }
}

/// The price of slot `i` of a ladder that starts at `price0`, given the price
/// `prev` of slot `i - 1`.
pub open spec fn step_price(price0: int, prev: int, i: int, strategy: StrategyParam) -> int {
    match strategy {
        StrategyParam::Linear { gap } => price0 + gap * i,
        StrategyParam::Geometry { ratio_x1e9 } => prev * ratio_x1e9 / PRICE_SCALE as int,
    }
}

/// `next` lies strictly beyond `prev` in the ladder's direction.
pub open spec fn beyond(next: int, prev: int, is_ask: bool) -> bool {
    if is_ask {
        next > prev
    } else {
        next < prev
    }
}

/// The first `n` slots of a ladder from `price0`, or the error of the first
/// slot that cannot be priced.
pub open spec fn ladder(price0: u64, n: nat, strategy: StrategyParam, is_ask: bool) -> Result<
    Seq<u64>,
    GridError,
>
    decreases n,
{
    if n == 0 {
        Ok(Seq::empty())
    } else if n == 1 {
        Ok(seq![price0])
    } else {
        match ladder(price0, (n - 1) as nat, strategy, is_ask) {
            Err(e) => Err(e),
            Ok(s) => {
                let v = step_price(price0 as int, s.last() as int, n - 1, strategy);
                if v <= 0 {
                    Err(GridError::InvalidOrderCount)
                } else if v > u64::MAX {
                    Err(GridError::MathOverflow)
                } else if !beyond(v, s.last() as int, is_ask) {
                    Err(GridError::InvalidOrderCount)
                } else {
                    Ok(s.push(v as u64))
                }
            },
        }
    }
}

/// The forward prices of one side of a grid.
pub open spec fn side_prices(price0: u64, count: u8, strategy: StrategyParam, is_ask: bool) -> Result<
    Seq<u64>,
    GridError,
> {
    if count == 0 {
        Ok(Seq::empty())
    } else if count > MAX_ORDERS_PER_SIDE || price0 == 0 || !strategy_valid(strategy, is_ask) {
        Err(GridError::InvalidOrderCount)
    } else {
        ladder(price0, count as nat, strategy, is_ask)
    }
}

/// The price one strategy step before `price0`: the slot that would have
/// preceded it.
pub open spec fn reverse_start(price0: u64, strategy: StrategyParam) -> int {
    match strategy {
        StrategyParam::Linear { gap } => price0 - gap,
        StrategyParam::Geometry { ratio_x1e9 } => price0 * PRICE_SCALE as int / ratio_x1e9 as int,
    }
}

/// The reverse prices of one side: slot 0 one step before `price0`, slot `i > 0`
/// the forward price of slot `i - 1`. Slot 0 must lie strictly on the far side
/// of `price0` (below it on asks, above it on bids), so that rounding can never
/// leave a slot without margin.
pub open spec fn side_reverse_prices(
    price0: u64,
    count: u8,
    strategy: StrategyParam,
    is_ask: bool,
    side: Seq<u64>,
) -> Result<Seq<u64>, GridError> {
    if count == 0 {
        Ok(Seq::empty())
    } else if side.len() != count || !strategy_valid(strategy, is_ask) {
        Err(GridError::InvalidOrderCount)
    } else {
        let r0 = reverse_start(price0, strategy);
        if r0 <= 0 {
            Err(GridError::InvalidOrderCount)
        } else if r0 > u64::MAX {
            Err(GridError::MathOverflow)
        } else if !beyond(price0 as int, r0, is_ask) {
            Err(GridError::InvalidOrderCount)
        } else if exists|i: int| 0 <= i < count - 1 && side[i] == 0 {
            Err(GridError::InvalidOrderCount)
        } else {
            Ok(seq![r0 as u64] + side.take(count - 1))
        }
    }
}

/// Once a ladder fails, every longer ladder fails the same way.
proof fn lemma_ladder_err_stays(
    price0: u64,
    k: nat,
    n: nat,
    strategy: StrategyParam,
    is_ask: bool,
)
    requires
        k <= n,
        ladder(price0, k, strategy, is_ask) is Err,
    ensures
        ladder(price0, n, strategy, is_ask) == ladder(price0, k, strategy, is_ask),
    decreases n,
{
    if n > k {
        lemma_ladder_err_stays(price0, k, (n - 1) as nat, strategy, is_ask);
    }
}

/// A ladder that can be built has the length asked for, starts at `price0`, and
/// moves strictly in its direction from each slot to every later one.
pub proof fn lemma_ladder_shape(price0: u64, n: nat, strategy: StrategyParam, is_ask: bool)
    requires
        ladder(price0, n, strategy, is_ask) is Ok,
    ensures
        ({
            let s = ladder(price0, n, strategy, is_ask)->Ok_0;
            &&& s.len() == n
            &&& n > 0 ==> s[0] == price0
            &&& forall|i: int, j: int|
                0 <= i < j < n ==> #[trigger] beyond(s[j] as int, s[i] as int, is_ask)
        }),
    decreases n,
{
    if n > 1 {
        lemma_ladder_shape(price0, (n - 1) as nat, strategy, is_ask);
        let s = ladder(price0, n, strategy, is_ask)->Ok_0;
        let p = ladder(price0, (n - 1) as nat, strategy, is_ask)->Ok_0;
        assert forall|i: int, j: int| 0 <= i < j < n implies #[trigger] beyond(
            s[j] as int,
            s[i] as int,
            is_ask,
        ) by {
            if j < n - 1 {
                assert(s[j] == p[j] && s[i] == p[i]);
                assert(beyond(p[j] as int, p[i] as int, is_ask));
            } else if i < n - 2 {
                assert(beyond(p[n - 2] as int, p[i] as int, is_ask));
            }
        }
    }
}

/// Every accepted ladder moves strictly in its side's direction: ask prices
/// rise and bid prices fall from each slot to every later one, the ladder has
/// `count` slots and starts at `price0`; a non-empty ladder whose strategy steps
/// the wrong way for its side (or has a geometric ratio of 1.0) is rejected.
pub proof fn lemma_ladder_monotone(price0: u64, count: u8, strategy: StrategyParam, is_ask: bool)
    ensures
        side_prices(price0, count, strategy, is_ask) is Ok ==> {
            let s = side_prices(price0, count, strategy, is_ask)->Ok_0;
            &&& s.len() == count
            &&& count > 0 ==> s[0] == price0
            &&& forall|i: int, j: int|
                0 <= i < j < count ==> #[trigger] beyond(s[j] as int, s[i] as int, is_ask)
        },
        count > 0 && !strategy_valid(strategy, is_ask) ==> side_prices(
            price0,
            count,
            strategy,
            is_ask,
        ) == Err::<Seq<u64>, GridError>(GridError::InvalidOrderCount),
{
    if count > 0 && side_prices(price0, count, strategy, is_ask) is Ok {
        lemma_ladder_shape(price0, count as nat, strategy, is_ask);
    }
}

/// The reverse ladder of an accepted forward ladder repeats it one slot later:
/// reverse slot `i > 0` is forward slot `i - 1`, and reverse slot 0 is one
/// strategy step before `price0`, strictly on the opposite side of it. On asks
/// every reverse price is below its forward price, on bids above it: every
/// forward-then-reverse round trip has a positive margin.
pub proof fn lemma_reverse_ladder(price0: u64, count: u8, strategy: StrategyParam, is_ask: bool)
    requires
        side_prices(price0, count, strategy, is_ask) is Ok,
        side_reverse_prices(
            price0,
            count,
            strategy,
            is_ask,
            side_prices(price0, count, strategy, is_ask)->Ok_0,
        ) is Ok,
    ensures
        ({
            let f = side_prices(price0, count, strategy, is_ask)->Ok_0;
            let r = side_reverse_prices(price0, count, strategy, is_ask, f)->Ok_0;
            &&& r.len() == f.len() == count
            &&& forall|i: int| 0 < i < count ==> r[i] == f[i - 1]
            &&& count > 0 ==> r[0] == reverse_start(price0, strategy)
            &&& is_ask ==> forall|i: int| 0 <= i < count ==> r[i] < f[i]
            &&& !is_ask ==> forall|i: int| 0 <= i < count ==> r[i] > f[i]
        }),
{
    lemma_ladder_monotone(price0, count, strategy, is_ask);
    let f = side_prices(price0, count, strategy, is_ask)->Ok_0;
    let r = side_reverse_prices(price0, count, strategy, is_ask, f)->Ok_0;
    if count > 0 {
        assert forall|i: int| 0 < i < count implies r[i] == f[i - 1] by {
            assert(r[i] == f.take(count - 1)[i - 1]);
        }
        assert(r[0] == reverse_start(price0, strategy));
        assert(f[0] == price0);
        assert forall|i: int| 0 <= i < count implies if is_ask {
            r[i] < f[i]
        } else {
            r[i] > f[i]
        } by {
            if i > 0 {
                assert(beyond(f[i] as int, f[i - 1] as int, is_ask));
            }
        }
    }
}

/// Builds the forward prices of one side of a grid.
pub fn build_side_prices(price0: u64, count: u8, strategy: &StrategyParam, is_ask: bool) -> (r:
    Result<Vec<u64>, GridError>)
    ensures
        match r {
            Ok(v) => side_prices(price0, count, *strategy, is_ask) == Ok::<Seq<u64>, GridError>(v@),
            Err(e) => side_prices(price0, count, *strategy, is_ask) == Err::<Seq<u64>, GridError>(e),
        },
        r is Ok ==> {
            let s = r->Ok_0@;
            &&& s.len() == count
            &&& count > 0 ==> s[0] == price0
            &&& forall|i: int, j: int|
                0 <= i < j < count ==> #[trigger] beyond(s[j] as int, s[i] as int, is_ask)
        },
        count > 0 && !strategy_valid(*strategy, is_ask) ==> r == Err::<Vec<u64>, GridError>(
            GridError::InvalidOrderCount,
        ),
{
    proof {
        lemma_ladder_monotone(price0, count, *strategy, is_ask);
    }
    let n = count as usize;
    if n == 0 {
        return Ok(Vec::new());
    }
    if n > MAX_ORDERS_PER_SIDE || price0 == 0 {
        return Err(GridError::InvalidOrderCount);
    }
    let valid = match strategy {
        StrategyParam::Linear { gap } => if is_ask {
            *gap > 0
        } else {
            *gap < 0
        },
        StrategyParam::Geometry { ratio_x1e9 } => if is_ask {
            *ratio_x1e9 > PRICE_SCALE
        } else {
            0 < *ratio_x1e9 && *ratio_x1e9 < PRICE_SCALE
        },
    };
    if !valid {
        return Err(GridError::InvalidOrderCount);
    }
    let mut out: Vec<u64> = Vec::with_capacity(n);
    out.push(price0);
    assert(out@ =~= seq![price0]);
    let mut i: usize = 1;
    while i < n
        invariant
            1 <= i <= n,
            n == count,
            n <= MAX_ORDERS_PER_SIDE,
            price0 != 0,
            strategy_valid(*strategy, is_ask),
            out@.len() == i,
            ladder(price0, i as nat, *strategy, is_ask) == Ok::<Seq<u64>, GridError>(out@),
        decreases n - i,
    {
        let prev = out[i - 1];
        let ghost s = out@;
        assert(s.last() == prev);
        let next: u64 = match strategy {
            StrategyParam::Linear { gap } => {
                assert(-0x8000_0000_0000_0000 * 100 <= (*gap as int) * (i as int)
                    <= 0x8000_0000_0000_0000 * 100) by (nonlinear_arith)
                    requires
                        -0x8000_0000_0000_0000 <= *gap < 0x8000_0000_0000_0000,
                        1 <= i <= 100,
                ;
                let step = (*gap as i128) * (i as i128);
                let price_i = (price0 as i128) + step;
                if price_i <= 0 {
                    proof {
                        lemma_ladder_err_stays(price0, (i + 1) as nat, n as nat, *strategy, is_ask);
                    }
                    return Err(GridError::InvalidOrderCount);
                }
                if price_i > u64::MAX as i128 {
                    assert(ladder(price0, (i + 1) as nat, *strategy, is_ask) == Err::<
                        Seq<u64>,
                        GridError,
                    >(GridError::MathOverflow));
                    proof {
                        lemma_ladder_err_stays(price0, (i + 1) as nat, n as nat, *strategy, is_ask);
                    }
                    return Err(GridError::MathOverflow);
                }
                price_i as u64
            },
            StrategyParam::Geometry { ratio_x1e9 } => {
                match mul_div_u64(prev, *ratio_x1e9, PRICE_SCALE) {
                    Ok(v) => {
                        if v == 0 {
                            proof {
                                lemma_ladder_err_stays(
                                    price0,
                                    (i + 1) as nat,
                                    n as nat,
                                    *strategy,
                                    is_ask,
                                );
                            }
                            return Err(GridError::InvalidOrderCount);
                        }
                        v
                    },
                    Err(e) => {
                        assert(ladder(price0, (i + 1) as nat, *strategy, is_ask) == Err::<
                            Seq<u64>,
                            GridError,
                        >(e));
                        proof {
                            lemma_ladder_err_stays(
                                price0,
                                (i + 1) as nat,
                                n as nat,
                                *strategy,
                                is_ask,
                            );
                        }
                        return Err(e);
                    },
                }
            },
        };
        if (is_ask && next <= prev) || (!is_ask && next >= prev) {
            proof {
                lemma_ladder_err_stays(price0, (i + 1) as nat, n as nat, *strategy, is_ask);
            }
            return Err(GridError::InvalidOrderCount);
        }
        out.push(next);
        i = i + 1;
    }
    Ok(out)
}

/// Builds the reverse prices of one side of a grid from its forward prices.
pub fn build_side_reverse_prices(
    price0: u64,
    count: u8,
    strategy: &StrategyParam,
    is_ask: bool,
    side_prices: &[u64],
) -> (r: Result<Vec<u64>, GridError>)
    ensures
        match r {
            Ok(v) => side_reverse_prices(price0, count, *strategy, is_ask, side_prices@) == Ok::<
                Seq<u64>,
                GridError,
            >(v@),
            Err(e) => side_reverse_prices(price0, count, *strategy, is_ask, side_prices@) == Err::<
                Seq<u64>,
                GridError,
            >(e),
        },
        r is Ok && count > 0 ==> {
            let v = r->Ok_0@;
            &&& v.len() == count
            &&& v[0] == reverse_start(price0, *strategy)
            &&& forall|i: int| 0 < i < count ==> v[i] == side_prices@[i - 1]
        },
{
    let n = count as usize;
    if n == 0 {
        return Ok(Vec::new());
    }
    if side_prices.len() != n {
        return Err(GridError::InvalidOrderCount);
    }
    let first: u64 = match strategy {
        StrategyParam::Linear { gap } => {
            if (is_ask && *gap <= 0) || (!is_ask && *gap >= 0) {
                return Err(GridError::InvalidOrderCount);
            }
            let v = (price0 as i128) - (*gap as i128);
            if v <= 0 {
                return Err(GridError::InvalidOrderCount);
            }
            if v > u64::MAX as i128 {
                return Err(GridError::MathOverflow);
            }
            v as u64
        },
        StrategyParam::Geometry { ratio_x1e9 } => {
            if (is_ask && *ratio_x1e9 <= PRICE_SCALE) || (!is_ask && (*ratio_x1e9 >= PRICE_SCALE
                || *ratio_x1e9 == 0)) {
                return Err(GridError::InvalidOrderCount);
            }
            let v = mul_div_u64(price0, PRICE_SCALE, *ratio_x1e9)?;
            if v == 0 {
                return Err(GridError::InvalidOrderCount);
            }
            v
        },
    };
    if (is_ask && first >= price0) || (!is_ask && first <= price0) {
        return Err(GridError::InvalidOrderCount);
    }
    let mut out: Vec<u64> = Vec::with_capacity(n);
    out.push(first);
    let mut i: usize = 1;
    while i < n
        invariant
            1 <= i <= n,
            n == count,
            side_prices@.len() == n,
            strategy_valid(*strategy, is_ask),
            first as int == reverse_start(price0, *strategy),
            out@ =~= seq![first] + side_prices@.take(i - 1),
            forall|j: int| 0 <= j < i - 1 ==> side_prices@[j] != 0,
        decreases n - i,
    {
        let p = side_prices[i - 1];
        if p == 0 {
            assert(side_prices@[i - 1] == 0);
            return Err(GridError::InvalidOrderCount);
        }
        out.push(p);
        assert(side_prices@.take(i as int) =~= side_prices@.take(i - 1).push(p));
        i = i + 1;
    }
    Ok(out)
}

} // verus!

use vstd::prelude::*;

use crate::constants::{MAX_FEE_BPS, MAX_ORDERS_PER_SIDE, PRICE_SCALE};
use crate::error::GridError;
use crate::instruction::{
    CancelOrderParams, CreateGridParams, FillOrderParams, FillOrdersParams, FillTarget,
};
use crate::ladder::{
    build_side_prices, build_side_reverse_prices, lemma_ladder_monotone, side_prices,
    side_reverse_prices,
};
use crate::math::{
    fits_u64, lemma_total_nonneg, lemma_total_update, lemma_total_zeros, mul_div_u64,
    sum_u64_slice, total,
};
use crate::settlement::{
    counted, execute_single_fill, execution, is_reverse, lemma_moved_pair, notional, on_ask_side,
    spec_fill_case,
};
use crate::state::{Config, Grid, GridModel, STATUS_ACTIVE, STATUS_CANCELED};
use crate::transfer::{conserves, funded, moved, Asset, Flow, Transfer};

verus! {

/// A fresh configuration, unpaused, whose first grid gets id 1.
pub open spec fn spec_initialize_config(
    admin: [u8; 32],
    protocol_fee_bps: u16,
    oneshot_protocol_fee_bps: u16,
) -> Result<Config, GridError> {
    if protocol_fee_bps > MAX_FEE_BPS || oneshot_protocol_fee_bps > MAX_FEE_BPS {
        Err(GridError::InvalidFee)
    } else {
        Ok(
            Config {
                admin,
                paused: false,
                protocol_fee_bps,
                oneshot_protocol_fee_bps,
                next_grid_id: 1,
            },
        )
    }
}

/// Creates the global configuration.
pub fn initialize_config(admin: [u8; 32], protocol_fee_bps: u16, oneshot_protocol_fee_bps: u16) -> (r:
    Result<Config, GridError>)
    ensures
        r == spec_initialize_config(admin, protocol_fee_bps, oneshot_protocol_fee_bps),
{
    if protocol_fee_bps > MAX_FEE_BPS || oneshot_protocol_fee_bps > MAX_FEE_BPS {
        return Err(GridError::InvalidFee);
    }
    Ok(Config { admin, paused: false, protocol_fee_bps, oneshot_protocol_fee_bps, next_grid_id: 1 })
}

/// Pauses or resumes the creation and filling of grids.
pub fn set_pause(config: &mut Config, paused: bool)
    ensures
        *final(config) == (Config { paused, ..*old(config) }),
{
    config.paused = paused;
}

/// Sets the protocol's share of taker fees on ordinary grids.
pub fn set_protocol_fee(config: &mut Config, protocol_fee_bps: u16) -> (r: Result<(), GridError>)
    ensures
        protocol_fee_bps > MAX_FEE_BPS ==> r == Err::<(), GridError>(GridError::InvalidFee)
            && *final(config) == *old(config),
        protocol_fee_bps <= MAX_FEE_BPS ==> r is Ok && *final(config) == (Config {
            protocol_fee_bps,
            ..*old(config)
        }),
{
    if protocol_fee_bps > MAX_FEE_BPS {
        return Err(GridError::InvalidFee);
    }
    config.protocol_fee_bps = protocol_fee_bps;
    Ok(())
}

/// Sets the protocol's share of taker fees on oneshot grids.
pub fn set_oneshot_protocol_fee(config: &mut Config, oneshot_protocol_fee_bps: u16) -> (r: Result<
    (),
    GridError,
>)
    ensures
        oneshot_protocol_fee_bps > MAX_FEE_BPS ==> r == Err::<(), GridError>(
            GridError::InvalidFee,
        ) && *final(config) == *old(config),
        oneshot_protocol_fee_bps <= MAX_FEE_BPS ==> r is Ok && *final(config) == (Config {
            oneshot_protocol_fee_bps,
            ..*old(config)
        }),
{
    if oneshot_protocol_fee_bps > MAX_FEE_BPS {
        return Err(GridError::InvalidFee);
    }
    config.oneshot_protocol_fee_bps = oneshot_protocol_fee_bps;
    Ok(())
}

/// `r` and the grid's new content `after` are what `expected` says, and on an
/// error the grid is left as it was.
pub open spec fn performed(
    expected: Result<(GridModel, Seq<Transfer>), GridError>,
    before: GridModel,
    after: GridModel,
    r: Result<Vec<Transfer>, GridError>,
) -> bool {
    match expected {
        Ok((m, ts)) => r is Ok && r->Ok_0@ == ts && after == m,
        Err(e) => r == Err::<Vec<Transfer>, GridError>(e) && after == before,
    }
}

/// Movements of `base` and `quote` in direction `flow`, each only where it is
/// not zero.
pub open spec fn movements(flow: Flow, base: u64, quote: u64) -> Seq<Transfer> {
    (if base > 0 {
        seq![Transfer { asset: Asset::Base, flow, amount: base }]
    } else {
        Seq::empty()
    }) + (if quote > 0 {
        seq![Transfer { asset: Asset::Quote, flow, amount: quote }]
    } else {
        Seq::empty()
    })
}

/// How much a withdrawal of `amount` takes out of `available`: everything for 0,
/// and never more than there is.
pub open spec fn withdrawal(available: u64, amount: u64) -> u64 {
    if amount == 0 || amount > available {
        available
    } else {
        amount
    }
}

/// The owner withdraws profits.
pub open spec fn spec_withdraw_profits(g: GridModel, amount: u64) -> Result<
    (GridModel, Seq<Transfer>),
    GridError,
> {
    let w = withdrawal(g.profits_quote, amount);
    if w == 0 {
        Err(GridError::NoProfits)
    } else {
        Ok(
            (
                GridModel { profits_quote: (g.profits_quote - w) as u64, ..g },
                movements(Flow::OutOfVault, 0, w),
            ),
        )
    }
}

/// The admin withdraws the protocol's fees.
pub open spec fn spec_withdraw_protocol_fees(g: GridModel, amount: u64) -> Result<
    (GridModel, Seq<Transfer>),
    GridError,
> {
    let w = withdrawal(g.protocol_fees_quote, amount);
    if w == 0 {
        Err(GridError::NoProfits)
    } else {
        Ok(
            (
                GridModel { protocol_fees_quote: (g.protocol_fees_quote - w) as u64, ..g },
                movements(Flow::OutOfVault, 0, w),
            ),
        )
    }
}

/// The owner takes back everything one slot holds, forward and reverse.
pub open spec fn spec_cancel_order(g: GridModel, side: u8, idx: int) -> Result<
    (GridModel, Seq<Transfer>),
    GridError,
> {
    if side == 0 {
        if idx >= g.ask_prices.len() {
            Err(GridError::InvalidOrderIndex)
        } else {
            let base = g.ask_remaining[idx];
            let quote = g.ask_reverse_quote[idx];
            if base == 0 && quote == 0 {
                Err(GridError::InsufficientLiquidity)
            } else {
                Ok(
                    (
                        GridModel {
                            ask_remaining: g.ask_remaining.update(idx, 0),
                            ask_reverse_quote: g.ask_reverse_quote.update(idx, 0),
                            ..g
                        },
                        movements(Flow::OutOfVault, base, quote),
                    ),
                )
            }
        }
    } else if side == 1 {
        if idx >= g.bid_prices.len() {
            Err(GridError::InvalidOrderIndex)
        } else {
            let base = g.bid_reverse_base[idx];
            let quote = g.bid_remaining_quote[idx];
            if base == 0 && quote == 0 {
                Err(GridError::InsufficientLiquidity)
            } else {
                Ok(
                    (
                        GridModel {
                            bid_reverse_base: g.bid_reverse_base.update(idx, 0),
                            bid_remaining_quote: g.bid_remaining_quote.update(idx, 0),
                            ..g
                        },
                        movements(Flow::OutOfVault, base, quote),
                    ),
                )
            }
        }
    } else {
        Err(GridError::InvalidInstruction)
    }
}

/// `n` zeros.
pub open spec fn zeros(n: nat) -> Seq<u64> {
    Seq::new(n, |i: int| 0u64)
}

/// The owner closes an active grid: every inventory and the profits in both
/// assets are paid out, everything is zeroed, and the grid is canceled for good. Protocol fees
/// stay for the admin.
pub open spec fn spec_cancel_grid(g: GridModel) -> Result<(GridModel, Seq<Transfer>), GridError> {
    let base = total(g.ask_remaining) + total(g.bid_reverse_base) + g.profits_base;
    let quote = total(g.ask_reverse_quote) + total(g.bid_remaining_quote) + g.profits_quote;
    if !g.is_active() {
        Err(GridError::GridCanceled)
    } else if !fits_u64(base) || !fits_u64(quote) {
        Err(GridError::MathOverflow)
    } else {
        Ok(
            (
                GridModel {
                    status: STATUS_CANCELED,
                    profits_quote: 0,
                    profits_base: 0,
                    ask_remaining: zeros(g.ask_remaining.len()),
                    ask_reverse_quote: zeros(g.ask_reverse_quote.len()),
                    bid_remaining_quote: zeros(g.bid_remaining_quote.len()),
                    bid_reverse_base: zeros(g.bid_reverse_base.len()),
                    ..g
                },
                movements(Flow::OutOfVault, base as u64, quote as u64),
            ),
        )
    }
}

/// Movements in one direction count `base` and `quote` there and nothing in
/// the other direction.
proof fn lemma_movements(flow: Flow, base: u64, quote: u64)
    ensures
        forall|a: Asset, f: Flow|
            #[trigger] moved(movements(flow, base, quote), a, f) == if f != flow {
                0
            } else if a == Asset::Base {
                base as int
            } else {
                quote as int
            },
{
    let b = Transfer { asset: Asset::Base, flow, amount: base };
    let q = Transfer { asset: Asset::Quote, flow, amount: quote };
    let ts = movements(flow, base, quote);
    let sb = seq![b];
    let sq = seq![q];
    let sbq = seq![b, q];
    assert(sb.drop_last() =~= Seq::<Transfer>::empty());
    assert(sq.drop_last() =~= Seq::<Transfer>::empty());
    assert forall|a: Asset, f: Flow| #[trigger] moved(sb, a, f) == counted(b, a, f) by {
        assert(moved(Seq::<Transfer>::empty(), a, f) == 0);
    }
    assert forall|a: Asset, f: Flow| #[trigger] moved(sq, a, f) == counted(q, a, f) by {
        assert(moved(Seq::<Transfer>::empty(), a, f) == 0);
    }
    assert forall|a: Asset, f: Flow| #[trigger] moved(sbq, a, f) == counted(b, a, f) + counted(
        q,
        a,
        f,
    ) by {
        lemma_moved_pair(b, q, a, f);
    }
    assert forall|a: Asset, f: Flow| #[trigger] moved(Seq::<Transfer>::empty(), a, f) == 0 by {}
    if base > 0 && quote > 0 {
        assert(ts =~= sbq);
    } else if base > 0 {
        assert(ts =~= sb);
    } else if quote > 0 {
        assert(ts =~= sq);
    } else {
        assert(ts =~= Seq::<Transfer>::empty());
    }
}

/// Withdraws profits of the grid to its owner.
pub fn withdraw_profits(grid: &mut Grid, amount: u64) -> (r: Result<Vec<Transfer>, GridError>)
    ensures
        performed(spec_withdraw_profits(old(grid)@, amount), old(grid)@, final(grid)@, r),
        r is Ok ==> conserves(old(grid)@, final(grid)@, r->Ok_0@),
{
    let available = grid.profits_quote;
    let w = if amount == 0 || amount > available {
        available
    } else {
        amount
    };
    if w == 0 {
        return Err(GridError::NoProfits);
    }
    grid.profits_quote = available - w;
    let mut transfers: Vec<Transfer> = Vec::new();
    transfers.push(Transfer { asset: Asset::Quote, flow: Flow::OutOfVault, amount: w });
    proof {
        lemma_movements(Flow::OutOfVault, 0, w);
        assert(transfers@ =~= movements(Flow::OutOfVault, 0, w));
    }
    Ok(transfers)
}

/// Withdraws the protocol's fees collected on the grid to the admin.
pub fn withdraw_protocol_fees(grid: &mut Grid, amount: u64) -> (r: Result<Vec<Transfer>, GridError>)
    ensures
        performed(spec_withdraw_protocol_fees(old(grid)@, amount), old(grid)@, final(grid)@, r),
        r is Ok ==> conserves(old(grid)@, final(grid)@, r->Ok_0@),
{
    let available = grid.protocol_fees_quote;
    let w = if amount == 0 || amount > available {
        available
    } else {
        amount
    };
    if w == 0 {
        return Err(GridError::NoProfits);
    }
    grid.protocol_fees_quote = available - w;
    let mut transfers: Vec<Transfer> = Vec::new();
    transfers.push(Transfer { asset: Asset::Quote, flow: Flow::OutOfVault, amount: w });
    proof {
        lemma_movements(Flow::OutOfVault, 0, w);
        assert(transfers@ =~= movements(Flow::OutOfVault, 0, w));
    }
    Ok(transfers)
}

/// Movements of `base` and `quote` in direction `flow`, to perform.
fn movement_list(flow: Flow, base: u64, quote: u64) -> (r: Vec<Transfer>)
    ensures
        r@ == movements(flow, base, quote),
{
    let mut r: Vec<Transfer> = Vec::new();
    if base > 0 {
        r.push(Transfer { asset: Asset::Base, flow, amount: base });
    }
    if quote > 0 {
        r.push(Transfer { asset: Asset::Quote, flow, amount: quote });
    }
    assert(r@ =~= movements(flow, base, quote));
    r
}

/// Cancels one slot: its forward and reverse inventories are paid out to the
/// owner and zeroed.
pub fn cancel_order(grid: &mut Grid, params: &CancelOrderParams) -> (r: Result<Vec<Transfer>, GridError>)
    requires
        old(grid)@.wf(),
    ensures
        performed(
            spec_cancel_order(old(grid)@, params.side, params.order_index as int),
            old(grid)@,
            final(grid)@,
            r,
        ),
        r is Ok ==> conserves(old(grid)@, final(grid)@, r->Ok_0@),
{
    let idx = params.order_index as usize;
    let ghost g = grid@;
    if params.side == 0 {
        if idx >= grid.ask_prices.len() {
            return Err(GridError::InvalidOrderIndex);
        }
        let base = grid.ask_remaining[idx];
        let quote = grid.ask_reverse_quote[idx];
        if base == 0 && quote == 0 {
            return Err(GridError::InsufficientLiquidity);
        }
        grid.ask_remaining.set(idx, 0);
        grid.ask_reverse_quote.set(idx, 0);
        proof {
            lemma_movements(Flow::OutOfVault, base, quote);
            lemma_total_update(g.ask_remaining, idx as int, 0);
            lemma_total_update(g.ask_reverse_quote, idx as int, 0);
        }
        Ok(movement_list(Flow::OutOfVault, base, quote))
    } else if params.side == 1 {
        if idx >= grid.bid_prices.len() {
            return Err(GridError::InvalidOrderIndex);
        }
        let base = grid.bid_reverse_base[idx];
        let quote = grid.bid_remaining_quote[idx];
        if base == 0 && quote == 0 {
            return Err(GridError::InsufficientLiquidity);
        }
        grid.bid_reverse_base.set(idx, 0);
        grid.bid_remaining_quote.set(idx, 0);
        proof {
            lemma_movements(Flow::OutOfVault, base, quote);
            lemma_total_update(g.bid_reverse_base, idx as int, 0);
            lemma_total_update(g.bid_remaining_quote, idx as int, 0);
        }
        Ok(movement_list(Flow::OutOfVault, base, quote))
    } else {
        Err(GridError::InvalidInstruction)
    }
}

/// Sets every entry of `v` to zero.
fn zero_out(v: &mut Vec<u64>)
    ensures
        final(v)@ == zeros(old(v)@.len()),
{
    let n = v.len();
    let mut i: usize = 0;
    while i < n
        invariant
            n == v@.len(),
            n == old(v)@.len(),
            i <= n,
            forall|j: int| 0 <= j < i ==> v@[j] == 0,
        decreases n - i,
    {
        v.set(i, 0);
        i = i + 1;
    }
    assert(v@ =~= zeros(n as nat));
}

/// Cancels the whole grid: pays out every inventory and the profits, zeroes
/// them, and marks the grid canceled.
pub fn cancel_grid(grid: &mut Grid) -> (r: Result<Vec<Transfer>, GridError>)
    ensures
        performed(spec_cancel_grid(old(grid)@), old(grid)@, final(grid)@, r),
        r is Ok ==> conserves(old(grid)@, final(grid)@, r->Ok_0@),
{
    if !grid.is_active() {
        return Err(GridError::GridCanceled);
    }
    let ghost g = grid@;
    proof {
        lemma_total_nonneg(g.ask_remaining);
        lemma_total_nonneg(g.bid_reverse_base);
        lemma_total_nonneg(g.ask_reverse_quote);
        lemma_total_nonneg(g.bid_remaining_quote);
    }
    let ask_base = sum_u64_slice(grid.ask_remaining.as_slice())?;
    let bid_base = sum_u64_slice(grid.bid_reverse_base.as_slice())?;
    let base = match ask_base.checked_add(bid_base) {
        Some(v) => match v.checked_add(grid.profits_base) {
            Some(w) => w,
            None => return Err(GridError::MathOverflow),
        },
        None => return Err(GridError::MathOverflow),
    };
    let ask_quote = sum_u64_slice(grid.ask_reverse_quote.as_slice())?;
    let bid_quote = sum_u64_slice(grid.bid_remaining_quote.as_slice())?;
    let quote = match ask_quote.checked_add(bid_quote) {
        Some(v) => match v.checked_add(grid.profits_quote) {
            Some(w) => w,
            None => return Err(GridError::MathOverflow),
        },
        None => return Err(GridError::MathOverflow),
    };
    zero_out(&mut grid.ask_remaining);
    zero_out(&mut grid.ask_reverse_quote);
    zero_out(&mut grid.bid_remaining_quote);
    zero_out(&mut grid.bid_reverse_base);
    grid.profits_quote = 0;
    grid.profits_base = 0;
    grid.status = STATUS_CANCELED;
    proof {
        lemma_movements(Flow::OutOfVault, base, quote);
        lemma_total_zeros(grid.ask_remaining@);
        lemma_total_zeros(grid.ask_reverse_quote@);
        lemma_total_zeros(grid.bid_remaining_quote@);
        lemma_total_zeros(grid.bid_reverse_base@);
    }
    Ok(movement_list(Flow::OutOfVault, base, quote))
}

/// The quote that funds each bid slot: `base` units at the slot's price. A slot
/// whose quote does not fit fails with `MathOverflow`, one whose quote rounds to
/// zero with `InvalidOrderCount`, the first such slot deciding.
pub open spec fn bid_quotes(base: u64, prices: Seq<u64>) -> Result<Seq<u64>, GridError>
    decreases prices.len(),
{
    if prices.len() == 0 {
        Ok(Seq::empty())
    } else {
        match bid_quotes(base, prices.drop_last()) {
            Err(e) => Err(e),
            Ok(s) => {
                let q = notional(base, prices.last());
                if !fits_u64(q) {
                    Err(GridError::MathOverflow)
                } else if q == 0 {
                    Err(GridError::InvalidOrderCount)
                } else {
                    Ok(s.push(q as u64))
                }
            },
        }
    }
}

/// `n` copies of `v`.
pub open spec fn filled(v: u64, n: nat) -> Seq<u64> {
    Seq::new(n, |i: int| v)
}

/// A new grid and the deposits that fund it: every ask slot holds
/// `base_amount_per_order` base, every bid slot that much base valued at its
/// price in quote. The grid takes the configuration's next id.
pub open spec fn spec_create_grid(
    c: Config,
    p: CreateGridParams,
    owner: [u8; 32],
    base_vault: [u8; 32],
    quote_vault: [u8; 32],
    signer: [u8; 32],
) -> Result<(GridModel, Seq<Transfer>), GridError> {
    let base = p.base_amount_per_order;
    if p.fee_bps > MAX_FEE_BPS {
        Err(GridError::InvalidFee)
    } else if base == 0 {
        Err(GridError::ZeroAmount)
    } else if p.ask_count == 0 && p.bid_count == 0 {
        Err(GridError::InvalidOrderCount)
    } else if p.ask_count > MAX_ORDERS_PER_SIDE || p.bid_count > MAX_ORDERS_PER_SIDE {
        Err(GridError::InvalidOrderCount)
    } else if c.paused {
        Err(GridError::Paused)
    } else {
        match side_prices(p.ask_price0, p.ask_count, p.ask_strategy, true) {
            Err(e) => Err(e),
            Ok(ap) => match side_reverse_prices(p.ask_price0, p.ask_count, p.ask_strategy, true, ap) {
                Err(e) => Err(e),
                Ok(arp) => match side_prices(p.bid_price0, p.bid_count, p.bid_strategy, false) {
                    Err(e) => Err(e),
                    Ok(bp) => match side_reverse_prices(
                        p.bid_price0,
                        p.bid_count,
                        p.bid_strategy,
                        false,
                        bp,
                    ) {
                        Err(e) => Err(e),
                        Ok(brp) => {
                            let ask_total = base * ap.len();
                            if !fits_u64(ask_total) {
                                Err(GridError::MathOverflow)
                            } else {
                                match bid_quotes(base, bp) {
                                    Err(e) => Err(e),
                                    Ok(bq) => if !fits_u64(total(bq)) || !fits_u64(
                                        c.next_grid_id + 1,
                                    ) {
                                        Err(GridError::MathOverflow)
                                    } else {
                                        Ok(
                                            (
                                                GridModel {
                                                    owner,
                                                    id: c.next_grid_id,
                                                    status: STATUS_ACTIVE,
                                                    base_vault,
                                                    quote_vault,
                                                    signer,
                                                    signer_bump: p.signer_bump,
                                                    fee_bps: if p.oneshot {
                                                        c.oneshot_protocol_fee_bps
                                                    } else {
                                                        p.fee_bps
                                                    },
                                                    compound: p.compound,
                                                    oneshot: p.oneshot,
                                                    base_amount_per_order: base,
                                                    profits_quote: 0,
                                                    profits_base: 0,
                                                    protocol_fees_quote: 0,
                                                    ask_prices: ap,
                                                    ask_rev_prices: arp,
                                                    ask_remaining: filled(base, ap.len()),
                                                    ask_reverse_quote: zeros(ap.len()),
                                                    bid_prices: bp,
                                                    bid_rev_prices: brp,
                                                    bid_remaining_quote: bq,
                                                    bid_reverse_base: zeros(bp.len()),
                                                },
                                                movements(Flow::IntoVault, ask_total as u64, total(bq) as u64),
                                            ),
                                        )
                                    },
                                }
                            }
                        },
                    },
                },
            },
        }
    }
}

proof fn lemma_bid_quotes_err(base: u64, prices: Seq<u64>, k: int, m: int)
    requires
        0 <= k <= m <= prices.len(),
        bid_quotes(base, prices.take(k)) is Err,
    ensures
        bid_quotes(base, prices.take(m)) == bid_quotes(base, prices.take(k)),
    decreases m,
{
    if m > k {
        assert(prices.take(m).drop_last() =~= prices.take(m - 1));
        lemma_bid_quotes_err(base, prices, k, m - 1);
    }
}

proof fn lemma_total_filled(v: u64, n: nat)
    ensures
        total(filled(v, n)) == v * n,
    decreases n,
{
    if n > 0 {
        assert(filled(v, n).drop_last() =~= filled(v, (n - 1) as nat));
        assert(filled(v, n).last() == v);
        lemma_total_filled(v, (n - 1) as nat);
        assert(v * n == v * (n - 1) + v) by (nonlinear_arith);
    } else {
        assert(v * n == 0) by (nonlinear_arith)
            requires
                n == 0,
        ;
    }
}

/// Each bid slot's quote is its notional, one per price.
pub proof fn lemma_bid_quotes_shape(base: u64, prices: Seq<u64>)
    requires
        bid_quotes(base, prices) is Ok,
    ensures
        bid_quotes(base, prices)->Ok_0.len() == prices.len(),
        forall|i: int|
            0 <= i < prices.len() ==> bid_quotes(base, prices)->Ok_0[i] == notional(
                base,
                prices[i],
            ),
    decreases prices.len(),
{
    if prices.len() > 0 {
        lemma_bid_quotes_shape(base, prices.drop_last());
    }
}

/// The funding quote of each bid slot.
fn bid_slot_quotes(base: u64, prices: &Vec<u64>) -> (r: Result<Vec<u64>, GridError>)
    ensures
        match bid_quotes(base, prices@) {
            Ok(q) => r is Ok && r->Ok_0@ == q,
            Err(e) => r == Err::<Vec<u64>, GridError>(e),
        },
{
    let n = prices.len();
    let mut out: Vec<u64> = Vec::with_capacity(n);
    let mut i: usize = 0;
    assert(prices@.take(0) =~= Seq::<u64>::empty());
    while i < n
        invariant
            n == prices@.len(),
            i <= n,
            bid_quotes(base, prices@.take(i as int)) == Ok::<Seq<u64>, GridError>(out@),
        decreases n - i,
    {
        assert(prices@.take(i + 1).drop_last() =~= prices@.take(i as int));
        let quote = match mul_div_u64(base, prices[i], PRICE_SCALE) {
            Ok(q) => q,
            Err(e) => {
                proof {
                    lemma_bid_quotes_err(base, prices@, i + 1, n as int);
                    assert(prices@.take(n as int) =~= prices@);
                }
                return Err(e);
            },
        };
        if quote == 0 {
            proof {
                lemma_bid_quotes_err(base, prices@, i + 1, n as int);
                assert(prices@.take(n as int) =~= prices@);
            }
            return Err(GridError::InvalidOrderCount);
        }
        out.push(quote);
        i = i + 1;
    }
    assert(prices@.take(n as int) =~= prices@);
    Ok(out)
}

/// `n` copies of `v`, as a vector.
fn filled_vec(v: u64, n: usize) -> (r: Vec<u64>)
    ensures
        r@ == filled(v, n as nat),
{
    let mut out: Vec<u64> = Vec::with_capacity(n);
    let mut i: usize = 0;
    while i < n
        invariant
            i <= n,
            out@ =~= filled(v, i as nat),
        decreases n - i,
    {
        out.push(v);
        i = i + 1;
    }
    out
}

/// Opens a new grid for `owner`: builds both ladders, funds every slot, and
/// assigns the configuration's next id, which then moves on by one. Returns the
/// grid and the owner's deposits that fund it.
pub fn create_grid(
    config: &mut Config,
    params: &CreateGridParams,
    owner: [u8; 32],
    base_vault: [u8; 32],
    quote_vault: [u8; 32],
    signer: [u8; 32],
) -> (r: Result<(Grid, Vec<Transfer>), GridError>)
    ensures
        match spec_create_grid(*old(config), *params, owner, base_vault, quote_vault, signer) {
            Ok((m, ts)) => {
                &&& r is Ok
                &&& r->Ok_0.0@ == m
                &&& r->Ok_0.1@ == ts
                &&& *final(config) == (Config {
                    next_grid_id: (old(config).next_grid_id + 1) as u64,
                    ..*old(config)
                })
            },
            Err(e) => r == Err::<(Grid, Vec<Transfer>), GridError>(e) && *final(config) == *old(
                config,
            ),
        },
        r is Ok ==> r->Ok_0.0@.wf() && funded(r->Ok_0.0@, r->Ok_0.1@),
{
    let base = params.base_amount_per_order;
    if params.fee_bps > MAX_FEE_BPS {
        return Err(GridError::InvalidFee);
    }
    if base == 0 {
        return Err(GridError::ZeroAmount);
    }
    if params.ask_count == 0 && params.bid_count == 0 {
        return Err(GridError::InvalidOrderCount);
    }
    if (params.ask_count as usize) > MAX_ORDERS_PER_SIDE || (params.bid_count as usize)
        > MAX_ORDERS_PER_SIDE {
        return Err(GridError::InvalidOrderCount);
    }
    if config.paused {
        return Err(GridError::Paused);
    }
    let ask_prices = build_side_prices(params.ask_price0, params.ask_count, &params.ask_strategy, true)?;
    let ask_rev_prices = build_side_reverse_prices(
        params.ask_price0,
        params.ask_count,
        &params.ask_strategy,
        true,
        ask_prices.as_slice(),
    )?;
    let bid_prices = build_side_prices(params.bid_price0, params.bid_count, &params.bid_strategy, false)?;
    let bid_rev_prices = build_side_reverse_prices(
        params.bid_price0,
        params.bid_count,
        &params.bid_strategy,
        false,
        bid_prices.as_slice(),
    )?;
    let ask_len = ask_prices.len();
    let bid_len = bid_prices.len();
    let ask_total = match base.checked_mul(ask_len as u64) {
        Some(v) => v,
        None => return Err(GridError::MathOverflow),
    };
    let bid_remaining_quote = bid_slot_quotes(base, &bid_prices)?;
    let bid_total = sum_u64_slice(bid_remaining_quote.as_slice())?;
    let next_id = match config.next_grid_id.checked_add(1) {
        Some(v) => v,
        None => return Err(GridError::MathOverflow),
    };
    let mut ask_reverse_quote = filled_vec(0, ask_len);
    let mut bid_reverse_base = filled_vec(0, bid_len);
    proof {
        assert(ask_reverse_quote@ =~= zeros(ask_len as nat));
        assert(bid_reverse_base@ =~= zeros(bid_len as nat));
    }
    let grid = Grid {
        owner,
        id: config.next_grid_id,
        status: STATUS_ACTIVE,
        base_vault,
        quote_vault,
        signer,
        signer_bump: params.signer_bump,
        fee_bps: if params.oneshot {
            config.oneshot_protocol_fee_bps
        } else {
            params.fee_bps
        },
        compound: params.compound,
        oneshot: params.oneshot,
        base_amount_per_order: base,
        profits_quote: 0,
        profits_base: 0,
        protocol_fees_quote: 0,
        ask_prices,
        ask_rev_prices,
        ask_remaining: filled_vec(base, ask_len),
        ask_reverse_quote,
        bid_prices,
        bid_rev_prices,
        bid_remaining_quote,
        bid_reverse_base,
    };
    let transfers = movement_list(Flow::IntoVault, ask_total, bid_total);
    proof {
        lemma_ladder_monotone(params.ask_price0, params.ask_count, params.ask_strategy, true);
        lemma_ladder_monotone(params.bid_price0, params.bid_count, params.bid_strategy, false);
        lemma_bid_quotes_shape(base, grid.bid_prices@);
        lemma_movements(Flow::IntoVault, ask_total, bid_total);
        lemma_total_filled(base, ask_len as nat);
        lemma_total_zeros(grid.ask_reverse_quote@);
        lemma_total_zeros(grid.bid_reverse_base@);
    }
    config.next_grid_id = next_id;
    Ok((grid, transfers))
}

/// The batch target that a single fill request names.
pub open spec fn target_of(p: FillOrderParams) -> FillTarget {
    FillTarget {
        side: p.side,
        order_side: p.order_side,
        order_index: p.order_index,
        base_amount: p.base_amount,
    }
}

/// A taker fills one slot of an active grid while the venue is not paused.
pub open spec fn spec_fill_order(c: Config, g: GridModel, p: FillOrderParams) -> Result<
    (GridModel, Seq<Transfer>),
    GridError,
> {
    if p.base_amount == 0 {
        Err(GridError::ZeroAmount)
    } else if c.paused {
        Err(GridError::Paused)
    } else if !g.is_active() {
        Err(GridError::GridCanceled)
    } else {
        execution(c, g, target_of(p))
    }
}

/// Fills one slot of one grid. On an error the grid is unchanged.
pub fn fill_order(config: &Config, grid: &mut Grid, params: &FillOrderParams) -> (r: Result<
    Vec<Transfer>,
    GridError,
>)
    requires
        old(grid)@.wf(),
    ensures
        performed(spec_fill_order(*config, old(grid)@, *params), old(grid)@, final(grid)@, r),
        r is Ok ==> conserves(old(grid)@, final(grid)@, r->Ok_0@),
{
    if params.base_amount == 0 {
        return Err(GridError::ZeroAmount);
    }
    if config.paused {
        return Err(GridError::Paused);
    }
    if !grid.is_active() {
        return Err(GridError::GridCanceled);
    }
    let target = FillTarget {
        side: params.side,
        order_side: params.order_side,
        order_index: params.order_index,
        base_amount: params.base_amount,
    };
    execute_single_fill(config, grid, &target)
}

/// The content of each grid of a list.
pub open spec fn models(gs: Seq<Grid>) -> Seq<GridModel> {
    gs.map_values(|g: Grid| g@)
}

/// The content of each list of movements.
pub open spec fn movement_lists(ts: Seq<Vec<Transfer>>) -> Seq<Seq<Transfer>> {
    ts.map_values(|v: Vec<Transfer>| v@)
}

/// One fill of a batch, on grid `k` of `gs`.
pub open spec fn batch_step(c: Config, gs: Seq<GridModel>, k: int, t: FillTarget) -> Result<
    (Seq<GridModel>, Seq<Transfer>),
    GridError,
> {
    if t.base_amount == 0 {
        Err(GridError::ZeroAmount)
    } else if k >= gs.len() {
        Err(GridError::InvalidInstruction)
    } else if !gs[k].is_active() {
        Err(GridError::GridCanceled)
    } else {
        match execution(c, gs[k], t) {
            Err(e) => Err(e),
            Ok((m, ts)) => Ok((gs.update(k, m), ts)),
        }
    }
}

/// The fills of a batch applied in order, fill `i` to grid `targets[i]`, each
/// seeing what the earlier ones did; the first failure decides the outcome.
pub open spec fn batch(
    c: Config,
    gs: Seq<GridModel>,
    targets: Seq<usize>,
    fills: Seq<FillTarget>,
) -> Result<(Seq<GridModel>, Seq<Seq<Transfer>>), GridError>
    decreases fills.len(),
{
    if fills.len() == 0 || targets.len() == 0 {
        Ok((gs, Seq::empty()))
    } else {
        match batch(c, gs, targets.drop_last(), fills.drop_last()) {
            Err(e) => Err(e),
            Ok((cur, done)) => match batch_step(c, cur, targets.last() as int, fills.last()) {
                Err(e) => Err(e),
                Ok((next, ts)) => Ok((next, done.push(ts))),
            },
        }
    }
}

/// A taker fills several slots across grids in one call, all or nothing.
pub open spec fn spec_fill_orders(
    c: Config,
    gs: Seq<GridModel>,
    targets: Seq<usize>,
    fills: Seq<FillTarget>,
) -> Result<(Seq<GridModel>, Seq<Seq<Transfer>>), GridError> {
    if fills.len() == 0 {
        Err(GridError::InvalidOrderCount)
    } else if targets.len() != fills.len() {
        Err(GridError::InvalidInstruction)
    } else if c.paused {
        Err(GridError::Paused)
    } else {
        batch(c, gs, targets, fills)
    }
}

proof fn lemma_batch_err(
    c: Config,
    gs: Seq<GridModel>,
    targets: Seq<usize>,
    fills: Seq<FillTarget>,
    k: int,
    m: int,
)
    requires
        1 <= k <= m <= fills.len(),
        targets.len() == fills.len(),
        batch(c, gs, targets.take(k), fills.take(k)) is Err,
    ensures
        batch(c, gs, targets.take(m), fills.take(m)) == batch(c, gs, targets.take(k), fills.take(k)),
    decreases m,
{
    if m > k {
        assert(targets.take(m).drop_last() =~= targets.take(m - 1));
        assert(fills.take(m).drop_last() =~= fills.take(m - 1));
        lemma_batch_err(c, gs, targets, fills, k, m - 1);
    }
}

/// A batch whose earlier fills all go through, and whose last fill is a valid
/// fill on an active grid but names a slot beyond that grid's ladder, is
/// rejected as a whole with `InvalidOrderIndex`; `fill_orders` then leaves
/// every grid as it was. (Where an earlier fill fails, its error comes first.)
pub proof fn lemma_batch_rejects_bad_slot(
    c: Config,
    gs: Seq<GridModel>,
    targets: Seq<usize>,
    fills: Seq<FillTarget>,
)
    requires
        fills.len() >= 1,
        targets.len() == fills.len(),
        !c.paused,
        batch(c, gs, targets.drop_last(), fills.drop_last()) is Ok,
        ({
            let cur = batch(c, gs, targets.drop_last(), fills.drop_last())->Ok_0.0;
            let k = targets.last() as int;
            let t = fills.last();
            &&& t.base_amount > 0
            &&& k < cur.len()
            &&& cur[k].is_active()
            &&& spec_fill_case(t.side, t.order_side) is Some
            &&& !(cur[k].oneshot && is_reverse(spec_fill_case(t.side, t.order_side)->Some_0))
            &&& t.order_index >= if on_ask_side(spec_fill_case(t.side, t.order_side)->Some_0) {
                cur[k].ask_prices.len()
            } else {
                cur[k].bid_prices.len()
            }
        }),
    ensures
        spec_fill_orders(c, gs, targets, fills) == Err::<
            (Seq<GridModel>, Seq<Seq<Transfer>>),
            GridError,
        >(GridError::InvalidOrderIndex),
{
}

/// A copy of each grid of a list.
fn duplicate_all(grids: &Vec<Grid>) -> (r: Vec<Grid>)
    ensures
        r@.len() == grids@.len(),
        forall|k: int| 0 <= k < r@.len() ==> (#[trigger] r@[k])@ == grids@[k]@,
        models(r@) == models(grids@),
{
    let mut work: Vec<Grid> = Vec::new();
    let mut j: usize = 0;
    while j < grids.len()
        invariant
            j <= grids@.len(),
            work@.len() == j,
            forall|k: int| 0 <= k < j ==> (#[trigger] work@[k])@ == grids@[k]@,
        decreases grids@.len() - j,
    {
        work.push(grids[j].duplicate());
        j = j + 1;
    }
    assert(models(work@) =~= models(grids@));
    work
}

/// Applies one fill of a batch to grid `k` of `work`.
fn apply_target(config: &Config, work: &mut Vec<Grid>, k: usize, fill: &FillTarget) -> (r: Result<
    Vec<Transfer>,
    GridError,
>)
    requires
        forall|i: int| 0 <= i < old(work)@.len() ==> (#[trigger] old(work)@[i])@.wf(),
    ensures
        final(work)@.len() == old(work)@.len(),
        forall|i: int| 0 <= i < final(work)@.len() ==> (#[trigger] final(work)@[i])@.wf(),
        match batch_step(*config, models(old(work)@), k as int, *fill) {
            Ok((gs, ts)) => r is Ok && models(final(work)@) == gs && r->Ok_0@ == ts,
            Err(e) => r == Err::<Vec<Transfer>, GridError>(e),
        },
{
    if fill.base_amount == 0 {
        return Err(GridError::ZeroAmount);
    }
    if k >= work.len() {
        return Err(GridError::InvalidInstruction);
    }
    if !work[k].is_active() {
        return Err(GridError::GridCanceled);
    }
    let mut g = work[k].duplicate();
    let ts = execute_single_fill(config, &mut g, fill)?;
    let ghost before = work@;
    work.set(k, g);
    assert(models(work@) =~= models(before).update(k as int, g@));
    Ok(ts)
}

/// Fills several slots, fill `i` on grid `targets[i]` of `grids`. Either every
/// fill is applied, or the call fails with the error of the first fill that
/// fails and no grid changes. Returns the token
/// movements of each fill, in order.
pub fn fill_orders(
    config: &Config,
    grids: &mut Vec<Grid>,
    targets: &Vec<usize>,
    params: &FillOrdersParams,
) -> (r: Result<Vec<Vec<Transfer>>, GridError>)
    requires
        forall|i: int| 0 <= i < old(grids)@.len() ==> (#[trigger] old(grids)@[i])@.wf(),
    ensures
        match spec_fill_orders(*config, models(old(grids)@), targets@, params.fills@) {
            Ok((gs, tss)) => r is Ok && models(final(grids)@) == gs && movement_lists(r->Ok_0@)
                == tss,
            Err(e) => r == Err::<Vec<Vec<Transfer>>, GridError>(e) && final(grids)@ == old(
                grids,
            )@,
        },
{
    let n = params.fills.len();
    if n == 0 {
        return Err(GridError::InvalidOrderCount);
    }
    if targets.len() != n {
        return Err(GridError::InvalidInstruction);
    }
    if config.paused {
        return Err(GridError::Paused);
    }
    let ghost gs0 = models(grids@);
    let mut work = duplicate_all(grids);
    let mut out: Vec<Vec<Transfer>> = Vec::new();
    let mut i: usize = 0;
    assert(targets@.take(0) =~= Seq::<usize>::empty());
    assert(params.fills@.take(0) =~= Seq::<FillTarget>::empty());
    assert(movement_lists(out@) =~= Seq::<Seq<Transfer>>::empty());
    while i < n
        invariant
            n == params.fills@.len(),
            n == targets@.len(),
            i <= n,
            !config.paused,
            grids@ == old(grids)@,
            gs0 == models(old(grids)@),
            forall|k: int| 0 <= k < work@.len() ==> (#[trigger] work@[k])@.wf(),
            batch(*config, gs0, targets@.take(i as int), params.fills@.take(i as int)) == Ok::<
                (Seq<GridModel>, Seq<Seq<Transfer>>),
                GridError,
            >((models(work@), movement_lists(out@))),
        decreases n - i,
    {
        let fill = params.fills[i];
        let k = targets[i];
        proof {
            assert(targets@.take(i + 1).drop_last() =~= targets@.take(i as int));
            assert(params.fills@.take(i + 1).drop_last() =~= params.fills@.take(i as int));
            assert(targets@.take(i + 1).last() == k);
            assert(params.fills@.take(i + 1).last() == fill);
        }
        let ghost done = out@;
        let ghost before = work@;
        match apply_target(config, &mut work, k, &fill) {
            Ok(ts) => {
                out.push(ts);
                assert(movement_lists(out@) =~= movement_lists(done).push(ts@));
            },
            Err(e) => {
                proof {
                    assert(batch_step(*config, models(before), k as int, fill) == Err::<
                        (Seq<GridModel>, Seq<Transfer>),
                        GridError,
                    >(e));
                    assert(batch(
                        *config,
                        gs0,
                        targets@.take(i + 1),
                        params.fills@.take(i + 1),
                    ) == Err::<(Seq<GridModel>, Seq<Seq<Transfer>>), GridError>(e));
                    lemma_batch_err(*config, gs0, targets@, params.fills@, i + 1, n as int);
                    assert(targets@.take(n as int) =~= targets@);
                    assert(params.fills@.take(n as int) =~= params.fills@);
                }
                return Err(e);
            },
        }
        i = i + 1;
    }
    assert(targets@.take(n as int) =~= targets@);
    assert(params.fills@.take(n as int) =~= params.fills@);
    *grids = work;
    Ok(out)
}

/// The bytes of an account of `capacity` bytes that stores `encoded`: the
/// encoding followed by zeros, or `AccountDataTooSmall` where it does not fit.
pub fn frame_state(encoded: &Vec<u8>, capacity: usize) -> (r: Result<Vec<u8>, GridError>)
    ensures
        encoded@.len() > capacity ==> r == Err::<Vec<u8>, GridError>(GridError::AccountDataTooSmall),
        encoded@.len() <= capacity ==> r is Ok && r->Ok_0@ == encoded@ + Seq::new(
            (capacity - encoded@.len()) as nat,
            |i: int| 0u8,
        ),
{
    let n = encoded.len();
    if n > capacity {
        return Err(GridError::AccountDataTooSmall);
    }
    let mut out: Vec<u8> = Vec::with_capacity(capacity);
    let mut i: usize = 0;
    while i < capacity
        invariant
            n == encoded@.len(),
            n <= capacity,
            i <= capacity,
            out@.len() == i,
            forall|j: int| 0 <= j < i ==> out@[j] == if j < n {
                encoded@[j]
            } else {
                0u8
            },
        decreases capacity - i,
    {
        let b = if i < n {
            encoded[i]
        } else {
            0u8
        };
        out.push(b);
        i = i + 1;
    }
    assert(out@ =~= encoded@ + Seq::new((capacity - n) as nat, |i: int| 0u8));
    Ok(out)
}

/// Opcode of the token program's plain transfer.
pub const TOKEN_TRANSFER_IX: u8 = 3;

/// The instruction data of a token transfer of `amount`: the opcode, then the
/// amount in little-endian order.
pub fn token_transfer_data(amount: u64) -> (r: Vec<u8>)
    ensures
        r@.len() == 9,
        r@[0] == TOKEN_TRANSFER_IX,
        forall|k: int| 0 <= k < 8 ==> r@[k + 1] as int == (amount as int / pow256(k)) % 256,
{
    let mut out: Vec<u8> = Vec::with_capacity(9);
    out.push(TOKEN_TRANSFER_IX);
    let mut rest: u64 = amount;
    let mut k: usize = 0;
    while k < 8
        invariant
            k <= 8,
            out@.len() == k + 1,
            out@[0] == TOKEN_TRANSFER_IX,
            rest as int == amount as int / pow256(k as int),
            forall|j: int| 0 <= j < k ==> out@[j + 1] as int == (amount as int / pow256(j)) % 256,
        decreases 8 - k,
    {
        out.push((rest % 256) as u8);
        proof {
            lemma_pow256_step(amount as int, k as int);
        }
        rest = rest / 256;
        k = k + 1;
    }
    out
}

/// `256` to the power `k`.
pub open spec fn pow256(k: int) -> int
    decreases k,
{
    if k <= 0 {
        1
    } else {
        256 * pow256(k - 1)
    }
}

proof fn lemma_pow256_step(x: int, k: int)
    requires
        0 <= x,
        0 <= k,
    ensures
        x / pow256(k) / 256 == x / pow256(k + 1),
        pow256(k) > 0,
    decreases k,
{
    if k > 0 {
        lemma_pow256_step(x, k - 1);
    }
    let p = pow256(k);
    assert(pow256(k + 1) == 256 * p);
    vstd::arithmetic::div_mod::lemma_div_denominator(x, p, 256);
    assert(p * 256 == 256 * p) by (nonlinear_arith);
}

} // verus!

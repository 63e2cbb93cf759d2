use vstd::prelude::*;

use crate::constants::PRICE_SCALE;
use crate::error::GridError;
use crate::instruction::FillTarget;
use crate::math::{
    calc_fee_u64, fits_u64, lemma_total_update, mul_div_u64, spec_fee, spec_mul_div,
};
use crate::state::{protocol_part, protocol_share_bps, split_fee, Config, Grid, GridModel};
use crate::transfer::{conserves, holdings, moved, Asset, Flow, Transfer};

verus! {

/// The value of `base` units at `price`, rounded down.
pub open spec fn notional(base: u64, price: u64) -> int {
    base * price / PRICE_SCALE as int
}

/// Credits `add` to a slot holding `cur` under a cap: the slot keeps at most
/// `cap`, and the rest of the tentative balance `cur + add` is the second
/// component, which goes to profits.
pub open spec fn capped_credit(cur: int, add: int, cap: int) -> (int, int) {
    if cur + add > cap {
        (cap, cur + add - cap)
    } else {
        (cur + add, 0)
    }
}

/// The new slot balance and the new profits after crediting `add` to a slot
/// holding `cur`: all of it in compound mode, and otherwise capped at one
/// slot's notional at `quota_price`.
pub open spec fn credit_slot(g: GridModel, cur: u64, add: int, quota_price: u64) -> Result<
    (u64, u64),
    GridError,
> {
    if g.compound {
        if fits_u64(cur + add) {
            Ok(((cur + add) as u64, g.profits_quote))
        } else {
            Err(GridError::MathOverflow)
        }
    } else {
        let cap = notional(g.base_amount_per_order, quota_price);
        if !fits_u64(cap) || !fits_u64(cur + add) {
            Err(GridError::MathOverflow)
        } else {
            let (slot, extra) = capped_credit(cur as int, add, cap);
            if !fits_u64(g.profits_quote + extra) {
                Err(GridError::MathOverflow)
            } else {
                Ok((slot as u64, (g.profits_quote + extra) as u64))
            }
        }
    }
}

/// How much a forward-buy or reverse-buy-back slot gives up for a fill of
/// `quote_gross`: in compound mode the maker's fee stays in the slot.
pub open spec fn quote_decrease(g: GridModel, quote_gross: int, maker_fee: int) -> int {
    if g.compound {
        quote_gross - maker_fee
    } else {
        quote_gross
    }
}

/// A forward sell of `fill_base` from ask slot `idx`: the slot's base goes down
/// and its buy-back quote is credited with `quote_gross + maker_fee`. A oneshot
/// grid keeps no reverse inventory: there the whole credit goes to profits.
pub open spec fn ask_bookkeeping(
    g: GridModel,
    idx: int,
    fill_base: int,
    quote_gross: int,
    maker_fee: int,
    quota_price: u64,
) -> Result<GridModel, GridError> {
    if fill_base > g.ask_remaining[idx] {
        Err(GridError::MathOverflow)
    } else if g.oneshot {
        if !fits_u64(g.profits_quote + quote_gross + maker_fee) {
            Err(GridError::MathOverflow)
        } else {
            Ok(
                GridModel {
                    ask_remaining: g.ask_remaining.update(
                        idx,
                        (g.ask_remaining[idx] - fill_base) as u64,
                    ),
                    profits_quote: (g.profits_quote + quote_gross + maker_fee) as u64,
                    ..g
                },
            )
        }
    } else {
        match credit_slot(g, g.ask_reverse_quote[idx], quote_gross + maker_fee, quota_price) {
            Err(e) => Err(e),
            Ok((slot, profits)) => Ok(
                GridModel {
                    ask_remaining: g.ask_remaining.update(
                        idx,
                        (g.ask_remaining[idx] - fill_base) as u64,
                    ),
                    ask_reverse_quote: g.ask_reverse_quote.update(idx, slot),
                    profits_quote: profits,
                    ..g
                },
            ),
        }
    }
}

/// A forward buy of `fill_base` into bid slot `idx`: the slot's quote goes down,
/// its resellable base goes up, and outside compound mode the maker's fee goes
/// to profits. A oneshot grid keeps no reverse inventory: there the bought base
/// goes to the base profits instead.
pub open spec fn bid_bookkeeping(
    g: GridModel,
    idx: int,
    fill_base: int,
    quote_gross: int,
    maker_fee: int,
) -> Result<GridModel, GridError> {
    let dec = quote_decrease(g, quote_gross, maker_fee);
    let profits = if g.compound {
        g.profits_quote as int
    } else {
        g.profits_quote + maker_fee
    };
    let base_credited = if g.oneshot {
        g.profits_base + fill_base
    } else {
        g.bid_reverse_base[idx] + fill_base
    };
    if dec < 0 || dec > g.bid_remaining_quote[idx] || !fits_u64(base_credited) || !fits_u64(
        profits,
    ) {
        Err(GridError::MathOverflow)
    } else if g.oneshot {
        Ok(
            GridModel {
                bid_remaining_quote: g.bid_remaining_quote.update(
                    idx,
                    (g.bid_remaining_quote[idx] - dec) as u64,
                ),
                profits_base: base_credited as u64,
                profits_quote: profits as u64,
                ..g
            },
        )
    } else {
        Ok(
            GridModel {
                bid_remaining_quote: g.bid_remaining_quote.update(
                    idx,
                    (g.bid_remaining_quote[idx] - dec) as u64,
                ),
                bid_reverse_base: g.bid_reverse_base.update(
                    idx,
                    (g.bid_reverse_base[idx] + fill_base) as u64,
                ),
                profits_quote: profits as u64,
                ..g
            },
        )
    }
}

/// A resale of `fill_base` from bid slot `idx`: its resellable base goes down
/// and its quote is credited with `quote_gross + maker_fee`.
pub open spec fn bid_reverse_bookkeeping(
    g: GridModel,
    idx: int,
    fill_base: int,
    quote_gross: int,
    maker_fee: int,
    quota_price: u64,
) -> Result<GridModel, GridError> {
    if fill_base > g.bid_reverse_base[idx] {
        Err(GridError::MathOverflow)
    } else {
        match credit_slot(g, g.bid_remaining_quote[idx], quote_gross + maker_fee, quota_price) {
            Err(e) => Err(e),
            Ok((slot, profits)) => Ok(
                GridModel {
                    bid_reverse_base: g.bid_reverse_base.update(
                        idx,
                        (g.bid_reverse_base[idx] - fill_base) as u64,
                    ),
                    bid_remaining_quote: g.bid_remaining_quote.update(idx, slot),
                    profits_quote: profits,
                    ..g
                },
            ),
        }
    }
}

/// A buy-back of `fill_base` into ask slot `idx`: its buy-back quote goes down,
/// its base goes up, and outside compound mode the maker's fee goes to profits.
pub open spec fn ask_reverse_bookkeeping(
    g: GridModel,
    idx: int,
    fill_base: int,
    quote_gross: int,
    maker_fee: int,
) -> Result<GridModel, GridError> {
    let dec = quote_decrease(g, quote_gross, maker_fee);
    let profits = if g.compound {
        g.profits_quote as int
    } else {
        g.profits_quote + maker_fee
    };
    if dec < 0 || dec > g.ask_reverse_quote[idx] || !fits_u64(g.ask_remaining[idx] + fill_base)
        || !fits_u64(profits) {
        Err(GridError::MathOverflow)
    } else {
        Ok(
            GridModel {
                ask_reverse_quote: g.ask_reverse_quote.update(
                    idx,
                    (g.ask_reverse_quote[idx] - dec) as u64,
                ),
                ask_remaining: g.ask_remaining.update(
                    idx,
                    (g.ask_remaining[idx] + fill_base) as u64,
                ),
                profits_quote: profits as u64,
                ..g
            },
        )
    }
}

/// `r` and the grid's new content `after` are what `expected` says, and on an
/// error the grid is left as it was.
pub open spec fn booked(
    expected: Result<GridModel, GridError>,
    before: GridModel,
    after: GridModel,
    r: Result<(), GridError>,
) -> bool {
    match expected {
        Ok(m) => r is Ok && after == m,
        Err(e) => r == Err::<(), GridError>(e) && after == before,
    }
}

/// Credits `quote_gross + maker_fee` to a slot holding `cur`; returns the new
/// slot balance and the new profits.
fn credit(grid: &Grid, cur: u64, quote_gross: u64, maker_fee: u64, quota_price: u64) -> (r: Result<
    (u64, u64),
    GridError,
>)
    ensures
        r == credit_slot(grid@, cur, quote_gross + maker_fee, quota_price),
{
    let add = match quote_gross.checked_add(maker_fee) {
        Some(v) => v,
        None => return Err(GridError::MathOverflow),
    };
    let next = match cur.checked_add(add) {
        Some(v) => v,
        None => return Err(GridError::MathOverflow),
    };
    if grid.compound {
        return Ok((next, grid.profits_quote));
    }
    let cap = mul_div_u64(grid.base_amount_per_order, quota_price, PRICE_SCALE)?;
    if next > cap {
        let excess = next - cap;
        match grid.profits_quote.checked_add(excess) {
            Some(p) => Ok((cap, p)),
            None => Err(GridError::MathOverflow),
        }
    } else {
        Ok((next, grid.profits_quote))
    }
}

/// Books a forward sell from ask slot `idx`.
pub fn apply_ask_bookkeeping(
    grid: &mut Grid,
    idx: usize,
    fill_base: u64,
    quote_gross: u64,
    maker_fee: u64,
    quota_price: u64,
) -> (r: Result<(), GridError>)
    requires
        old(grid)@.wf(),
        idx < old(grid)@.ask_prices.len(),
    ensures
        booked(
            ask_bookkeeping(
                old(grid)@,
                idx as int,
                fill_base as int,
                quote_gross as int,
                maker_fee as int,
                quota_price,
            ),
            old(grid)@,
            final(grid)@,
            r,
        ),
{
    let remaining = grid.ask_remaining[idx];
    if fill_base > remaining {
        return Err(GridError::MathOverflow);
    }
    if grid.oneshot {
        let profits = match quote_gross.checked_add(maker_fee) {
            Some(add) => match grid.profits_quote.checked_add(add) {
                Some(p) => p,
                None => return Err(GridError::MathOverflow),
            },
            None => return Err(GridError::MathOverflow),
        };
        grid.ask_remaining.set(idx, remaining - fill_base);
        grid.profits_quote = profits;
        return Ok(());
    }
    let (slot, profits) = credit(grid, grid.ask_reverse_quote[idx], quote_gross, maker_fee, quota_price)?;
    grid.ask_remaining.set(idx, remaining - fill_base);
    grid.ask_reverse_quote.set(idx, slot);
    grid.profits_quote = profits;
    Ok(())
}

/// Books a forward buy into bid slot `idx`.
pub fn apply_bid_bookkeeping(
    grid: &mut Grid,
    idx: usize,
    fill_base: u64,
    quote_gross: u64,
    maker_fee: u64,
) -> (r: Result<(), GridError>)
    requires
        old(grid)@.wf(),
        idx < old(grid)@.bid_prices.len(),
    ensures
        booked(
            bid_bookkeeping(
                old(grid)@,
                idx as int,
                fill_base as int,
                quote_gross as int,
                maker_fee as int,
            ),
            old(grid)@,
            final(grid)@,
            r,
        ),
{
    let dec = if grid.compound {
        match quote_gross.checked_sub(maker_fee) {
            Some(v) => v,
            None => return Err(GridError::MathOverflow),
        }
    } else {
        quote_gross
    };
    let remaining_quote = grid.bid_remaining_quote[idx];
    if dec > remaining_quote {
        return Err(GridError::MathOverflow);
    }
    let base_held = if grid.oneshot {
        grid.profits_base
    } else {
        grid.bid_reverse_base[idx]
    };
    let base_credited = match base_held.checked_add(fill_base) {
        Some(v) => v,
        None => return Err(GridError::MathOverflow),
    };
    let profits = if grid.compound {
        grid.profits_quote
    } else {
        match grid.profits_quote.checked_add(maker_fee) {
            Some(v) => v,
            None => return Err(GridError::MathOverflow),
        }
    };
    grid.bid_remaining_quote.set(idx, remaining_quote - dec);
    if grid.oneshot {
        grid.profits_base = base_credited;
    } else {
        grid.bid_reverse_base.set(idx, base_credited);
    }
    grid.profits_quote = profits;
    Ok(())
}

/// Books a resale from bid slot `idx`.
pub fn apply_bid_reverse_bookkeeping(
    grid: &mut Grid,
    idx: usize,
    fill_base: u64,
    quote_gross: u64,
    maker_fee: u64,
    quota_price: u64,
) -> (r: Result<(), GridError>)
    requires
        old(grid)@.wf(),
        idx < old(grid)@.bid_prices.len(),
    ensures
        booked(
            bid_reverse_bookkeeping(
                old(grid)@,
                idx as int,
                fill_base as int,
                quote_gross as int,
                maker_fee as int,
                quota_price,
            ),
            old(grid)@,
            final(grid)@,
            r,
        ),
{
    let reverse_base = grid.bid_reverse_base[idx];
    if fill_base > reverse_base {
        return Err(GridError::MathOverflow);
    }
    let (slot, profits) = credit(grid, grid.bid_remaining_quote[idx], quote_gross, maker_fee, quota_price)?;
    grid.bid_reverse_base.set(idx, reverse_base - fill_base);
    grid.bid_remaining_quote.set(idx, slot);
    grid.profits_quote = profits;
    Ok(())
}

/// Books a buy-back into ask slot `idx`.
pub fn apply_ask_reverse_bookkeeping(
    grid: &mut Grid,
    idx: usize,
    fill_base: u64,
    quote_gross: u64,
    maker_fee: u64,
) -> (r: Result<(), GridError>)
    requires
        old(grid)@.wf(),
        idx < old(grid)@.ask_prices.len(),
    ensures
        booked(
            ask_reverse_bookkeeping(
                old(grid)@,
                idx as int,
                fill_base as int,
                quote_gross as int,
                maker_fee as int,
            ),
            old(grid)@,
            final(grid)@,
            r,
        ),
{
    let dec = if grid.compound {
        match quote_gross.checked_sub(maker_fee) {
            Some(v) => v,
            None => return Err(GridError::MathOverflow),
        }
    } else {
        quote_gross
    };
    let reverse_quote = grid.ask_reverse_quote[idx];
    if dec > reverse_quote {
        return Err(GridError::MathOverflow);
    }
    let remaining = match grid.ask_remaining[idx].checked_add(fill_base) {
        Some(v) => v,
        None => return Err(GridError::MathOverflow),
    };
    let profits = if grid.compound {
        grid.profits_quote
    } else {
        match grid.profits_quote.checked_add(maker_fee) {
            Some(v) => v,
            None => return Err(GridError::MathOverflow),
        }
    };
    grid.ask_reverse_quote.set(idx, reverse_quote - dec);
    grid.ask_remaining.set(idx, remaining);
    grid.profits_quote = profits;
    Ok(())
}

/// The four kinds of fill, by taker side and book side.
#[derive(Clone, Copy, Debug, PartialEq, Eq, Structural)]
pub enum FillCase {
    /// The taker buys base from an ask slot's forward inventory.
    ForwardSell,
    /// The taker buys base back from a bid slot's reverse inventory.
    ReverseResale,
    /// The taker sells base into a bid slot's forward quote.
    ForwardBuy,
    /// The taker sells base into an ask slot's reverse quote.
    ReverseBuyBack,
}

/// The fill that a taker side (0 buys base, 1 sells base) and a book side
/// (0 ask, 1 bid) select, if any.
pub open spec fn spec_fill_case(side: u8, order_side: u8) -> Option<FillCase> {
    if side == 0 && order_side == 0 {
        Some(FillCase::ForwardSell)
    } else if side == 0 && order_side == 1 {
        Some(FillCase::ReverseResale)
    } else if side == 1 && order_side == 1 {
        Some(FillCase::ForwardBuy)
    } else if side == 1 && order_side == 0 {
        Some(FillCase::ReverseBuyBack)
    } else {
        None
    }
}

pub open spec fn is_reverse(case: FillCase) -> bool {
    case == FillCase::ReverseResale || case == FillCase::ReverseBuyBack
}

pub open spec fn on_ask_side(case: FillCase) -> bool {
    case == FillCase::ForwardSell || case == FillCase::ReverseBuyBack
}

/// The taker receives base: the slot's inventory is counted in base.
pub open spec fn taker_buys(case: FillCase) -> bool {
    case == FillCase::ForwardSell || case == FillCase::ReverseResale
}

/// The inventory that a fill draws on at slot `idx`.
pub open spec fn available(g: GridModel, case: FillCase, idx: int) -> u64 {
    match case {
        FillCase::ForwardSell => g.ask_remaining[idx],
        FillCase::ReverseResale => g.bid_reverse_base[idx],
        FillCase::ForwardBuy => g.bid_remaining_quote[idx],
        FillCase::ReverseBuyBack => g.ask_reverse_quote[idx],
    }
}

/// The price a fill trades at. A resale trades at the slot's forward bid
/// price, while a buy-back trades at the ask slot's own reverse price.
pub open spec fn fill_price(g: GridModel, case: FillCase, idx: int) -> u64 {
    match case {
        FillCase::ForwardSell => g.ask_prices[idx],
        FillCase::ReverseResale => g.bid_prices[idx],
        FillCase::ForwardBuy => g.bid_prices[idx],
        FillCase::ReverseBuyBack => g.ask_rev_prices[idx],
    }
}

/// What a fill reports: base moved, quote before fees, the taker fee and the
/// protocol's part of it.
#[derive(Clone, Copy, Debug, PartialEq, Eq, Structural)]
pub struct FillOutcome {
    pub fill_base: u64,
    pub quote_gross: u64,
    pub total_fee: u64,
    pub protocol_fee: u64,
}

/// The protocol's part of a taker fee on grid `g`.
pub open spec fn protocol_fee_of(c: Config, g: GridModel, total_fee: int) -> int {
    protocol_part(total_fee, protocol_share_bps(c.protocol_fee_bps, c.oneshot_protocol_fee_bps, g.oneshot))
}

/// The bookkeeping of a fill of `case` at slot `idx`. The cap of a buy-back
/// credit is valued at the ask slot's reverse price, that of a resale credit at
/// the bid slot's forward price. On a oneshot grid, where reverse fills are
/// refused, the forward fills credit no reverse inventory: the quote of a
/// forward sell goes to `profits_quote` and the base of a forward buy to
/// `profits_base`.
pub open spec fn book_fill(
    g: GridModel,
    case: FillCase,
    idx: int,
    fill_base: u64,
    quote_gross: u64,
    maker_fee: int,
) -> Result<GridModel, GridError> {
    match case {
        FillCase::ForwardSell => ask_bookkeeping(
            g,
            idx,
            fill_base as int,
            quote_gross as int,
            maker_fee,
            g.ask_rev_prices[idx],
        ),
        FillCase::ReverseResale => bid_reverse_bookkeeping(
            g,
            idx,
            fill_base as int,
            quote_gross as int,
            maker_fee,
            g.bid_prices[idx],
        ),
        FillCase::ForwardBuy => bid_bookkeeping(
            g,
            idx,
            fill_base as int,
            quote_gross as int,
            maker_fee,
        ),
        FillCase::ReverseBuyBack => ask_reverse_bookkeeping(
            g,
            idx,
            fill_base as int,
            quote_gross as int,
            maker_fee,
        ),
    }
}

/// The base amount and gross quote of a fill of `req` base at slot `idx`.
///
/// Where the taker buys base, the fill is the smaller of the slot's base and the
/// request. Where the taker sells base, the request is priced first, and if its
/// cost exceeds the slot's quote the fill is cut down to what that quote buys;
/// a fill that comes to nothing is refused.
pub open spec fn fill_size(g: GridModel, case: FillCase, idx: int, req: u64) -> Result<
    (u64, u64),
    GridError,
> {
    let avail = available(g, case, idx);
    let price = fill_price(g, case, idx);
    if taker_buys(case) {
        let fill_base = if avail < req {
            avail
        } else {
            req
        };
        match spec_mul_div(fill_base as int, price as int, PRICE_SCALE as int) {
            Err(e) => Err(e),
            Ok(quote_gross) => Ok((fill_base, quote_gross)),
        }
    } else {
        match spec_mul_div(req as int, price as int, PRICE_SCALE as int) {
            Err(e) => Err(e),
            Ok(cost) => if cost > avail {
                match spec_mul_div(avail as int, PRICE_SCALE as int, price as int) {
                    Err(e) => Err(e),
                    Ok(fill_base) => if fill_base == 0 {
                        Err(GridError::InsufficientLiquidity)
                    } else {
                        Ok((fill_base, avail))
                    },
                }
            } else if req == 0 || cost == 0 {
                Err(GridError::InsufficientLiquidity)
            } else {
                Ok((req, cost))
            },
        }
    }
}

/// The fill once its base amount and gross quote are fixed: fee, split, and the
/// bookkeeping of its case.
pub open spec fn settle_priced(
    c: Config,
    g: GridModel,
    case: FillCase,
    idx: int,
    fill_base: u64,
    quote_gross: u64,
) -> Result<(GridModel, FillOutcome), GridError> {
    match spec_fee(quote_gross as int, g.fee_bps as int) {
        Err(e) => Err(e),
        Ok(total_fee) => {
            let protocol_fee = protocol_fee_of(c, g, total_fee as int);
            let maker_fee = total_fee - protocol_fee;
            let booked = book_fill(g, case, idx, fill_base, quote_gross, maker_fee);
            match booked {
                Err(e) => Err(e),
                Ok(m) => Ok(
                    (
                        m,
                        FillOutcome {
                            fill_base,
                            quote_gross,
                            total_fee,
                            protocol_fee: protocol_fee as u64,
                        },
                    ),
                ),
            }
        },
    }
}

/// One fill against grid `g`, before any token moves: the new ledger and the
/// fill's figures, or the reason it is refused.
pub open spec fn settle(c: Config, g: GridModel, t: FillTarget) -> Result<
    (GridModel, FillOutcome),
    GridError,
> {
    let idx = t.order_index as int;
    match spec_fill_case(t.side, t.order_side) {
        None => Err(GridError::InvalidInstruction),
        Some(case) => {
            let len = if on_ask_side(case) {
                g.ask_prices.len()
            } else {
                g.bid_prices.len()
            };
            if g.oneshot && is_reverse(case) {
                Err(GridError::InvalidInstruction)
            } else if idx >= len {
                Err(GridError::InvalidOrderIndex)
            } else {
                if available(g, case, idx) == 0 {
                    Err(GridError::InsufficientLiquidity)
                } else {
                    match fill_size(g, case, idx, t.base_amount) {
                        Err(e) => Err(e),
                        Ok((fill_base, quote_gross)) => settle_priced(
                            c,
                            g,
                            case,
                            idx,
                            fill_base,
                            quote_gross,
                        ),
                    }
                }
            }
        },
    }
}

/// The token movements of a settled fill: the taker pays in one asset and is
/// paid out in the other, the fee staying with the vault.
pub open spec fn fill_transfers(side: u8, o: FillOutcome) -> Result<Seq<Transfer>, GridError> {
    if side == 0 {
        let quote_in = o.quote_gross + o.total_fee;
        if !fits_u64(quote_in) {
            Err(GridError::MathOverflow)
        } else {
            Ok(
                seq![
                    Transfer { asset: Asset::Quote, flow: Flow::IntoVault, amount: quote_in as u64 },
                    Transfer { asset: Asset::Base, flow: Flow::OutOfVault, amount: o.fill_base },
                ],
            )
        }
    } else {
        let quote_out = o.quote_gross - o.total_fee;
        if quote_out < 0 {
            Err(GridError::MathOverflow)
        } else {
            Ok(
                seq![
                    Transfer { asset: Asset::Base, flow: Flow::IntoVault, amount: o.fill_base },
                    Transfer { asset: Asset::Quote, flow: Flow::OutOfVault, amount: quote_out as u64 },
                ],
            )
        }
    }
}

/// A whole fill: settlement, its token movements, and the protocol's part of
/// the fee set aside on the grid.
pub open spec fn execution(c: Config, g: GridModel, t: FillTarget) -> Result<
    (GridModel, Seq<Transfer>),
    GridError,
> {
    match settle(c, g, t) {
        Err(e) => Err(e),
        Ok((m, o)) => match fill_transfers(t.side, o) {
            Err(e) => Err(e),
            Ok(ts) => if !fits_u64(m.protocol_fees_quote + o.protocol_fee) {
                Err(GridError::MathOverflow)
            } else {
                Ok(
                    (
                        GridModel {
                            protocol_fees_quote: (m.protocol_fees_quote + o.protocol_fee) as u64,
                            ..m
                        },
                        ts,
                    ),
                )
            },
        },
    }
}

pub fn fill_case(side: u8, order_side: u8) -> (r: Option<FillCase>)
    ensures
        r == spec_fill_case(side, order_side),
{
    match (side, order_side) {
        (0, 0) => Some(FillCase::ForwardSell),
        (0, 1) => Some(FillCase::ReverseResale),
        (1, 1) => Some(FillCase::ForwardBuy),
        (1, 0) => Some(FillCase::ReverseBuyBack),
        _ => None,
    }
}

/// The inventory a fill of `case` draws on at slot `idx`, and its price.
fn slot_inventory(grid: &Grid, case: FillCase, idx: usize) -> (r: (u64, u64))
    requires
        grid@.wf(),
        idx < if on_ask_side(case) {
            grid@.ask_prices.len()
        } else {
            grid@.bid_prices.len()
        },
    ensures
        r.0 == available(grid@, case, idx as int),
        r.1 == fill_price(grid@, case, idx as int),
{
    match case {
        FillCase::ForwardSell => (grid.ask_remaining[idx], grid.ask_prices[idx]),
        FillCase::ReverseResale => (grid.bid_reverse_base[idx], grid.bid_prices[idx]),
        FillCase::ForwardBuy => (grid.bid_remaining_quote[idx], grid.bid_prices[idx]),
        FillCase::ReverseBuyBack => (grid.ask_reverse_quote[idx], grid.ask_rev_prices[idx]),
    }
}

/// Base amount and gross quote of a fill of `req` base.
fn size_fill(grid: &Grid, case: FillCase, idx: usize, req: u64) -> (r: Result<(u64, u64), GridError>)
    requires
        grid@.wf(),
        idx < if on_ask_side(case) {
            grid@.ask_prices.len()
        } else {
            grid@.bid_prices.len()
        },
    ensures
        r == fill_size(grid@, case, idx as int, req),
{
    let (avail, price) = slot_inventory(grid, case, idx);
    match case {
        FillCase::ForwardSell | FillCase::ReverseResale => {
            let fill_base = if avail < req {
                avail
            } else {
                req
            };
            let quote_gross = mul_div_u64(fill_base, price, PRICE_SCALE)?;
            Ok((fill_base, quote_gross))
        },
        _ => {
            let cost = mul_div_u64(req, price, PRICE_SCALE)?;
            if cost > avail {
                let fill_base = mul_div_u64(avail, PRICE_SCALE, price)?;
                if fill_base == 0 {
                    return Err(GridError::InsufficientLiquidity);
                }
                Ok((fill_base, avail))
            } else if req == 0 || cost == 0 {
                Err(GridError::InsufficientLiquidity)
            } else {
                Ok((req, cost))
            }
        },
    }
}

/// Books a fill of `case` at slot `idx`.
fn book(
    grid: &mut Grid,
    case: FillCase,
    idx: usize,
    fill_base: u64,
    quote_gross: u64,
    maker_fee: u64,
) -> (r: Result<(), GridError>)
    requires
        old(grid)@.wf(),
        idx < if on_ask_side(case) {
            old(grid)@.ask_prices.len()
        } else {
            old(grid)@.bid_prices.len()
        },
    ensures
        booked(
            book_fill(old(grid)@, case, idx as int, fill_base, quote_gross, maker_fee as int),
            old(grid)@,
            final(grid)@,
            r,
        ),
{
    match case {
        FillCase::ForwardSell => {
            let quota_price = grid.ask_rev_prices[idx];
            apply_ask_bookkeeping(grid, idx, fill_base, quote_gross, maker_fee, quota_price)
        },
        FillCase::ReverseResale => {
            let quota_price = grid.bid_prices[idx];
            apply_bid_reverse_bookkeeping(grid, idx, fill_base, quote_gross, maker_fee, quota_price)
        },
        FillCase::ForwardBuy => apply_bid_bookkeeping(grid, idx, fill_base, quote_gross, maker_fee),
        FillCase::ReverseBuyBack => apply_ask_reverse_bookkeeping(
            grid,
            idx,
            fill_base,
            quote_gross,
            maker_fee,
        ),
    }
}

/// Settles one fill against `grid`: computes its figures and books them. On an
/// error the grid is unchanged.
pub fn settle_fill(config: &Config, grid: &mut Grid, fill: &FillTarget) -> (r: Result<
    FillOutcome,
    GridError,
>)
    requires
        old(grid)@.wf(),
    ensures
        match settle(*config, old(grid)@, *fill) {
            Ok((m, o)) => r == Ok::<FillOutcome, GridError>(o) && final(grid)@ == m,
            Err(e) => r == Err::<FillOutcome, GridError>(e) && final(grid)@ == old(grid)@,
        },
{
    let case = match fill_case(fill.side, fill.order_side) {
        Some(c) => c,
        None => return Err(GridError::InvalidInstruction),
    };
    let reverse = match case {
        FillCase::ReverseResale | FillCase::ReverseBuyBack => true,
        _ => false,
    };
    if grid.oneshot && reverse {
        return Err(GridError::InvalidInstruction);
    }
    let idx = fill.order_index as usize;
    let len = match case {
        FillCase::ForwardSell | FillCase::ReverseBuyBack => grid.ask_prices.len(),
        _ => grid.bid_prices.len(),
    };
    if idx >= len {
        return Err(GridError::InvalidOrderIndex);
    }
    if slot_inventory(grid, case, idx).0 == 0 {
        return Err(GridError::InsufficientLiquidity);
    }
    let (fill_base, quote_gross) = size_fill(grid, case, idx, fill.base_amount)?;
    let total_fee = calc_fee_u64(quote_gross, grid.fee_bps)?;
    let (protocol_fee, maker_fee) = split_fee(
        total_fee,
        config.protocol_fee_bps,
        config.oneshot_protocol_fee_bps,
        grid.oneshot,
    );
    book(grid, case, idx, fill_base, quote_gross, maker_fee)?;
    Ok(FillOutcome { fill_base, quote_gross, total_fee, protocol_fee })
}

/// Carries out one fill on `grid`: settles it, works out the token movements
/// for the caller to perform, and sets the protocol's fee aside. On an error the
/// grid is unchanged.
pub fn execute_single_fill(config: &Config, grid: &mut Grid, fill: &FillTarget) -> (r: Result<
    Vec<Transfer>,
    GridError,
>)
    requires
        old(grid)@.wf(),
    ensures
        match execution(*config, old(grid)@, *fill) {
            Ok((m, ts)) => r is Ok && r->Ok_0@ == ts && final(grid)@ == m,
            Err(e) => r == Err::<Vec<Transfer>, GridError>(e) && final(grid)@ == old(grid)@,
        },
        final(grid)@.wf(),
        r is Ok ==> conserves(old(grid)@, final(grid)@, r->Ok_0@),
        old(grid).oneshot ==> final(grid)@.ask_reverse_quote == old(grid)@.ask_reverse_quote
            && final(grid)@.bid_reverse_base == old(grid)@.bid_reverse_base,
{
    let ghost before = grid@;
    let mut work = grid.duplicate();
    let o = settle_fill(config, &mut work, fill)?;
    let mut transfers: Vec<Transfer> = Vec::new();
    if fill.side == 0 {
        let quote_in = match o.quote_gross.checked_add(o.total_fee) {
            Some(v) => v,
            None => return Err(GridError::MathOverflow),
        };
        transfers.push(Transfer { asset: Asset::Quote, flow: Flow::IntoVault, amount: quote_in });
        transfers.push(Transfer { asset: Asset::Base, flow: Flow::OutOfVault, amount: o.fill_base });
    } else {
        if o.quote_gross < o.total_fee {
            return Err(GridError::MathOverflow);
        }
        let quote_out = o.quote_gross - o.total_fee;
        transfers.push(Transfer { asset: Asset::Base, flow: Flow::IntoVault, amount: o.fill_base });
        transfers.push(Transfer { asset: Asset::Quote, flow: Flow::OutOfVault, amount: quote_out });
    }
    let fees = match work.protocol_fees_quote.checked_add(o.protocol_fee) {
        Some(v) => v,
        None => return Err(GridError::MathOverflow),
    };
    work.protocol_fees_quote = fees;
    *grid = work;
    proof {
        assert(transfers@ =~= execution(*config, before, *fill)->Ok_0.1);
        lemma_fill_conserves(*config, before, *fill);
        if before.oneshot {
            lemma_oneshot_keeps_reverse_empty(*config, before, *fill);
        }
    }
    Ok(transfers)
}

/// A credit adds exactly `add` to the slot and the profits together.
proof fn lemma_credit_sum(g: GridModel, cur: u64, add: int, quota_price: u64)
    requires
        credit_slot(g, cur, add, quota_price) is Ok,
    ensures
        ({
            let (slot, profits) = credit_slot(g, cur, add, quota_price)->Ok_0;
            slot + profits == cur + add + g.profits_quote
        }),
{
}

/// The amount of one movement counted under `asset` and `flow`.
pub open spec fn counted(t: Transfer, asset: Asset, flow: Flow) -> int {
    if t.asset == asset && t.flow == flow {
        t.amount as int
    } else {
        0
    }
}

pub proof fn lemma_moved_pair(a: Transfer, b: Transfer, asset: Asset, flow: Flow)
    ensures
        moved(seq![a, b], asset, flow) == counted(a, asset, flow) + counted(b, asset, flow),
{
    assert(seq![a, b].drop_last() =~= seq![a]);
    assert(seq![a].drop_last() =~= Seq::<Transfer>::empty());
    assert(moved(Seq::<Transfer>::empty(), asset, flow) == 0);
    assert(moved(seq![a], asset, flow) == counted(a, asset, flow));
}

/// Bookkeeping moves value between the grid's accounts as the fill says: on
/// the base side by `fill_base`, on the quote side by the gross quote and the
/// maker's fee.
proof fn lemma_book_balance(
    g: GridModel,
    case: FillCase,
    idx: int,
    fill_base: u64,
    quote_gross: u64,
    maker_fee: int,
)
    requires
        g.wf(),
        0 <= idx < if on_ask_side(case) {
            g.ask_prices.len()
        } else {
            g.bid_prices.len()
        },
        book_fill(g, case, idx, fill_base, quote_gross, maker_fee) is Ok,
    ensures
        ({
            let m = book_fill(g, case, idx, fill_base, quote_gross, maker_fee)->Ok_0;
            &&& m.protocol_fees_quote == g.protocol_fees_quote
            &&& taker_buys(case) ==> holdings(m, Asset::Base) + fill_base == holdings(
                g,
                Asset::Base,
            )
            &&& taker_buys(case) ==> holdings(m, Asset::Quote) == holdings(g, Asset::Quote)
                + quote_gross + maker_fee
            &&& !taker_buys(case) ==> holdings(m, Asset::Base) == holdings(g, Asset::Base)
                + fill_base
            &&& !taker_buys(case) ==> holdings(m, Asset::Quote) + quote_gross == holdings(
                g,
                Asset::Quote,
            ) + maker_fee
        }),
{
    let m = book_fill(g, case, idx, fill_base, quote_gross, maker_fee)->Ok_0;
    match case {
        FillCase::ForwardSell => {
            lemma_total_update(g.ask_remaining, idx, m.ask_remaining[idx]);
            if !g.oneshot {
                lemma_credit_sum(
                    g,
                    g.ask_reverse_quote[idx],
                    quote_gross + maker_fee,
                    g.ask_rev_prices[idx],
                );
                lemma_total_update(g.ask_reverse_quote, idx, m.ask_reverse_quote[idx]);
            }
        },
        FillCase::ReverseResale => {
            lemma_credit_sum(g, g.bid_remaining_quote[idx], quote_gross + maker_fee, g.bid_prices[idx]);
            lemma_total_update(g.bid_reverse_base, idx, m.bid_reverse_base[idx]);
            lemma_total_update(g.bid_remaining_quote, idx, m.bid_remaining_quote[idx]);
        },
        FillCase::ForwardBuy => {
            if !g.oneshot {
                lemma_total_update(g.bid_reverse_base, idx, m.bid_reverse_base[idx]);
            }
            lemma_total_update(g.bid_remaining_quote, idx, m.bid_remaining_quote[idx]);
        },
        FillCase::ReverseBuyBack => {
            lemma_total_update(g.ask_remaining, idx, m.ask_remaining[idx]);
            lemma_total_update(g.ask_reverse_quote, idx, m.ask_reverse_quote[idx]);
        },
    }
}

/// A fill's token movements account exactly for the change it makes to the
/// grid's books: for each vault, what the ledger owed before plus what flows in
/// equals what it owes after plus what flows out.
pub proof fn lemma_fill_conserves(c: Config, g: GridModel, t: FillTarget)
    requires
        g.wf(),
        execution(c, g, t) is Ok,
    ensures
        conserves(g, execution(c, g, t)->Ok_0.0, execution(c, g, t)->Ok_0.1),
{
    let case = spec_fill_case(t.side, t.order_side)->Some_0;
    let idx = t.order_index as int;
    let (fill_base, quote_gross) = fill_size(g, case, idx, t.base_amount)->Ok_0;
    let total_fee = spec_fee(quote_gross as int, g.fee_bps as int)->Ok_0;
    let protocol_fee = protocol_fee_of(c, g, total_fee as int);
    let maker_fee = total_fee - protocol_fee;
    lemma_book_balance(g, case, idx, fill_base, quote_gross, maker_fee);
    let ts = execution(c, g, t)->Ok_0.1;
    lemma_moved_pair(ts[0], ts[1], Asset::Base, Flow::IntoVault);
    lemma_moved_pair(ts[0], ts[1], Asset::Base, Flow::OutOfVault);
    lemma_moved_pair(ts[0], ts[1], Asset::Quote, Flow::IntoVault);
    lemma_moved_pair(ts[0], ts[1], Asset::Quote, Flow::OutOfVault);
    assert(ts =~= seq![ts[0], ts[1]]);
}

/// Outside compound mode, on a grid that keeps reverse inventory (not
/// oneshot), a credited slot never holds more than one slot's notional at its
/// governing price (the ask slot's reverse price for a forward sell, the bid
/// slot's forward price for a resale), and whatever the tentative balance had
/// beyond that lands in profits: slot and profits together grow by exactly the
/// credit.
pub proof fn lemma_noncompound_cap(c: Config, g: GridModel, t: FillTarget)
    requires
        g.wf(),
        !g.compound,
        !g.oneshot,
        settle(c, g, t) is Ok,
    ensures
        ({
            let (m, o) = settle(c, g, t)->Ok_0;
            let idx = t.order_index as int;
            let credit = o.quote_gross + o.total_fee - o.protocol_fee;
            &&& spec_fill_case(t.side, t.order_side) == Some(FillCase::ForwardSell) ==> {
                &&& m.ask_reverse_quote[idx] <= notional(
                    g.base_amount_per_order,
                    g.ask_rev_prices[idx],
                )
                &&& m.ask_reverse_quote[idx] + m.profits_quote == g.ask_reverse_quote[idx]
                    + g.profits_quote + credit
            }
            &&& spec_fill_case(t.side, t.order_side) == Some(FillCase::ReverseResale) ==> {
                &&& m.bid_remaining_quote[idx] <= notional(
                    g.base_amount_per_order,
                    g.bid_prices[idx],
                )
                &&& m.bid_remaining_quote[idx] + m.profits_quote == g.bid_remaining_quote[idx]
                    + g.profits_quote + credit
            }
        }),
{
}

/// A oneshot grid keeps no reverse inventory: no fill on it changes any slot's
/// buy-back quote or resellable base, so where they start at zero they stay
/// zero.
pub proof fn lemma_oneshot_keeps_reverse_empty(c: Config, g: GridModel, t: FillTarget)
    requires
        g.wf(),
        g.oneshot,
        execution(c, g, t) is Ok,
    ensures
        execution(c, g, t)->Ok_0.0.ask_reverse_quote == g.ask_reverse_quote,
        execution(c, g, t)->Ok_0.0.bid_reverse_base == g.bid_reverse_base,
{
}

} // verus!

use vstd::prelude::*;

use crate::constants::{BPS_DENOMINATOR, MAX_ORDERS_PER_SIDE, MAX_PROTOCOL_FEE_BPS};

verus! {

/// Status of a grid that takes fills.
pub const STATUS_ACTIVE: u8 = 0;

/// Status of a grid that was canceled; it never becomes active again.
pub const STATUS_CANCELED: u8 = 1;

/// The single global configuration record.
#[derive(Clone, Copy, Debug)]
pub struct Config {
    pub admin: [u8; 32],
    pub paused: bool,
    pub protocol_fee_bps: u16,
    pub oneshot_protocol_fee_bps: u16,
    pub next_grid_id: u64,
}

/// One trader's grid: a ladder of slots on each side with their inventories.
///
/// Slot `i` of a side is the same index in each of that side's arrays, and the
/// index is the order's permanent identity.
#[derive(Clone, Debug)]
pub struct Grid {
    pub owner: [u8; 32],
    pub id: u64,
    pub status: u8,
    pub base_vault: [u8; 32],
    pub quote_vault: [u8; 32],
    pub signer: [u8; 32],
    pub signer_bump: u8,
    pub fee_bps: u16,
    pub compound: bool,
    pub oneshot: bool,
    pub base_amount_per_order: u64,
    pub profits_quote: u64,
    /// Base bought on a oneshot grid, which keeps no reverse inventory; the
    /// owner gets it back when the grid is canceled.
    pub profits_base: u64,
    pub protocol_fees_quote: u64,
    pub ask_prices: Vec<u64>,
    pub ask_rev_prices: Vec<u64>,
    pub ask_remaining: Vec<u64>,
    pub ask_reverse_quote: Vec<u64>,
    pub bid_prices: Vec<u64>,
    pub bid_rev_prices: Vec<u64>,
    pub bid_remaining_quote: Vec<u64>,
    pub bid_reverse_base: Vec<u64>,
}

/// The mathematical content of a [`Grid`]: the same fields, arrays as sequences.
pub struct GridModel {
    pub owner: [u8; 32],
    pub id: u64,
    pub status: u8,
    pub base_vault: [u8; 32],
    pub quote_vault: [u8; 32],
    pub signer: [u8; 32],
    pub signer_bump: u8,
    pub fee_bps: u16,
    pub compound: bool,
    pub oneshot: bool,
    pub base_amount_per_order: u64,
    pub profits_quote: u64,
    pub profits_base: u64,
    pub protocol_fees_quote: u64,
    pub ask_prices: Seq<u64>,
    pub ask_rev_prices: Seq<u64>,
    pub ask_remaining: Seq<u64>,
    pub ask_reverse_quote: Seq<u64>,
    pub bid_prices: Seq<u64>,
    pub bid_rev_prices: Seq<u64>,
    pub bid_remaining_quote: Seq<u64>,
    pub bid_reverse_base: Seq<u64>,
}

impl View for Grid {
    type V = GridModel;

    open spec fn view(&self) -> GridModel {
        GridModel {
            owner: self.owner,
            id: self.id,
            status: self.status,
            base_vault: self.base_vault,
            quote_vault: self.quote_vault,
            signer: self.signer,
            signer_bump: self.signer_bump,
            fee_bps: self.fee_bps,
            compound: self.compound,
            oneshot: self.oneshot,
            base_amount_per_order: self.base_amount_per_order,
            profits_quote: self.profits_quote,
            profits_base: self.profits_base,
            protocol_fees_quote: self.protocol_fees_quote,
            ask_prices: self.ask_prices@,
            ask_rev_prices: self.ask_rev_prices@,
            ask_remaining: self.ask_remaining@,
            ask_reverse_quote: self.ask_reverse_quote@,
            bid_prices: self.bid_prices@,
            bid_rev_prices: self.bid_rev_prices@,
            bid_remaining_quote: self.bid_remaining_quote@,
            bid_reverse_base: self.bid_reverse_base@,
        }
    }
}

impl GridModel {
    /// The per-side arrays are parallel: each side's arrays have one length.
    pub open spec fn wf(self) -> bool {
        &&& self.ask_rev_prices.len() == self.ask_prices.len()
        &&& self.ask_remaining.len() == self.ask_prices.len()
        &&& self.ask_reverse_quote.len() == self.ask_prices.len()
        &&& self.bid_rev_prices.len() == self.bid_prices.len()
        &&& self.bid_remaining_quote.len() == self.bid_prices.len()
        &&& self.bid_reverse_base.len() == self.bid_prices.len()
    }

    pub open spec fn is_active(self) -> bool {
        self.status == STATUS_ACTIVE
    }

    /// Neither ladder is deeper than the bound.
    pub open spec fn can_place(self) -> bool {
        self.ask_prices.len() <= MAX_ORDERS_PER_SIDE && self.bid_prices.len()
            <= MAX_ORDERS_PER_SIDE
    }
}

impl Grid {
    pub fn is_active(&self) -> (r: bool)
        ensures
            r == self@.is_active(),
    {
        self.status == STATUS_ACTIVE
    }

    pub fn can_place(&self) -> (r: bool)
        ensures
            r == self@.can_place(),
    {
        self.ask_prices.len() <= MAX_ORDERS_PER_SIDE && self.bid_prices.len()
            <= MAX_ORDERS_PER_SIDE
    }

    /// Whether each side's arrays have one length, as every operation on slots
    /// needs.
    pub fn is_well_formed(&self) -> (r: bool)
        ensures
            r == self@.wf(),
    {
        let na = self.ask_prices.len();
        let nb = self.bid_prices.len();
        self.ask_rev_prices.len() == na && self.ask_remaining.len() == na
            && self.ask_reverse_quote.len() == na && self.bid_rev_prices.len() == nb
            && self.bid_remaining_quote.len() == nb && self.bid_reverse_base.len() == nb
    }

    /// A copy of the grid with the same content.
    pub fn duplicate(&self) -> (r: Grid)
        ensures
            r@ == self@,
    {
        let r = Grid {
            owner: self.owner,
            id: self.id,
            status: self.status,
            base_vault: self.base_vault,
            quote_vault: self.quote_vault,
            signer: self.signer,
            signer_bump: self.signer_bump,
            fee_bps: self.fee_bps,
            compound: self.compound,
            oneshot: self.oneshot,
            base_amount_per_order: self.base_amount_per_order,
            profits_quote: self.profits_quote,
            profits_base: self.profits_base,
            protocol_fees_quote: self.protocol_fees_quote,
            ask_prices: self.ask_prices.clone(),
            ask_rev_prices: self.ask_rev_prices.clone(),
            ask_remaining: self.ask_remaining.clone(),
            ask_reverse_quote: self.ask_reverse_quote.clone(),
            bid_prices: self.bid_prices.clone(),
            bid_rev_prices: self.bid_rev_prices.clone(),
            bid_remaining_quote: self.bid_remaining_quote.clone(),
            bid_reverse_base: self.bid_reverse_base.clone(),
        };
        assert(r.ask_prices@ =~= self.ask_prices@);
        assert(r.ask_rev_prices@ =~= self.ask_rev_prices@);
        assert(r.ask_remaining@ =~= self.ask_remaining@);
        assert(r.ask_reverse_quote@ =~= self.ask_reverse_quote@);
        assert(r.bid_prices@ =~= self.bid_prices@);
        assert(r.bid_rev_prices@ =~= self.bid_rev_prices@);
        assert(r.bid_remaining_quote@ =~= self.bid_remaining_quote@);
        assert(r.bid_reverse_base@ =~= self.bid_reverse_base@);
        r
    }
}

/// The protocol's share of a taker fee in basis points: the oneshot rate for a
/// oneshot grid, the ordinary rate otherwise, clamped to the largest share allowed.
pub open spec fn protocol_share_bps(
    protocol_fee_bps: u16,
    oneshot_protocol_fee_bps: u16,
    oneshot: bool,
) -> int {
    let bps = if oneshot {
        oneshot_protocol_fee_bps
    } else {
        protocol_fee_bps
    };
    if bps > MAX_PROTOCOL_FEE_BPS {
        MAX_PROTOCOL_FEE_BPS as int
    } else {
        bps as int
    }
}

/// The protocol's part of `total_fee` at `share_bps`: the product saturates at
/// `u64::MAX` before it is divided, rounding down.
pub open spec fn protocol_part(total_fee: int, share_bps: int) -> int {
    let product = total_fee * share_bps;
    (if product > u64::MAX {
        u64::MAX as int
    } else {
        product
    }) / BPS_DENOMINATOR as int
}

/// Divides a taker fee into the protocol's part and the maker's part.
pub fn split_fee(
    total_fee: u64,
    protocol_fee_bps: u16,
    oneshot_protocol_fee_bps: u16,
    oneshot: bool,
) -> (r: (u64, u64))
    ensures
        r.0 == protocol_part(
            total_fee as int,
            protocol_share_bps(protocol_fee_bps, oneshot_protocol_fee_bps, oneshot),
        ),
        r.0 + r.1 == total_fee,
{
    let bps = if oneshot {
        oneshot_protocol_fee_bps
    } else {
        protocol_fee_bps
    };
    let share: u64 = if bps > MAX_PROTOCOL_FEE_BPS {
        MAX_PROTOCOL_FEE_BPS as u64
    } else {
        bps as u64
    };
    let product: u64 = match total_fee.checked_mul(share) {
        Some(p) => p,
        None => u64::MAX,
    };
    let protocol_fee = product / BPS_DENOMINATOR;
    proof {
        let t = total_fee as int;
        let s = share as int;
        if t * s <= u64::MAX {
            assert(t * s / 10_000 <= t) by (nonlinear_arith)
                requires
                    0 <= s <= 1_000,
                    0 <= t,
            ;
        } else {
            assert(u64::MAX / 10_000 <= t) by (nonlinear_arith)
                requires
                    t * s > u64::MAX,
                    0 <= s <= 1_000,
                    0 <= t,
            ;
        }
    }
    let maker_fee = total_fee - protocol_fee;
    (protocol_fee, maker_fee)
}

} // verus!

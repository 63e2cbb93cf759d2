use vstd::prelude::*;

verus! {

/// Denominator of fixed-point prices: a price of `PRICE_SCALE` is 1.0.
pub const PRICE_SCALE: u64 = 1_000_000_000;

/// Denominator of fee rates given in basis points.
pub const BPS_DENOMINATOR: u64 = 10_000;

/// Largest taker fee rate (and configured protocol fee rate) accepted, in basis points.
pub const MAX_FEE_BPS: u16 = 1_000;

/// Largest share of a taker fee that goes to the protocol, in basis points.
pub const MAX_PROTOCOL_FEE_BPS: u16 = 1_000;

/// Largest number of slots on one side of a grid.
pub const MAX_ORDERS_PER_SIDE: usize = 100;

} // verus!

use vstd::prelude::*;

verus! {

/// How a price ladder steps from one slot to the next.
#[derive(Clone, Copy, Debug)]
pub enum StrategyParam {
    /// Each slot adds `gap` to the previous one: positive on asks, negative on bids.
    Linear { gap: i64 },
    /// Each slot is the previous one times `ratio_x1e9 / 1e9`: above 1.0 on asks,
    /// strictly between 0 and 1.0 on bids.
    Geometry { ratio_x1e9: u64 },
}

/// Request to open a new grid.
#[derive(Clone, Debug)]
pub struct CreateGridParams {
    pub signer_bump: u8,
    pub fee_bps: u16,
    pub compound: bool,
    pub oneshot: bool,
    pub base_amount_per_order: u64,
    pub ask_price0: u64,
    pub ask_count: u8,
    pub ask_strategy: StrategyParam,
    pub bid_price0: u64,
    pub bid_count: u8,
    pub bid_strategy: StrategyParam,
}

/// Request to fill one slot of one grid.
#[derive(Clone, Copy, Debug)]
pub struct FillOrderParams {
    /// Taker side: 0 buys base, 1 sells base.
    pub side: u8,
    /// Book side of the slot: 0 ask, 1 bid.
    pub order_side: u8,
    pub order_index: u8,
    pub base_amount: u64,
}

/// One fill of a batch.
#[derive(Clone, Copy, Debug)]
pub struct FillTarget {
    /// Taker side: 0 buys base, 1 sells base.
    pub side: u8,
    /// Book side of the slot: 0 ask, 1 bid.
    pub order_side: u8,
    pub order_index: u8,
    pub base_amount: u64,
}

/// Request to fill several slots, possibly on several grids, all or nothing.
#[derive(Clone, Debug)]
pub struct FillOrdersParams {
    pub fills: Vec<FillTarget>,
}

/// Request to withdraw what one slot holds.
#[derive(Clone, Copy, Debug)]
pub struct CancelOrderParams {
    /// Book side of the slot: 0 ask, 1 bid.
    pub side: u8,
    pub order_index: u8,
}

/// Every request the ledger serves, as decoded from the wire.
#[derive(Clone, Debug)]
pub enum GridInstruction {
    InitializeConfig { protocol_fee_bps: u16, oneshot_protocol_fee_bps: u16 },
    SetPause { paused: bool },
    SetProtocolFee { protocol_fee_bps: u16 },
    SetOneshotProtocolFee { oneshot_protocol_fee_bps: u16 },
    CreateGrid(CreateGridParams),
    FillOrder(FillOrderParams),
    FillOrders(FillOrdersParams),
    CancelOrder(CancelOrderParams),
    CancelGrid,
    WithdrawProfits { amount: u64 },
    WithdrawProtocolFees { amount: u64 },
}

} // verus!

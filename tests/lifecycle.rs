use gridsol::error::GridError;
use gridsol::instruction::{
    CancelOrderParams, CreateGridParams, FillOrderParams, FillOrdersParams, FillTarget, StrategyParam,
};
use gridsol::processor::{
    cancel_grid, cancel_order, create_grid, fill_order, fill_orders, frame_state, initialize_config,
    set_oneshot_protocol_fee, set_pause, set_protocol_fee, token_transfer_data, withdraw_profits,
    withdraw_protocol_fees,
};
use gridsol::state::{Config, Grid};
use gridsol::transfer::{Asset, Flow, Transfer};

fn config() -> Config {
    initialize_config([9u8; 32], 1_000, 700).expect("config")
}

fn params(compound: bool) -> CreateGridParams {
    CreateGridParams {
        signer_bump: 254,
        fee_bps: 100,
        compound,
        oneshot: false,
        base_amount_per_order: 1_000_000,
        ask_price0: 1_000_000_000,
        ask_count: 2,
        ask_strategy: StrategyParam::Linear { gap: 100_000_000 },
        bid_price0: 1_000_000_000,
        bid_count: 1,
        bid_strategy: StrategyParam::Linear { gap: -100_000_000 },
    }
}

fn new_grid(cfg: &mut Config, p: &CreateGridParams) -> (Grid, Vec<Transfer>) {
    create_grid(cfg, p, [1u8; 32], [2u8; 32], [3u8; 32], [4u8; 32]).expect("create")
}

fn fill(side: u8, order_side: u8, order_index: u8, base_amount: u64) -> FillOrderParams {
    FillOrderParams { side, order_side, order_index, base_amount }
}

fn sum(ts: &[Transfer], asset: Asset, flow: Flow) -> u64 {
    ts.iter().filter(|t| t.asset == asset && t.flow == flow).map(|t| t.amount).sum()
}

#[test]
fn initialize_and_admin_settings() {
    let mut cfg = config();
    assert_eq!(cfg.next_grid_id, 1);
    assert!(!cfg.paused);
    assert_eq!(initialize_config([0u8; 32], 1_001, 0).err(), Some(GridError::InvalidFee));
    assert_eq!(set_protocol_fee(&mut cfg, 1_001), Err(GridError::InvalidFee));
    assert_eq!(cfg.protocol_fee_bps, 1_000);
    assert_eq!(set_protocol_fee(&mut cfg, 250), Ok(()));
    assert_eq!(cfg.protocol_fee_bps, 250);
    assert_eq!(set_oneshot_protocol_fee(&mut cfg, 5_000), Err(GridError::InvalidFee));
    assert_eq!(set_oneshot_protocol_fee(&mut cfg, 300), Ok(()));
    assert_eq!(cfg.oneshot_protocol_fee_bps, 300);
    set_pause(&mut cfg, true);
    assert!(cfg.paused);
}

#[test]
fn create_grid_funds_every_slot() {
    let mut cfg = config();
    let (grid, ts) = new_grid(&mut cfg, &params(false));
    assert_eq!(cfg.next_grid_id, 2);
    assert_eq!(grid.id, 1);
    assert!(grid.is_active());
    assert_eq!(grid.ask_prices, vec![1_000_000_000, 1_100_000_000]);
    assert_eq!(grid.ask_rev_prices, vec![900_000_000, 1_000_000_000]);
    assert_eq!(grid.ask_remaining, vec![1_000_000, 1_000_000]);
    assert_eq!(grid.ask_reverse_quote, vec![0, 0]);
    assert_eq!(grid.bid_prices, vec![1_000_000_000]);
    assert_eq!(grid.bid_rev_prices, vec![1_100_000_000]);
    assert_eq!(grid.bid_remaining_quote, vec![1_000_000]);
    assert_eq!(grid.bid_reverse_base, vec![0]);
    assert_eq!(
        ts,
        vec![
            Transfer { asset: Asset::Base, flow: Flow::IntoVault, amount: 2_000_000 },
            Transfer { asset: Asset::Quote, flow: Flow::IntoVault, amount: 1_000_000 },
        ]
    );
    let (second, _) = new_grid(&mut cfg, &params(false));
    assert_eq!(second.id, 2);
    assert_eq!(cfg.next_grid_id, 3);
}

#[test]
fn scenario_create_linear_ask_ladder() {
    let mut cfg = config();
    let mut p = params(false);
    p.ask_count = 3;
    p.bid_count = 0;
    let (grid, ts) = new_grid(&mut cfg, &p);
    assert_eq!(grid.ask_prices, vec![1_000_000_000, 1_100_000_000, 1_200_000_000]);
    assert_eq!(grid.ask_rev_prices, vec![900_000_000, 1_000_000_000, 1_100_000_000]);
    assert_eq!(ts, vec![Transfer { asset: Asset::Base, flow: Flow::IntoVault, amount: 3_000_000 }]);
}

#[test]
fn create_grid_rejections_leave_config_alone() {
    let mut cfg = config();
    let mut p = params(false);
    p.fee_bps = 1_001;
    assert_eq!(create_grid(&mut cfg, &p, [1u8; 32], [2u8; 32], [3u8; 32], [4u8; 32]).err(), Some(GridError::InvalidFee));
    let mut p = params(false);
    p.base_amount_per_order = 0;
    assert_eq!(create_grid(&mut cfg, &p, [1u8; 32], [2u8; 32], [3u8; 32], [4u8; 32]).err(), Some(GridError::ZeroAmount));
    let mut p = params(false);
    p.ask_count = 0;
    p.bid_count = 0;
    assert_eq!(create_grid(&mut cfg, &p, [1u8; 32], [2u8; 32], [3u8; 32], [4u8; 32]).err(), Some(GridError::InvalidOrderCount));
    let mut p = params(false);
    p.bid_price0 = 1;
    p.bid_count = 1;
    assert_eq!(create_grid(&mut cfg, &p, [1u8; 32], [2u8; 32], [3u8; 32], [4u8; 32]).err(), Some(GridError::InvalidOrderCount));
    let mut p = params(false);
    p.base_amount_per_order = u64::MAX;
    assert_eq!(create_grid(&mut cfg, &p, [1u8; 32], [2u8; 32], [3u8; 32], [4u8; 32]).err(), Some(GridError::MathOverflow));
    set_pause(&mut cfg, true);
    assert_eq!(create_grid(&mut cfg, &params(false), [1u8; 32], [2u8; 32], [3u8; 32], [4u8; 32]).err(), Some(GridError::Paused));
    assert_eq!(cfg.next_grid_id, 1);
}

#[test]
fn oneshot_grid_takes_fee_rate_from_config() {
    let mut cfg = config();
    let mut p = params(false);
    p.oneshot = true;
    let (grid, _) = new_grid(&mut cfg, &p);
    assert_eq!(grid.fee_bps, 700);
    assert!(grid.oneshot);
}

#[test]
fn scenario_fill_forward_sell_caps_reverse_quote() {
    let mut cfg = config();
    let mut p = params(false);
    p.base_amount_per_order = 100;
    p.bid_count = 0;
    let (mut grid, _) = new_grid(&mut cfg, &p);
    let ts = fill_order(&cfg, &mut grid, &fill(0, 0, 0, 100)).expect("fill");
    assert_eq!(grid.ask_remaining[0], 0);
    // quote_gross 100, total fee 1, maker fee 1, cap 100 * 0.9 = 90
    assert_eq!(ts[0], Transfer { asset: Asset::Quote, flow: Flow::IntoVault, amount: 101 });
    assert_eq!(ts[1], Transfer { asset: Asset::Base, flow: Flow::OutOfVault, amount: 100 });
    assert_eq!(grid.ask_reverse_quote[0], 90);
    assert_eq!(grid.profits_quote, 11);
    assert_eq!(grid.protocol_fees_quote, 0);
}

#[test]
fn fill_order_rejections() {
    let mut cfg = config();
    let (mut grid, _) = new_grid(&mut cfg, &params(false));
    assert_eq!(fill_order(&cfg, &mut grid, &fill(0, 0, 0, 0)), Err(GridError::ZeroAmount));
    assert_eq!(fill_order(&cfg, &mut grid, &fill(0, 0, 5, 10)), Err(GridError::InvalidOrderIndex));
    assert_eq!(fill_order(&cfg, &mut grid, &fill(2, 0, 0, 10)), Err(GridError::InvalidInstruction));
    let mut paused = cfg;
    set_pause(&mut paused, true);
    assert_eq!(fill_order(&paused, &mut grid, &fill(0, 0, 0, 10)), Err(GridError::Paused));
    cancel_grid(&mut grid).expect("cancel");
    assert_eq!(fill_order(&cfg, &mut grid, &fill(0, 0, 0, 10)), Err(GridError::GridCanceled));
}

#[test]
fn scenario_cancel_empty_slot_is_rejected_without_change() {
    let mut cfg = config();
    let (mut grid, _) = new_grid(&mut cfg, &params(false));
    grid.ask_remaining[1] = 0;
    let before = grid.duplicate();
    let err = cancel_order(&mut grid, &CancelOrderParams { side: 0, order_index: 1 });
    assert_eq!(err, Err(GridError::InsufficientLiquidity));
    assert_eq!(grid.ask_remaining, before.ask_remaining);
    assert_eq!(grid.ask_reverse_quote, before.ask_reverse_quote);
    assert_eq!(grid.profits_quote, before.profits_quote);
}

#[test]
fn cancel_order_refunds_both_inventories() {
    let mut cfg = config();
    let (mut grid, _) = new_grid(&mut cfg, &params(false));
    fill_order(&cfg, &mut grid, &fill(0, 0, 0, 400_000)).expect("fill");
    let ts = cancel_order(&mut grid, &CancelOrderParams { side: 0, order_index: 0 }).expect("cancel");
    assert_eq!(
        ts,
        vec![
            Transfer { asset: Asset::Base, flow: Flow::OutOfVault, amount: 600_000 },
            Transfer { asset: Asset::Quote, flow: Flow::OutOfVault, amount: 403_600 },
        ]
    );
    assert_eq!(grid.ask_remaining[0], 0);
    assert_eq!(grid.ask_reverse_quote[0], 0);
    let ts = cancel_order(&mut grid, &CancelOrderParams { side: 1, order_index: 0 }).expect("cancel");
    assert_eq!(ts, vec![Transfer { asset: Asset::Quote, flow: Flow::OutOfVault, amount: 1_000_000 }]);
    assert_eq!(cancel_order(&mut grid, &CancelOrderParams { side: 1, order_index: 3 }), Err(GridError::InvalidOrderIndex));
    assert_eq!(cancel_order(&mut grid, &CancelOrderParams { side: 2, order_index: 0 }), Err(GridError::InvalidInstruction));
}

#[test]
fn cancel_grid_refunds_everything_and_is_terminal() {
    let mut cfg = config();
    let (mut grid, _) = new_grid(&mut cfg, &params(false));
    fill_order(&cfg, &mut grid, &fill(0, 0, 0, 1_000_000)).expect("fill");
    let profits = grid.profits_quote;
    let ts = cancel_grid(&mut grid).expect("cancel");
    assert_eq!(ts[0], Transfer { asset: Asset::Base, flow: Flow::OutOfVault, amount: 1_000_000 });
    assert_eq!(ts[1], Transfer { asset: Asset::Quote, flow: Flow::OutOfVault, amount: 900_000 + 1_000_000 + profits });
    assert!(!grid.is_active());
    assert_eq!(grid.profits_quote, 0);
    assert_eq!(grid.ask_remaining, vec![0, 0]);
    assert_eq!(grid.bid_remaining_quote, vec![0]);
    assert_eq!(cancel_grid(&mut grid), Err(GridError::GridCanceled));
}

#[test]
fn withdrawals_clamp_and_reject_nothing() {
    let mut cfg = config();
    let (mut grid, _) = new_grid(&mut cfg, &params(false));
    assert_eq!(withdraw_profits(&mut grid, 0), Err(GridError::NoProfits));
    assert_eq!(withdraw_protocol_fees(&mut grid, 5), Err(GridError::NoProfits));
    grid.profits_quote = 50;
    grid.protocol_fees_quote = 30;
    let ts = withdraw_profits(&mut grid, 20).expect("withdraw");
    assert_eq!(ts, vec![Transfer { asset: Asset::Quote, flow: Flow::OutOfVault, amount: 20 }]);
    assert_eq!(grid.profits_quote, 30);
    let ts = withdraw_profits(&mut grid, 1_000).expect("withdraw");
    assert_eq!(ts[0].amount, 30);
    assert_eq!(grid.profits_quote, 0);
    let ts = withdraw_protocol_fees(&mut grid, 0).expect("withdraw");
    assert_eq!(ts[0].amount, 30);
    assert_eq!(grid.protocol_fees_quote, 0);
}

#[test]
fn batch_fills_apply_in_order_across_grids() {
    let mut cfg = config();
    let mut p = params(false);
    p.ask_count = 1;
    let (g1, _) = new_grid(&mut cfg, &p);
    let (g2, _) = new_grid(&mut cfg, &p);
    let mut grids = vec![g1, g2];
    let fills = FillOrdersParams {
        fills: vec![
            FillTarget { side: 0, order_side: 0, order_index: 0, base_amount: 100_000 },
            FillTarget { side: 0, order_side: 0, order_index: 0, base_amount: 200_000 },
            FillTarget { side: 0, order_side: 0, order_index: 0, base_amount: 50_000 },
        ],
    };
    let out = fill_orders(&cfg, &mut grids, &vec![0, 1, 0], &fills).expect("batch");
    assert_eq!(out.len(), 3);
    assert_eq!(out[1][1], Transfer { asset: Asset::Base, flow: Flow::OutOfVault, amount: 200_000 });
    assert_eq!(grids[0].ask_remaining, vec![850_000]);
    assert_eq!(grids[1].ask_remaining, vec![800_000]);
}

#[test]
fn scenario_batch_with_bad_target_changes_nothing() {
    let mut cfg = config();
    let mut p = params(false);
    p.ask_count = 1;
    let (g1, _) = new_grid(&mut cfg, &p);
    let (g2, _) = new_grid(&mut cfg, &p);
    let mut grids = vec![g1, g2];
    let fills = FillOrdersParams {
        fills: vec![
            FillTarget { side: 0, order_side: 0, order_index: 0, base_amount: 50_000 },
            FillTarget { side: 0, order_side: 0, order_index: 9, base_amount: 50_000 },
        ],
    };
    let err = fill_orders(&cfg, &mut grids, &vec![0, 1], &fills);
    assert_eq!(err, Err(GridError::InvalidOrderIndex));
    assert_eq!(grids[0].ask_remaining, vec![1_000_000]);
    assert_eq!(grids[0].ask_reverse_quote, vec![0]);
    assert_eq!(grids[0].protocol_fees_quote, 0);
    assert_eq!(grids[1].ask_remaining, vec![1_000_000]);
}

#[test]
fn batch_rejections() {
    let mut cfg = config();
    let (g1, _) = new_grid(&mut cfg, &params(false));
    let mut grids = vec![g1];
    let one = FillOrdersParams { fills: vec![FillTarget { side: 0, order_side: 0, order_index: 0, base_amount: 1 }] };
    assert_eq!(fill_orders(&cfg, &mut grids, &vec![], &FillOrdersParams { fills: vec![] }), Err(GridError::InvalidOrderCount));
    assert_eq!(fill_orders(&cfg, &mut grids, &vec![0, 0], &one), Err(GridError::InvalidInstruction));
    assert_eq!(fill_orders(&cfg, &mut grids, &vec![3], &one), Err(GridError::InvalidInstruction));
    let zero = FillOrdersParams { fills: vec![FillTarget { side: 0, order_side: 0, order_index: 0, base_amount: 0 }] };
    assert_eq!(fill_orders(&cfg, &mut grids, &vec![0], &zero), Err(GridError::ZeroAmount));
    let mut paused = cfg;
    set_pause(&mut paused, true);
    assert_eq!(fill_orders(&paused, &mut grids, &vec![0], &one), Err(GridError::Paused));
}

#[test]
fn run_of_calls_never_pays_out_more_than_came_in() {
    let mut cfg = config();
    let (mut grid, funding) = new_grid(&mut cfg, &params(false));
    let mut all: Vec<Transfer> = funding.clone();
    all.extend(fill_order(&cfg, &mut grid, &fill(0, 0, 0, 700_000)).expect("a"));
    all.extend(fill_order(&cfg, &mut grid, &fill(1, 0, 0, 300_000)).expect("b"));
    all.extend(fill_order(&cfg, &mut grid, &fill(1, 1, 0, 500_000)).expect("c"));
    all.extend(fill_order(&cfg, &mut grid, &fill(0, 1, 0, 200_000)).expect("d"));
    all.extend(withdraw_profits(&mut grid, 0).expect("e"));
    for asset in [Asset::Base, Asset::Quote] {
        assert!(sum(&all, asset, Flow::OutOfVault) <= sum(&all, asset, Flow::IntoVault));
    }
    all.extend(cancel_grid(&mut grid).expect("f"));
    if grid.protocol_fees_quote > 0 {
        all.extend(withdraw_protocol_fees(&mut grid, 0).expect("g"));
    }
    for asset in [Asset::Base, Asset::Quote] {
        assert_eq!(sum(&all, asset, Flow::OutOfVault), sum(&all, asset, Flow::IntoVault));
    }
}

#[test]
fn compound_grid_keeps_maker_fee_in_slot() {
    let mut cfg = config();
    let (mut grid, _) = new_grid(&mut cfg, &params(true));
    fill_order(&cfg, &mut grid, &fill(1, 1, 0, 100_000)).expect("fill");
    // quote 100_000, fee 1_000, protocol 100, maker 900 stays in the slot
    assert_eq!(grid.bid_remaining_quote[0], 900_900);
    assert_eq!(grid.bid_reverse_base[0], 100_000);
    assert_eq!(grid.profits_quote, 0);
    assert_eq!(grid.protocol_fees_quote, 100);
}

#[test]
fn frame_state_pads_with_zeros() {
    assert_eq!(frame_state(&vec![1, 2, 3], 5), Ok(vec![1, 2, 3, 0, 0]));
    assert_eq!(frame_state(&vec![1, 2, 3], 3), Ok(vec![1, 2, 3]));
    assert_eq!(frame_state(&vec![1, 2, 3], 2), Err(GridError::AccountDataTooSmall));
}

#[test]
fn token_transfer_data_is_opcode_then_le_amount() {
    assert_eq!(
        token_transfer_data(0x0102_0304_0506_0708),
        vec![3, 8, 7, 6, 5, 4, 3, 2, 1]
    );
    assert_eq!(token_transfer_data(0), vec![3, 0, 0, 0, 0, 0, 0, 0, 0]);
}

#[test]
fn cancel_grid_returns_base_profits_of_oneshot_grid() {
    let mut cfg = config();
    let mut p = params(false);
    p.oneshot = true;
    let (mut grid, _) = new_grid(&mut cfg, &p);
    fill_order(&cfg, &mut grid, &fill(1, 1, 0, 300_000)).expect("fill");
    assert_eq!(grid.bid_reverse_base, vec![0]);
    assert_eq!(grid.profits_base, 300_000);
    let ts = cancel_grid(&mut grid).expect("cancel");
    assert_eq!(ts[0], Transfer { asset: Asset::Base, flow: Flow::OutOfVault, amount: 2_300_000 });
    assert_eq!(grid.profits_base, 0);
}

use gridsol::error::GridError;
use gridsol::instruction::FillTarget;
use gridsol::settlement::{
    apply_ask_bookkeeping, apply_ask_reverse_bookkeeping, apply_bid_bookkeeping,
    apply_bid_reverse_bookkeeping, execute_single_fill, fill_case, settle_fill, FillCase,
};
use gridsol::state::{Config, Grid};
use gridsol::transfer::{Asset, Flow, Transfer};

fn sample_grid(compound: bool) -> Grid {
    Grid {
        owner: [1u8; 32],
        id: 7,
        status: 0,
        base_vault: [2u8; 32],
        quote_vault: [3u8; 32],
        signer: [4u8; 32],
        signer_bump: 200,
        fee_bps: 100,
        compound,
        oneshot: false,
        base_amount_per_order: 100,
        profits_quote: 0,
        profits_base: 0,
        protocol_fees_quote: 0,
        ask_prices: vec![1_000_000_000],
        ask_rev_prices: vec![900_000_000],
        ask_remaining: vec![100],
        ask_reverse_quote: vec![0],
        bid_prices: vec![1_000_000_000],
        bid_rev_prices: vec![1_100_000_000],
        bid_remaining_quote: vec![1000],
        bid_reverse_base: vec![0],
    }
}

fn config(protocol_fee_bps: u16) -> Config {
    Config {
        admin: [9u8; 32],
        paused: false,
        protocol_fee_bps,
        oneshot_protocol_fee_bps: 700,
        next_grid_id: 1,
    }
}

fn target(side: u8, order_side: u8, order_index: u8, base_amount: u64) -> FillTarget {
    FillTarget { side, order_side, order_index, base_amount }
}

#[test]
fn test_apply_ask_bookkeeping_compound_adds_fee_to_reverse() {
    let mut grid = sample_grid(true);
    apply_ask_bookkeeping(&mut grid, 0, 10, 100, 1, 1_000_000_000).expect("ok");

    assert_eq!(grid.ask_remaining[0], 90);
    assert_eq!(grid.ask_reverse_quote[0], 101);
    assert_eq!(grid.profits_quote, 0);
}

#[test]
fn test_apply_ask_bookkeeping_noncompound_caps_and_sends_overflow_to_profit() {
    let mut grid = sample_grid(false);
    // target quote = base_amount_per_order(100) * rev_price(0.9) = 90
    apply_ask_bookkeeping(&mut grid, 0, 10, 100, 5, 900_000_000).expect("ok");

    assert_eq!(grid.ask_reverse_quote[0], 90);
    assert_eq!(grid.profits_quote, 15);
}

#[test]
fn test_apply_bid_bookkeeping_compound_reduces_less_quote() {
    let mut grid = sample_grid(true);
    apply_bid_bookkeeping(&mut grid, 0, 10, 100, 2).expect("ok");

    // compound keeps maker_fee inside order quote liquidity
    assert_eq!(grid.bid_remaining_quote[0], 902);
    assert_eq!(grid.bid_reverse_base[0], 10);
    assert_eq!(grid.profits_quote, 0);
}

#[test]
fn test_apply_bid_bookkeeping_noncompound_puts_fee_into_profit() {
    let mut grid = sample_grid(false);
    apply_bid_bookkeeping(&mut grid, 0, 10, 100, 2).expect("ok");

    assert_eq!(grid.bid_remaining_quote[0], 900);
    assert_eq!(grid.bid_reverse_base[0], 10);
    assert_eq!(grid.profits_quote, 2);
}

#[test]
fn test_apply_bid_reverse_bookkeeping_noncompound_caps_and_profit() {
    let mut grid = sample_grid(false);
    grid.bid_reverse_base[0] = 50;
    grid.bid_remaining_quote[0] = 80;
    apply_bid_reverse_bookkeeping(&mut grid, 0, 10, 100, 5, 1_000_000_000).expect("ok");

    assert_eq!(grid.bid_reverse_base[0], 40);
    assert_eq!(grid.bid_remaining_quote[0], 100);
    assert_eq!(grid.profits_quote, 85);
}

#[test]
fn test_apply_ask_reverse_bookkeeping_compound() {
    let mut grid = sample_grid(true);
    grid.ask_reverse_quote[0] = 300;
    apply_ask_reverse_bookkeeping(&mut grid, 0, 10, 100, 2).expect("ok");

    assert_eq!(grid.ask_reverse_quote[0], 202);
    assert_eq!(grid.ask_remaining[0], 110);
    assert_eq!(grid.profits_quote, 0);
}

#[test]
fn test_apply_ask_bookkeeping_noncompound_all_to_profit_when_already_at_quota() {
    let mut grid = sample_grid(false);
    grid.ask_reverse_quote[0] = 90;
    apply_ask_bookkeeping(&mut grid, 0, 10, 50, 5, 900_000_000).expect("ok");
    assert_eq!(grid.ask_reverse_quote[0], 90);
    assert_eq!(grid.profits_quote, 55);
}

#[test]
fn test_apply_bid_reverse_bookkeeping_compound() {
    let mut grid = sample_grid(true);
    grid.bid_reverse_base[0] = 30;
    grid.bid_remaining_quote[0] = 200;
    apply_bid_reverse_bookkeeping(&mut grid, 0, 10, 100, 3, 1_000_000_000).expect("ok");
    assert_eq!(grid.bid_reverse_base[0], 20);
    assert_eq!(grid.bid_remaining_quote[0], 303);
    assert_eq!(grid.profits_quote, 0);
}

#[test]
fn test_apply_bid_reverse_bookkeeping_underflow_reverse_base() {
    let mut grid = sample_grid(false);
    grid.bid_reverse_base[0] = 5;
    let err = apply_bid_reverse_bookkeeping(&mut grid, 0, 10, 10, 0, 1_000_000_000).expect_err("must fail");
    assert_eq!(err, GridError::MathOverflow);
}

#[test]
fn test_apply_ask_reverse_bookkeeping_noncompound_puts_fee_to_profit() {
    let mut grid = sample_grid(false);
    grid.ask_reverse_quote[0] = 200;
    apply_ask_reverse_bookkeeping(&mut grid, 0, 10, 100, 3).expect("ok");
    assert_eq!(grid.ask_reverse_quote[0], 100);
    assert_eq!(grid.ask_remaining[0], 110);
    assert_eq!(grid.profits_quote, 3);
}

#[test]
fn test_apply_ask_reverse_bookkeeping_underflow_reverse_quote() {
    let mut grid = sample_grid(false);
    grid.ask_reverse_quote[0] = 20;
    let err = apply_ask_reverse_bookkeeping(&mut grid, 0, 10, 100, 0).expect_err("must fail");
    assert_eq!(err, GridError::MathOverflow);
}

#[test]
fn test_apply_bid_bookkeeping_underflow_remaining_quote() {
    let mut grid = sample_grid(false);
    grid.bid_remaining_quote[0] = 20;
    let err = apply_bid_bookkeeping(&mut grid, 0, 10, 100, 0).expect_err("must fail");
    assert_eq!(err, GridError::MathOverflow);
}

#[test]
fn failed_bookkeeping_leaves_grid_untouched() {
    let mut grid = sample_grid(false);
    grid.ask_reverse_quote[0] = u64::MAX;
    let err = apply_ask_bookkeeping(&mut grid, 0, 10, 100, 1, 900_000_000);
    assert_eq!(err, Err(GridError::MathOverflow));
    assert_eq!(grid.ask_remaining[0], 100);
    assert_eq!(grid.ask_reverse_quote[0], u64::MAX);
    assert_eq!(grid.profits_quote, 0);
}

#[test]
fn capped_credit_pulls_an_overfull_slot_back_to_the_cap() {
    let mut grid = sample_grid(false);
    grid.ask_reverse_quote[0] = 95;
    apply_ask_bookkeeping(&mut grid, 0, 10, 10, 0, 900_000_000).expect("ok");
    assert_eq!(grid.ask_reverse_quote[0], 90);
    assert_eq!(grid.profits_quote, 15);
}

#[test]
fn fill_case_dispatch() {
    assert_eq!(fill_case(0, 0), Some(FillCase::ForwardSell));
    assert_eq!(fill_case(0, 1), Some(FillCase::ReverseResale));
    assert_eq!(fill_case(1, 1), Some(FillCase::ForwardBuy));
    assert_eq!(fill_case(1, 0), Some(FillCase::ReverseBuyBack));
    assert_eq!(fill_case(2, 0), None);
    assert_eq!(fill_case(0, 2), None);
}

#[test]
fn scenario_forward_sell_on_fresh_noncompound_grid() {
    let mut grid = sample_grid(false);
    let out = settle_fill(&config(1_000), &mut grid, &target(0, 0, 0, 100)).expect("ok");
    assert_eq!(grid.ask_remaining[0], 0);
    assert_eq!(out.fill_base, 100);
    assert_eq!(out.quote_gross, 100);
    assert_eq!(out.total_fee, 1);
    assert_eq!(out.protocol_fee, 0);
    // maker fee 1; credit 101 capped at 100 * 0.9 = 90
    assert_eq!(grid.ask_reverse_quote[0], 90);
    assert_eq!(grid.profits_quote, 11);
}

#[test]
fn forward_sell_compound_keeps_full_credit() {
    let mut grid = sample_grid(true);
    grid.fee_bps = 1_000;
    let out = settle_fill(&config(1_000), &mut grid, &target(0, 0, 0, 40)).expect("ok");
    assert_eq!(out, gridsol::settlement::FillOutcome { fill_base: 40, quote_gross: 40, total_fee: 4, protocol_fee: 0 });
    assert_eq!(grid.ask_remaining[0], 60);
    assert_eq!(grid.ask_reverse_quote[0], 44);
    assert_eq!(grid.profits_quote, 0);
}

#[test]
fn forward_buy_clamps_to_remaining_quote() {
    let mut grid = sample_grid(false);
    grid.bid_prices[0] = 2_000_000_000;
    grid.bid_remaining_quote[0] = 500;
    let out = settle_fill(&config(1_000), &mut grid, &target(1, 1, 0, 1_000)).expect("ok");
    assert_eq!(out.fill_base, 250);
    assert_eq!(out.quote_gross, 500);
    assert_eq!(out.total_fee, 5);
    assert_eq!(out.protocol_fee, 0);
    assert_eq!(grid.bid_remaining_quote[0], 0);
    assert_eq!(grid.bid_reverse_base[0], 250);
    assert_eq!(grid.profits_quote, 5);
}

#[test]
fn forward_buy_of_dust_is_refused() {
    let mut grid = sample_grid(false);
    grid.bid_prices[0] = 1;
    let err = settle_fill(&config(1_000), &mut grid, &target(1, 1, 0, 5));
    assert_eq!(err, Err(GridError::InsufficientLiquidity));
}

#[test]
fn reverse_resale_trades_at_the_forward_bid_price() {
    let mut grid = sample_grid(false);
    grid.bid_reverse_base[0] = 50;
    grid.bid_remaining_quote[0] = 60;
    let out = settle_fill(&config(1_000), &mut grid, &target(0, 1, 0, 30)).expect("ok");
    assert_eq!(out.fill_base, 30);
    assert_eq!(out.quote_gross, 30);
    assert_eq!(grid.bid_reverse_base[0], 20);
    assert_eq!(grid.bid_remaining_quote[0], 90);
    assert_eq!(grid.profits_quote, 0);
}

#[test]
fn reverse_buy_back_trades_at_the_ask_reverse_price() {
    let mut grid = sample_grid(false);
    grid.ask_remaining[0] = 0;
    grid.ask_reverse_quote[0] = 90;
    let out = settle_fill(&config(1_000), &mut grid, &target(1, 0, 0, 200)).expect("ok");
    assert_eq!(out.fill_base, 100);
    assert_eq!(out.quote_gross, 90);
    assert_eq!(grid.ask_reverse_quote[0], 0);
    assert_eq!(grid.ask_remaining[0], 100);
}

#[test]
fn reverse_fills_refused_on_oneshot_grid() {
    let mut grid = sample_grid(false);
    grid.oneshot = true;
    grid.bid_reverse_base[0] = 10;
    grid.ask_reverse_quote[0] = 10;
    let c = config(1_000);
    assert_eq!(settle_fill(&c, &mut grid, &target(0, 1, 0, 5)), Err(GridError::InvalidInstruction));
    assert_eq!(settle_fill(&c, &mut grid, &target(1, 0, 0, 5)), Err(GridError::InvalidInstruction));
    assert_eq!(settle_fill(&c, &mut grid, &target(3, 0, 0, 5)), Err(GridError::InvalidInstruction));
}

#[test]
fn fill_errors_for_index_and_liquidity() {
    let mut grid = sample_grid(false);
    let c = config(1_000);
    assert_eq!(settle_fill(&c, &mut grid, &target(0, 0, 1, 5)), Err(GridError::InvalidOrderIndex));
    assert_eq!(settle_fill(&c, &mut grid, &target(0, 1, 0, 5)), Err(GridError::InsufficientLiquidity));
    assert_eq!(grid.ask_remaining, vec![100]);
}

#[test]
fn execute_taker_buy_moves_quote_in_and_base_out() {
    let mut grid = sample_grid(false);
    grid.fee_bps = 1_000;
    let ts = execute_single_fill(&config(1_000), &mut grid, &target(0, 0, 0, 50)).expect("ok");
    // quote_gross 50, fee 5, protocol 0 (5 * 1000 / 10000 rounds down)
    assert_eq!(
        ts,
        vec![
            Transfer { asset: Asset::Quote, flow: Flow::IntoVault, amount: 55 },
            Transfer { asset: Asset::Base, flow: Flow::OutOfVault, amount: 50 },
        ]
    );
    assert_eq!(grid.protocol_fees_quote, 0);
}

#[test]
fn execute_taker_sell_pays_quote_net_of_fee() {
    let mut grid = sample_grid(false);
    grid.fee_bps = 1_000;
    let ts = execute_single_fill(&config(1_000), &mut grid, &target(1, 1, 0, 100)).expect("ok");
    assert_eq!(
        ts,
        vec![
            Transfer { asset: Asset::Base, flow: Flow::IntoVault, amount: 100 },
            Transfer { asset: Asset::Quote, flow: Flow::OutOfVault, amount: 90 },
        ]
    );
    assert_eq!(grid.protocol_fees_quote, 1);
    assert_eq!(grid.profits_quote, 9);
    assert_eq!(grid.bid_remaining_quote[0], 900);
}

#[test]
fn execute_refuses_fee_above_gross_and_keeps_grid() {
    let mut grid = sample_grid(false);
    grid.fee_bps = 20_000;
    let err = execute_single_fill(&config(1_000), &mut grid, &target(1, 1, 0, 100));
    assert_eq!(err, Err(GridError::MathOverflow));
    assert_eq!(grid.bid_remaining_quote[0], 1000);
    assert_eq!(grid.bid_reverse_base[0], 0);
}

#[test]
fn oneshot_forward_sell_sends_proceeds_to_profits() {
    let mut grid = sample_grid(false);
    grid.oneshot = true;
    let out = settle_fill(&config(1_000), &mut grid, &target(0, 0, 0, 100)).expect("ok");
    assert_eq!(out.quote_gross, 100);
    assert_eq!(out.total_fee, 1);
    assert_eq!(grid.ask_remaining[0], 0);
    assert_eq!(grid.ask_reverse_quote[0], 0);
    assert_eq!(grid.profits_quote, 101);
}

#[test]
fn oneshot_forward_buy_keeps_base_out_of_reverse_inventory() {
    let mut grid = sample_grid(true);
    grid.oneshot = true;
    let ts = execute_single_fill(&config(1_000), &mut grid, &target(1, 1, 0, 100)).expect("ok");
    assert_eq!(ts[0], Transfer { asset: Asset::Base, flow: Flow::IntoVault, amount: 100 });
    assert_eq!(grid.bid_reverse_base[0], 0);
    assert_eq!(grid.profits_base, 100);
    // compound: the maker fee (1) stays in the slot
    assert_eq!(grid.bid_remaining_quote[0], 901);
}

use riskly::config::RisklyConfig;
use riskly::riskly_error::RisklyError;
use riskly::amounts::{floor_div, weighted_cost};
use riskly::riskly_service::{early_checks, exposure_checks, run_checks, RisklyService};
use riskly::rules::{SIDE_BUY, SIDE_SELL};
use riskly::state::{OpenOrder, Trade, TradingState};

const UNIT: i64 = 1_000_000;

fn sym(name: &str) -> String {
    name.to_string()
}

fn trade(asset: &str, quantity: i64, price: i64, side: i32) -> Trade {
    Trade { asset: sym(asset), quantity, price, side }
}

fn order(asset: &str, quantity: i64, limit_price: i64, side: i32) -> OpenOrder {
    OpenOrder { id: 77, asset: sym(asset), quantity, side, limit_price, status: 0 }
}

fn btc_only() -> RisklyConfig {
    let mut config = RisklyConfig::new(true);
    config.allow(sym("BTC"));
    config
}

#[test]
fn unlimited_allowed_asset_is_always_admitted() {
    let service = RisklyService::new(btc_only());
    assert_eq!(service.evaluate_trade(trade("BTC", 1, 1, SIDE_BUY)), Ok(()));
    assert_eq!(service.evaluate_trade(trade("BTC", i64::MAX, i64::MAX, SIDE_SELL)), Ok(()));
    assert_eq!(service.evaluate_trade(trade("BTC", 5 * UNIT, 30_000 * UNIT, SIDE_BUY)), Ok(()));
}

#[test]
fn oversized_trade_is_refused_and_state_unchanged() {
    let mut config = btc_only();
    config.max_trade_size.put(sym("BTC"), UNIT / 2);
    let mut service = RisklyService::new(config);
    let result = service.add_trade(trade("BTC", UNIT / 2 + 1, UNIT, SIDE_BUY));
    assert_eq!(result.err(), Some(RisklyError::TradeTooLarge(UNIT / 2 + 1, UNIT / 2)));
    assert_eq!(service.get_current_position(&sym("BTC")), 0);
    assert_eq!(service.get_daily_volume(&sym("BTC")), 0);
    assert_eq!(service.evaluate_trade(trade("BTC", UNIT / 2, UNIT, SIDE_BUY)), Ok(()));
}

#[test]
fn evaluate_twice_gives_the_same_answer() {
    let mut config = btc_only();
    config.max_position_per_asset.put(sym("BTC"), 2 * UNIT);
    let service = RisklyService::new(config);
    let first = service.evaluate_trade(trade("BTC", 3 * UNIT, UNIT, SIDE_SELL));
    let second = service.evaluate_trade(trade("BTC", 3 * UNIT, UNIT, SIDE_SELL));
    assert_eq!(first, second);
    assert_eq!(first, Err(RisklyError::ExceedsMaxPosition(-3 * (UNIT as i128), 2 * UNIT, sym("BTC"))));
    let third = service.evaluate_trade(trade("BTC", UNIT, UNIT, SIDE_SELL));
    let fourth = service.evaluate_trade(trade("BTC", UNIT, UNIT, SIDE_SELL));
    assert_eq!(third, Ok(()));
    assert_eq!(third, fourth);
}

#[test]
fn of_two_trades_over_the_cap_exactly_one_goes_through() {
    let mut config = btc_only();
    config.max_position_per_asset.put(sym("BTC"), 2 * UNIT);
    let mut service = RisklyService::new(config);
    assert_eq!(service.evaluate_trade(trade("BTC", 3 * UNIT / 2, UNIT, SIDE_BUY)), Ok(()));
    assert_eq!(service.evaluate_trade(trade("BTC", UNIT, UNIT, SIDE_BUY)), Ok(()));
    assert!(service.add_trade(trade("BTC", UNIT, UNIT, SIDE_BUY)).is_ok());
    let second = service.add_trade(trade("BTC", 3 * UNIT / 2, UNIT, SIDE_BUY));
    assert_eq!(
        second.err(),
        Some(RisklyError::ExceedsMaxPosition(5 * (UNIT as i128) / 2, 2 * UNIT, sym("BTC")))
    );
    assert_eq!(service.get_current_position(&sym("BTC")), UNIT);
}

#[test]
fn position_moves_by_the_signed_quantity() {
    let mut config = btc_only();
    config.allow(sym("ETH"));
    let mut service = RisklyService::new(config);
    assert!(service.add_trade(trade("BTC", 7, 100, SIDE_BUY)).is_ok());
    assert_eq!(service.get_current_position(&sym("BTC")), 7);
    assert!(service.add_trade(trade("BTC", 10, 100, SIDE_SELL)).is_ok());
    assert_eq!(service.get_current_position(&sym("BTC")), -3);
    assert_eq!(service.get_current_position(&sym("ETH")), 0);
    assert_eq!(service.get_daily_volume(&sym("BTC")), 17);
    assert_eq!(service.get_daily_volume(&sym("ETH")), 0);
}

#[test]
fn add_trade_returns_the_snapshot_of_the_new_state() {
    let mut service = RisklyService::new(btc_only());
    let snapshot = service.add_trade(trade("BTC", 7, 100, SIDE_SELL)).ok().unwrap();
    assert_eq!(snapshot.positions.get(&sym("BTC")), Some(-7));
    assert_eq!(snapshot.daily_volume.get(&sym("BTC")), Some(7));
    assert_eq!(snapshot.positions.get(&sym("ETH")), None);
    assert!(snapshot.trading_enabled);
    assert!(service.add_trade(trade("BTC", 1, 100, SIDE_BUY)).is_ok());
    assert_eq!(snapshot.positions.get(&sym("BTC")), Some(-7));
    assert_eq!(service.get_state().positions.get(&sym("BTC")), Some(-6));
}

#[test]
fn reset_clears_every_daily_volume() {
    let mut config = btc_only();
    config.allow(sym("ETH"));
    config.max_daily_volume.put(sym("BTC"), 10);
    let mut service = RisklyService::new(config);
    assert!(service.add_trade(trade("BTC", 6, 100, SIDE_BUY)).is_ok());
    assert!(service.add_trade(trade("ETH", 4, 100, SIDE_SELL)).is_ok());
    assert_eq!(service.get_daily_volume(&sym("BTC")), 6);
    assert_eq!(
        service.add_trade(trade("BTC", 5, 100, SIDE_SELL)).err(),
        Some(RisklyError::ExceedsDailyVolume(11, 10, sym("BTC")))
    );
    service.reset_daily_limits();
    assert_eq!(service.get_daily_volume(&sym("BTC")), 0);
    assert_eq!(service.get_daily_volume(&sym("ETH")), 0);
    assert_eq!(service.get_daily_volume(&sym("DOGE")), 0);
    assert_eq!(service.get_current_position(&sym("BTC")), 6);
    assert!(service.add_trade(trade("BTC", 5, 100, SIDE_SELL)).is_ok());
    assert_eq!(service.get_daily_volume(&sym("BTC")), 5);
}

#[test]
fn scenario_position_cap_of_two() {
    let mut config = btc_only();
    config.max_position_per_asset.put(sym("BTC"), 2 * UNIT);
    let mut service = RisklyService::new(config);
    assert_eq!(service.get_current_position(&sym("BTC")), 0);
    assert!(service.add_trade(trade("BTC", 3 * UNIT / 2, UNIT, SIDE_BUY)).is_ok());
    assert_eq!(service.get_current_position(&sym("BTC")), 1_500_000);
    let refused = service.add_trade(trade("BTC", UNIT, UNIT, SIDE_BUY));
    assert_eq!(
        refused.err(),
        Some(RisklyError::ExceedsMaxPosition(2_500_000, 2_000_000, sym("BTC")))
    );
    assert_eq!(service.get_current_position(&sym("BTC")), 1_500_000);
    assert_eq!(service.get_daily_volume(&sym("BTC")), 1_500_000);
}

#[test]
fn scenario_asset_off_the_whitelist() {
    let service = RisklyService::new(btc_only());
    assert_eq!(
        service.evaluate_trade(trade("ETH", UNIT, UNIT, SIDE_SELL)),
        Err(RisklyError::DisallowedAsset(sym("ETH")))
    );
}

#[test]
fn refused_asset_gets_no_position_and_no_volume() {
    let mut service = RisklyService::new(btc_only());
    assert!(service.add_trade(trade("ETH", UNIT, UNIT, SIDE_BUY)).is_err());
    let state = service.get_state();
    assert_eq!(state.positions.get(&sym("ETH")), None);
    assert_eq!(state.daily_volume.get(&sym("ETH")), None);
    assert_eq!(state.positions.len(), 0);
}

#[test]
fn shut_gate_refuses_before_any_other_check() {
    let mut service = RisklyService::new(RisklyConfig::new(false));
    assert!(!service.is_trading_enabled());
    assert_eq!(
        service.evaluate_trade(trade("ETH", UNIT, UNIT, 9)),
        Err(RisklyError::TradingDisabled)
    );
    assert!(service.disable_trading().is_none());
    let opened = service.enable_trading();
    assert!(opened.is_some());
    assert!(opened.unwrap().trading_enabled);
    assert!(service.is_trading_enabled());
    assert!(service.enable_trading().is_none());
    assert_eq!(
        service.evaluate_trade(trade("ETH", UNIT, UNIT, 9)),
        Err(RisklyError::DisallowedAsset(sym("ETH")))
    );
    let shut = service.disable_trading();
    assert!(shut.is_some());
    assert!(!shut.unwrap().trading_enabled);
    assert!(!service.is_trading_enabled());
}

#[test]
fn checks_run_in_order() {
    let mut config = btc_only();
    config.max_trade_size.put(sym("BTC"), 10);
    config.max_position_per_asset.put(sym("BTC"), 5);
    config.max_daily_volume.put(sym("BTC"), 3);
    let service = RisklyService::new(config);
    // too large comes before an unknown side
    assert_eq!(
        service.evaluate_trade(trade("BTC", 11, 1, 2)),
        Err(RisklyError::TradeTooLarge(11, 10))
    );
    // an unknown side comes before the position cap
    assert_eq!(
        service.evaluate_trade(trade("BTC", 6, 1, 2)),
        Err(RisklyError::InvalidTradeSide(2))
    );
    assert_eq!(
        service.evaluate_trade(trade("BTC", 6, 1, -1)),
        Err(RisklyError::InvalidTradeSide(-1))
    );
    // the position cap comes before the volume cap
    assert_eq!(
        service.evaluate_trade(trade("BTC", 6, 1, SIDE_SELL)),
        Err(RisklyError::ExceedsMaxPosition(-6, 5, sym("BTC")))
    );
    assert_eq!(
        service.evaluate_trade(trade("BTC", 4, 1, SIDE_SELL)),
        Err(RisklyError::ExceedsDailyVolume(4, 3, sym("BTC")))
    );
    // a value at the cap passes
    assert_eq!(service.evaluate_trade(trade("BTC", 3, 1, SIDE_SELL)), Ok(()));
}

#[test]
fn allocation_is_the_floor_of_value_over_portfolio() {
    let mut config = btc_only();
    config.allow(sym("ETH"));
    config.max_allocation_per_asset_pct.put(sym("BTC"), 3);
    let mut service = RisklyService::new(config);
    // no portfolio value yet: the check does not run
    assert!(service.add_trade(trade("BTC", 10, 1_000, SIDE_BUY)).is_ok());
    assert!(service.add_trade(trade("ETH", 20, 1_000, SIDE_BUY)).is_ok());
    assert!(service.update_market_value(sym("BTC"), 2).is_some());
    let state = service.update_market_value(sym("ETH"), 4).unwrap();
    assert_eq!(state.portfolio_value_usd, 10 * 2 + 20 * 4);
    assert_eq!(state.prices.get(&sym("ETH")), Some(4));
    // (10 + 20) * 10 / 100 = 3.0: at the cap, not over it
    assert_eq!(service.evaluate_trade(trade("BTC", 20, 10, SIDE_BUY)), Ok(()));
    // (10 + 20) * 13 / 100 = 3.9: over the cap, reported rounded down
    assert_eq!(
        service.evaluate_trade(trade("BTC", 20, 13, SIDE_BUY)),
        Err(RisklyError::ExceedsMaxAllocation(3, 3, sym("BTC")))
    );
    // 301 / 100 = 3.01: over the cap by less than one unit
    assert_eq!(
        service.evaluate_trade(trade("BTC", 291, 1, SIDE_BUY)),
        Err(RisklyError::ExceedsMaxAllocation(3, 3, sym("BTC")))
    );
    // (10 + 20) * 14 / 100 = 4.2, floor 4
    assert_eq!(
        service.evaluate_trade(trade("BTC", 20, 14, SIDE_BUY)),
        Err(RisklyError::ExceedsMaxAllocation(4, 3, sym("BTC")))
    );
    // a short position has a negative share
    assert_eq!(service.evaluate_trade(trade("BTC", 500, 1_000, SIDE_SELL)), Ok(()));
    // ETH has no cap
    assert_eq!(service.evaluate_trade(trade("ETH", 500, 1_000, SIDE_BUY)), Ok(()));
}

#[test]
fn market_value_that_does_not_fit_leaves_the_state() {
    let mut service = RisklyService::new(btc_only());
    assert!(service.add_trade(trade("BTC", i64::MAX, 1, SIDE_BUY)).is_ok());
    assert!(service.update_market_value(sym("BTC"), 1).is_some());
    assert!(service.update_market_value(sym("BTC"), 2).is_none());
    let state = service.get_state();
    assert_eq!(state.prices.get(&sym("BTC")), Some(1));
    assert_eq!(state.portfolio_value_usd, i64::MAX);
    assert!(service.update_market_value(sym("BTC"), -1).is_none());
    let lowered = service.update_market_value(sym("BTC"), 0).unwrap();
    assert_eq!(lowered.portfolio_value_usd, 0);
    assert_eq!(lowered.pnl_unrealized.get(&sym("BTC")), Some(-i64::MAX));
}

#[test]
fn floor_div_rounds_towards_minus_infinity() {
    assert_eq!(floor_div(7, 2), 3);
    assert_eq!(floor_div(-7, 2), -4);
    assert_eq!(floor_div(-8, 2), -4);
    assert_eq!(floor_div(-1, 5), -1);
    assert_eq!(floor_div(0, 5), 0);
    assert_eq!(floor_div(i128::MIN, 1), i128::MIN);
    assert_eq!(floor_div(i128::MIN, i128::MAX), -2);
    assert_eq!(floor_div(i128::MAX, i128::MAX), 1);
}

#[test]
fn run_checks_counts_the_trade_on_top_of_the_exposure() {
    let mut config = btc_only();
    config.max_position_per_asset.put(sym("BTC"), 10);
    let state = TradingState::new(true);
    assert_eq!(run_checks(&config, &state, 4, &trade("BTC", 6, 1, SIDE_BUY)), Ok(()));
    assert_eq!(
        run_checks(&config, &state, 5, &trade("BTC", 6, 1, SIDE_BUY)),
        Err(RisklyError::ExceedsMaxPosition(11, 10, sym("BTC")))
    );
    assert_eq!(
        run_checks(&config, &state, i64::MIN, &trade("BTC", i64::MAX, 1, SIDE_SELL)),
        Err(RisklyError::ExceedsMaxPosition(i64::MIN as i128 - i64::MAX as i128, 10, sym("BTC")))
    );
}

#[test]
fn can_record_tells_what_the_machine_can_store() {
    let mut service = RisklyService::new(btc_only());
    let big = trade("BTC", i64::MAX, 1, SIDE_BUY);
    assert!(service.can_record(&big));
    assert!(service.add_trade(big).is_ok());
    assert!(!service.can_record(&trade("BTC", 1, 1, SIDE_BUY)));
    assert!(!service.can_record(&trade("BTC", 1, 1, SIDE_SELL)));
    assert!(trade("BTC", 1, 1, 5).is_well_formed());
    assert!(!trade("BTC", 0, 1, SIDE_BUY).is_well_formed());
    assert!(!trade("BTC", 1, 0, SIDE_BUY).is_well_formed());
}

#[test]
fn open_orders_reserve_against_the_position_cap() {
    let mut config = btc_only();
    config.max_position_per_asset.put(sym("BTC"), 10);
    let mut service = RisklyService::new(config);
    assert!(service.add_trade(trade("BTC", 4, 1, SIDE_BUY)).is_ok());
    assert!(service.can_take_order(&order("BTC", 4, 1, SIDE_BUY)));
    assert_eq!(service.add_order(order("BTC", 4, 1, SIDE_BUY)), Ok(0));
    assert_eq!(
        service.add_order(order("BTC", 3, 1, SIDE_BUY)),
        Err(RisklyError::ExceedsMaxPosition(11, 10, sym("BTC")))
    );
    assert_eq!(service.add_order(order("BTC", 2, 1, SIDE_BUY)), Ok(1));
    // a trade is counted on top of the position alone
    assert_eq!(service.evaluate_trade(trade("BTC", 6, 1, SIDE_BUY)), Ok(()));
    assert_eq!(
        service.add_order(order("ETH", 1, 1, SIDE_BUY)),
        Err(RisklyError::DisallowedAsset(sym("ETH")))
    );
    let orders = service.get_open_orders();
    assert_eq!(orders.len(), 2);
    assert_eq!(orders[0].id, 0);
    assert_eq!(orders[0].quantity, 4);
    assert_eq!(orders[1].id, 1);
    assert_eq!(orders[1].asset, "BTC");
    assert_eq!(service.get_current_position(&sym("BTC")), 4);
}

#[test]
fn removing_an_order_twice_fails_the_second_time() {
    let mut service = RisklyService::new(btc_only());
    assert_eq!(service.add_order(order("BTC", 4, 1, SIDE_SELL)), Ok(0));
    assert_eq!(service.add_order(order("BTC", 5, 1, SIDE_SELL)), Ok(1));
    assert_eq!(service.remove_order(9), Err(RisklyError::OrderNotFound(9)));
    assert_eq!(service.remove_order(0), Ok(()));
    assert_eq!(service.remove_order(0), Err(RisklyError::OrderNotFound(0)));
    let orders = service.get_open_orders();
    assert_eq!(orders.len(), 1);
    assert_eq!(orders[0].id, 1);
    assert_eq!(service.add_order(order("BTC", 6, 1, SIDE_BUY)), Ok(2));
}

#[test]
fn messages_name_the_values() {
    assert_eq!(
        RisklyError::DisallowedAsset(sym("ETH")).message(),
        "Asset 'ETH' is not allowed for trading."
    );
    assert_eq!(RisklyError::TradeTooLarge(7, 5).message(), "Trade too large: 7 > max 5");
    assert_eq!(
        RisklyError::ExceedsMaxPosition(-25, 20, sym("BTC")).message(),
        "Exceeds max position: Projected position -25 exceeds max 20 for BTC"
    );
    assert_eq!(
        RisklyError::ExceedsDailyVolume(11, 10, sym("BTC")).message(),
        "Exceeds daily volume: Daily volume 11 > max 10 for BTC"
    );
    assert_eq!(
        RisklyError::ExceedsMaxAllocation(4, 3, sym("BTC")).message(),
        "Exceeds max allocation: Allocation 4 > max 3 for BTC"
    );
    assert_eq!(RisklyError::InvalidTradeSide(2).message(), "Unknown trade side: 2");
    assert_eq!(RisklyError::OrderNotFound(12).message(), "Order 12 not found.");
    assert_eq!(RisklyError::TradingDisabled.message(), "Trading is disabled.");
}

#[test]
fn average_cost_follows_the_position() {
    let mut service = RisklyService::new(btc_only());
    let cost = |state: TradingState| state.cost_basis.get(&sym("BTC"));
    assert_eq!(cost(service.get_state()), None);
    // opened: the price
    assert_eq!(cost(service.add_trade(trade("BTC", 10, 100, SIDE_BUY)).ok().unwrap()), Some(100));
    // grown: the weighted average
    assert_eq!(cost(service.add_trade(trade("BTC", 10, 200, SIDE_BUY)).ok().unwrap()), Some(150));
    // (20 * 150 + 1 * 151) / 21 = 150.04..., rounded down
    assert_eq!(cost(service.add_trade(trade("BTC", 1, 151, SIDE_BUY)).ok().unwrap()), Some(150));
    // shrunk: unchanged
    assert_eq!(cost(service.add_trade(trade("BTC", 16, 900, SIDE_SELL)).ok().unwrap()), Some(150));
    assert_eq!(service.get_current_position(&sym("BTC")), 5);
    // changed sides: the price
    assert_eq!(cost(service.add_trade(trade("BTC", 8, 300, SIDE_SELL)).ok().unwrap()), Some(300));
    assert_eq!(service.get_current_position(&sym("BTC")), -3);
    // a short position that grows
    assert_eq!(cost(service.add_trade(trade("BTC", 1, 100, SIDE_SELL)).ok().unwrap()), Some(250));
    // closed: nothing
    assert_eq!(cost(service.add_trade(trade("BTC", 4, 500, SIDE_BUY)).ok().unwrap()), Some(0));
    assert_eq!(service.get_current_position(&sym("BTC")), 0);
}

#[test]
fn unrealized_profit_is_margin_times_position() {
    let mut service = RisklyService::new(btc_only());
    assert!(service.add_trade(trade("BTC", 10, 100, SIDE_BUY)).is_ok());
    assert!(service.add_trade(trade("BTC", 10, 200, SIDE_BUY)).is_ok());
    let long = service.update_market_value(sym("BTC"), 170).unwrap();
    assert_eq!(long.pnl_unrealized.get(&sym("BTC")), Some((170 - 150) * 20));
    assert_eq!(long.portfolio_value_usd, 20 * 170);
    let lower = service.update_market_value(sym("BTC"), 120).unwrap();
    assert_eq!(lower.pnl_unrealized.get(&sym("BTC")), Some(-600));
    assert!(service.add_trade(trade("BTC", 23, 300, SIDE_SELL)).is_ok());
    let short = service.update_market_value(sym("BTC"), 250).unwrap();
    assert_eq!(short.pnl_unrealized.get(&sym("BTC")), Some((250 - 300) * -3));
    assert_eq!(short.portfolio_value_usd, -3 * 250);
    // an asset without a position
    let none = service.update_market_value(sym("ETH"), 9).unwrap();
    assert_eq!(none.pnl_unrealized.get(&sym("ETH")), Some(0));
    assert_eq!(none.portfolio_value_usd, -3 * 250);
    assert_eq!(none.pnl_realized, 0);
}

#[test]
fn unrealized_profit_that_does_not_fit_leaves_the_state() {
    let mut service = RisklyService::new(btc_only());
    assert!(service.add_trade(trade("BTC", i64::MAX, 1, SIDE_BUY)).is_ok());
    assert!(service.update_market_value(sym("BTC"), 3).is_none());
    let state = service.get_state();
    assert_eq!(state.prices.get(&sym("BTC")), None);
    assert_eq!(state.pnl_unrealized.get(&sym("BTC")), None);
    assert_eq!(state.portfolio_value_usd, 0);
}

#[test]
fn weighted_cost_rounds_down() {
    assert_eq!(weighted_cost(10, 100, 10, 200), 150);
    assert_eq!(weighted_cost(20, 150, 1, 151), 150);
    assert_eq!(weighted_cost(1, 0, 2, 1), 0);
    assert_eq!(weighted_cost(1, 1, 2, 2), 1);
    assert_eq!(weighted_cost(1 << 63, i64::MAX, i64::MAX, i64::MAX), i64::MAX);
}

#[test]
fn amounts_with_six_decimal_places() {
    let mut config = btc_only();
    config.allow(sym("ETH"));
    config.scale = UNIT;
    config.max_allocation_per_asset_pct.put(sym("BTC"), UNIT / 2);
    let mut service = RisklyService::new(config);
    // 2.0 BTC at 30000.0, 10.0 ETH at 4000.0
    assert!(service.add_trade(trade("BTC", 2 * UNIT, 30_000 * UNIT, SIDE_BUY)).is_ok());
    assert!(service.add_trade(trade("ETH", 10 * UNIT, 4_000 * UNIT, SIDE_BUY)).is_ok());
    assert!(service.update_market_value(sym("BTC"), 30_000 * UNIT).is_some());
    let state = service.update_market_value(sym("ETH"), 4_500 * UNIT).unwrap();
    // 60000.0 + 45000.0
    assert_eq!(state.portfolio_value_usd, 105_000 * UNIT);
    // (4500.0 - 4000.0) * 10.0
    assert_eq!(state.pnl_unrealized.get(&sym("ETH")), Some(5_000 * UNIT));
    // 2.5 BTC at 21000.0 is 52500.0, exactly half of the portfolio
    assert_eq!(service.evaluate_trade(trade("BTC", UNIT / 2, 21_000 * UNIT, SIDE_BUY)), Ok(()));
    // 3.0 BTC at 30000.0 is 90000.0 of 105000.0: 0.857142...
    assert_eq!(
        service.evaluate_trade(trade("BTC", UNIT, 30_000 * UNIT, SIDE_BUY)),
        Err(RisklyError::ExceedsMaxAllocation(857_142, 500_000, sym("BTC")))
    );
    // 0.000001 BTC at 0.5 is worth less than one unit
    let mut small = btc_only();
    small.scale = UNIT;
    let mut dust = RisklyService::new(small);
    assert!(dust.add_trade(trade("BTC", 1, UNIT / 2, SIDE_SELL)).is_ok());
    let valued = dust.update_market_value(sym("BTC"), UNIT / 2).unwrap();
    assert_eq!(valued.portfolio_value_usd, -1);
    assert_eq!(valued.pnl_unrealized.get(&sym("BTC")), Some(0));
}

#[test]
fn early_checks_read_no_position() {
    let mut config = btc_only();
    config.max_trade_size.put(sym("BTC"), 10);
    config.max_position_per_asset.put(sym("BTC"), 5);
    let state = TradingState::new(true);
    assert_eq!(early_checks(&config, &state, &trade("BTC", 8, 1, SIDE_BUY)), Ok(()));
    assert_eq!(
        early_checks(&config, &state, &trade("BTC", 11, 1, SIDE_BUY)),
        Err(RisklyError::TradeTooLarge(11, 10))
    );
    assert_eq!(
        early_checks(&config, &state, &trade("ETH", 1, 1, 7)),
        Err(RisklyError::DisallowedAsset(sym("ETH")))
    );
    assert_eq!(
        early_checks(&config, &state, &trade("BTC", 1, 1, 7)),
        Err(RisklyError::InvalidTradeSide(7))
    );
    assert_eq!(
        early_checks(&config, &TradingState::new(false), &trade("BTC", 1, 1, SIDE_BUY)),
        Err(RisklyError::TradingDisabled)
    );
    assert_eq!(
        exposure_checks(&config, &state, 0, &trade("BTC", 8, 1, SIDE_BUY)),
        Err(RisklyError::ExceedsMaxPosition(8, 5, sym("BTC")))
    );
    assert_eq!(exposure_checks(&config, &state, -3, &trade("BTC", 8, 1, SIDE_BUY)), Ok(()));
}

#[test]
fn refused_requests_may_always_be_made() {
    let mut config = btc_only();
    config.max_trade_size.put(sym("BTC"), 10);
    let mut service = RisklyService::new(config);
    assert!(service.add_trade(trade("BTC", 10, 1, SIDE_BUY)).is_ok());
    // a refused trade needs no room
    assert!(service.can_record(&trade("ETH", i64::MAX, 1, SIDE_BUY)));
    assert!(service.can_record(&trade("BTC", i64::MAX, 1, SIDE_BUY)));
    assert_eq!(
        service.add_trade(trade("BTC", i64::MAX, 1, SIDE_BUY)).err(),
        Some(RisklyError::TradeTooLarge(i64::MAX, 10))
    );
    // nor does a refused order
    assert!(service.can_take_order(&order("ETH", 1, 1, SIDE_BUY)));
    assert!(service.can_take_order(&order("BTC", 5, 1, SIDE_BUY)));
    assert_eq!(
        service.add_order(order("BTC", 11, 1, SIDE_BUY)),
        Err(RisklyError::TradeTooLarge(11, 10))
    );
}

#[test]
fn holdings_keep_the_order_of_first_trades() {
    let mut config = btc_only();
    config.allow(sym("ETH"));
    let mut service = RisklyService::new(config);
    assert_eq!(service.get_state().positions.len(), 0);
    assert!(service.add_trade(trade("BTC", 10, 1, SIDE_BUY)).is_ok());
    assert!(service.add_trade(trade("ETH", 20, 1, SIDE_BUY)).is_ok());
    let state = service.add_trade(trade("BTC", 4, 1, SIDE_SELL)).ok().unwrap();
    assert_eq!(state.positions.len(), 2);
    assert_eq!(state.positions.asset_at(0), "BTC");
    assert_eq!(state.positions.amount_at(0), 6);
    assert_eq!(state.positions.asset_at(1), "ETH");
    assert_eq!(state.positions.amount_at(1), 20);
    assert!(service.add_trade(trade("DOGE", 1, 1, SIDE_BUY)).is_err());
    assert_eq!(service.get_state().positions.len(), 2);
}

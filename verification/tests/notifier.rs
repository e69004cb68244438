use riskly::config::RisklyConfig;
use riskly::notifier::StateNotifier;
use riskly::riskly_service::RisklyService;
use riskly::rules::SIDE_BUY;
use riskly::state::Trade;

fn sym(name: &str) -> String {
    name.to_string()
}

fn buy(asset: &str, quantity: i64) -> Trade {
    Trade { asset: sym(asset), quantity, price: 1, side: SIDE_BUY }
}

fn engine() -> RisklyService {
    let mut config = RisklyConfig::new(true);
    config.allow(sym("BTC"));
    config.max_position_per_asset.put(sym("BTC"), 10);
    RisklyService::new(config)
}

#[test]
fn scenario_stream_yields_current_then_each_change() {
    let mut service = engine();
    let mut notifier = StateNotifier::new(service.get_state());
    let mut observer = notifier.subscribe();

    // the current snapshot comes at once
    let first = observer.next().unwrap();
    assert_eq!(first.positions.get(&sym("BTC")), None);
    assert!(observer.next().is_none());

    // a successful trade is published
    let snapshot = service.add_trade(buy("BTC", 4)).ok().unwrap();
    notifier.publish(snapshot);
    let second = observer.next().unwrap();
    assert_eq!(second.positions.get(&sym("BTC")), Some(4));
    assert!(observer.next().is_none());

    // a refused trade and a refused evaluation publish nothing
    assert!(service.evaluate_trade(buy("ETH", 1)).is_err());
    match service.add_trade(buy("BTC", 7)) {
        Ok(snapshot) => notifier.publish(snapshot),
        Err(_) => {}
    }
    assert!(observer.next().is_none());
    assert_eq!(notifier.latest().positions.get(&sym("BTC")), Some(4));
}

#[test]
fn slow_observer_sees_the_newest_snapshot_only() {
    let mut service = engine();
    let mut notifier = StateNotifier::new(service.get_state());
    let mut early = notifier.subscribe();
    assert!(early.next().is_some());
    notifier.publish(service.add_trade(buy("BTC", 1)).ok().unwrap());
    notifier.publish(service.add_trade(buy("BTC", 2)).ok().unwrap());
    notifier.publish(service.add_trade(buy("BTC", 3)).ok().unwrap());
    let seen = early.next().unwrap();
    assert_eq!(seen.positions.get(&sym("BTC")), Some(6));
    assert!(early.next().is_none());

    let mut late = notifier.subscribe();
    assert_eq!(late.next().unwrap().positions.get(&sym("BTC")), Some(6));
    assert!(late.next().is_none());
    assert_eq!(notifier.latest().daily_volume.get(&sym("BTC")), Some(6));
}

#[test]
fn publishing_without_observers_succeeds() {
    let mut service = engine();
    let mut notifier = StateNotifier::new(service.get_state());
    {
        let mut gone = notifier.subscribe();
        assert!(gone.next().is_some());
    }
    notifier.publish(service.add_trade(buy("BTC", 5)).ok().unwrap());
    assert_eq!(notifier.latest().positions.get(&sym("BTC")), Some(5));
    let shut = service.disable_trading().unwrap();
    notifier.publish(shut);
    assert!(!notifier.latest().trading_enabled);
}

#[test]
fn first_yield_is_the_snapshot_from_subscription() {
    let mut service = engine();
    let mut notifier = StateNotifier::new(service.get_state());
    notifier.publish(service.add_trade(buy("BTC", 2)).ok().unwrap());
    let mut observer = notifier.subscribe();
    notifier.publish(service.add_trade(buy("BTC", 3)).ok().unwrap());
    let first = observer.next().unwrap();
    assert_eq!(first.positions.get(&sym("BTC")), Some(2));
    let second = observer.next().unwrap();
    assert_eq!(second.positions.get(&sym("BTC")), Some(5));
    assert!(observer.next().is_none());
}

#[test]
fn reading_end_of_a_fresh_handle_wakes_at_once() {
    let mut service = engine();
    let mut notifier = StateNotifier::new(service.get_state());
    notifier.publish(service.add_trade(buy("BTC", 2)).ok().unwrap());

    let mut fresh = notifier.subscribe().into_receiver();
    assert_eq!(fresh.has_changed().ok(), Some(true));
    assert_eq!(fresh.borrow_and_update().positions.get(&sym("BTC")), Some(2));
    assert_eq!(fresh.has_changed().ok(), Some(false));

    let mut used = notifier.subscribe();
    assert!(used.next().is_some());
    let mut rest = used.into_receiver();
    assert_eq!(rest.has_changed().ok(), Some(false));
    notifier.publish(service.add_trade(buy("BTC", 1)).ok().unwrap());
    assert_eq!(rest.has_changed().ok(), Some(true));
    assert_eq!(rest.borrow_and_update().positions.get(&sym("BTC")), Some(3));
}

#[test]
fn handle_outlives_the_notifier_for_its_first_yield() {
    let service = engine();
    let notifier = StateNotifier::new(service.get_state());
    let mut observer = notifier.subscribe();
    drop(notifier);
    let first = observer.next().unwrap();
    assert!(first.trading_enabled);
    assert!(observer.next().is_none());
}

#[test]
fn last_snapshot_is_yielded_after_the_notifier_is_gone() {
    let mut service = engine();
    let mut notifier = StateNotifier::new(service.get_state());
    let mut observer = notifier.subscribe();
    assert!(observer.next().is_some());
    notifier.publish(service.add_trade(buy("BTC", 4)).ok().unwrap());
    drop(notifier);
    let last = observer.next().unwrap();
    assert_eq!(last.positions.get(&sym("BTC")), Some(4));
    assert!(observer.next().is_none());
}

#[test]
fn clone_of_a_state_keeps_every_table() {
    let mut service = engine();
    let state = service.add_trade(buy("BTC", 4)).ok().unwrap();
    let copy = state.clone();
    assert_eq!(copy.positions.get(&sym("BTC")), Some(4));
    assert_eq!(copy.daily_volume.get(&sym("BTC")), Some(4));
    assert_eq!(copy.cost_basis.get(&sym("BTC")), Some(1));
    assert_eq!(copy.trading_enabled, state.trading_enabled);
    assert_eq!(copy.open_orders.len(), 0);
}

use tux::decimal::Decimal;
use tux::domain::{
    Balance, Instrument, InstrumentId, OrderIntent, OrderSide, OrderType, PositionSide, ReduceOnly,
    RiskDecision, RiskLimitConfig, TimeInForce,
};
use tux::exchange::ratelimit::{backoff_ms, RateLimiter};
use tux::ids::{AccountId, ClientOrderId, IntentId, StrategyInstanceId, Venue};
use tux::portfolio::Portfolio;
use tux::risk::RiskEngine;

fn d(s: &str) -> Decimal {
    Decimal::parse(s).unwrap()
}

fn sol() -> Instrument {
    Instrument::spot("SOL-USDT", Venue::LocalPaper, "SOL", "USDT", d("0.01"), d("0.001"))
}

fn order(side: OrderSide, px: Option<&str>, qty: &str) -> OrderIntent {
    OrderIntent {
        id: IntentId::from("i"),
        strategy_instance_id: StrategyInstanceId::from("s1"),
        account_id: AccountId::from("a1"),
        instrument_id: InstrumentId::new("SOL-USDT"),
        side,
        order_type: if px.is_some() { OrderType::Limit } else { OrderType::Market },
        time_in_force: TimeInForce::Gtc,
        price: px.map(d),
        quantity: d(qty),
        reduce_only: ReduceOnly::No,
        position_side: PositionSide::Both,
        leverage: None,
        client_order_id: ClientOrderId::from("c"),
        reason: None,
        created_at: 0,
    }
}

fn open_limits() -> RiskLimitConfig {
    RiskLimitConfig {
        instrument_whitelist: vec![InstrumentId::new("SOL-USDT")],
        max_order_notional: None,
        max_strategy_notional: None,
        max_account_notional: None,
        max_net_exposure: None,
        max_leverage: None,
        max_active_orders: None,
        max_order_rate_per_min: None,
        max_price_deviation: None,
        max_market_age_ms: None,
        max_daily_loss: None,
        max_drawdown: None,
        consecutive_reject_limit: None,
        pause_on_disconnect: false,
    }
}

fn check(e: &mut RiskEngine, i: &OrderIntent, mid: Option<&str>) -> (String, String) {
    match e.check_intent(i, &sol(), mid.map(d), Some(10), &Portfolio::new()) {
        RiskDecision::Approved => ("approved".to_string(), String::new()),
        RiskDecision::Rejected { rule, message } => (rule, message),
    }
}

fn rejected(limits: RiskLimitConfig, i: &OrderIntent, mid: Option<&str>) -> (String, String) {
    check(&mut RiskEngine::new(limits), i, mid)
}

fn pair(rule: &str, message: &str) -> (String, String) {
    (rule.to_string(), message.to_string())
}

#[test]
fn open_limits_approve_an_order() {
    let mut e = RiskEngine::new(open_limits());
    assert_eq!(check(&mut e, &order(OrderSide::Buy, Some("100"), "1"), None).0, "approved");
    assert_eq!(check(&mut e, &order(OrderSide::Sell, None, "1"), Some("100")).0, "approved");
}

#[test]
fn the_kill_switch_stops_all() {
    let mut e = RiskEngine::new(open_limits());
    e.kill_switch.engage("manual");
    assert!(e.is_halted());
    let i = order(OrderSide::Buy, Some("100"), "1");
    assert_eq!(check(&mut e, &i, None), pair("kill_switch", "manual"));
    e.kill_switch.release();
    assert!(!e.is_halted());
    assert_eq!(check(&mut e, &i, None).0, "approved");
    e.kill_switch.engaged = true;
    e.kill_switch.reason = None;
    assert_eq!(check(&mut e, &i, None), pair("kill_switch", "engaged"));
}

#[test]
fn a_new_process_does_not_trade() {
    let mut e = RiskEngine::new_safe_default();
    assert!(e.is_halted());
    let i = order(OrderSide::Buy, Some("100"), "1");
    assert_eq!(check(&mut e, &i, None), pair("kill_switch", "startup safe-default"));
}

#[test]
fn a_safe_default_trades_once_it_is_released() {
    let mut e = RiskEngine::new_safe_default();
    e.limits.instrument_whitelist = vec![InstrumentId::new("SOL-USDT")];
    let i = order(OrderSide::Buy, Some("100"), "1");
    let at = Some(d("100"));
    let r = e.check_intent(&i, &sol(), at, Some(1), &Portfolio::new());
    assert!(matches!(
        r,
        RiskDecision::Rejected { rule, message }
            if rule == "kill_switch" && message == "startup safe-default"
    ));
    e.kill_switch.release();
    let r = e.check_intent(&i, &sol(), at, Some(1), &Portfolio::new());
    assert!(r.is_approved());
}

#[test]
fn a_lost_feed_pauses() {
    let mut l = open_limits();
    l.pause_on_disconnect = true;
    let mut e = RiskEngine::new(l);
    let i = order(OrderSide::Buy, Some("100"), "1");
    e.set_feeds_connected(false);
    assert_eq!(
        check(&mut e, &i, None),
        pair("feeds_down", "market/account feed disconnected")
    );
    e.set_feeds_connected(true);
    assert_eq!(check(&mut e, &i, None).0, "approved");
}

#[test]
fn a_daily_loss_stops() {
    let mut l = open_limits();
    l.max_daily_loss = Some(d("50"));
    let mut e = RiskEngine::new(l);
    let i = order(OrderSide::Buy, Some("100"), "1");
    e.update_pnl_facts(d("0"), d("-50"));
    assert_eq!(check(&mut e, &i, None).0, "approved");
    e.update_pnl_facts(d("0"), d("-50.5"));
    assert_eq!(
        check(&mut e, &i, None),
        pair("max_daily_loss", "daily loss -50.5 exceeds 50")
    );
}

#[test]
fn a_drawdown_stops() {
    let mut l = open_limits();
    l.max_drawdown = Some(d("0.2"));
    let mut e = RiskEngine::new(l);
    e.update_pnl_facts(d("1000"), d("0"));
    e.update_pnl_facts(d("10"), d("0"));
    let mut p = Portfolio::new();
    p.seed_balance(Balance {
        account_id: AccountId::from("a1"),
        asset: "USDT".to_string(),
        free: d("400"),
        locked: d("50"),
        updated_at: 0,
    });
    p.seed_balance(Balance {
        account_id: AccountId::from("a1"),
        asset: "SOL".to_string(),
        free: d("3"),
        locked: d("0"),
        updated_at: 0,
    });
    let i = order(OrderSide::Buy, Some("100"), "1");
    // 450 + 3*100 = 750: a quarter lost
    match e.check_intent(&i, &sol(), Some(d("100")), Some(1), &p) {
        RiskDecision::Rejected { rule, message } => {
            assert_eq!(rule, "max_drawdown");
            assert_eq!(message, "drawdown 0.25 exceeds 0.2");
        }
        other => panic!("{other:?}"),
    }
    // 450 + 3*150 = 900: a tenth lost
    assert!(e.check_intent(&i, &sol(), Some(d("150")), Some(1), &p).is_approved());
}

#[test]
fn only_listed_instruments_trade() {
    let mut l = open_limits();
    l.instrument_whitelist = vec![InstrumentId::new("BTC-USDT")];
    assert_eq!(
        rejected(l, &order(OrderSide::Buy, Some("100"), "1"), None),
        pair("instrument_whitelist", "SOL-USDT not in whitelist")
    );
    let mut none = open_limits();
    none.instrument_whitelist = vec![];
    assert_eq!(
        rejected(none, &order(OrderSide::Buy, Some("100"), "1"), None),
        pair("instrument_whitelist", "whitelist empty = deny all")
    );
}

#[test]
fn orders_stay_on_the_grid() {
    assert_eq!(
        rejected(open_limits(), &order(OrderSide::Buy, Some("100.001"), "1"), None),
        pair("price_filter", "price violates tick size")
    );
    assert_eq!(
        rejected(open_limits(), &order(OrderSide::Buy, Some("100"), "0.0001"), None),
        pair("lot_size", "quantity violates step/min/max")
    );
}

#[test]
fn a_market_order_needs_a_reference() {
    assert_eq!(
        rejected(open_limits(), &order(OrderSide::Buy, None, "1"), None),
        pair(
            "missing_reference_price",
            "market order without market reference price; notional unknown"
        )
    );
    // a price on a market order is no reference
    let mut priced = order(OrderSide::Buy, Some("1"), "1");
    priced.order_type = OrderType::Market;
    assert_eq!(rejected(open_limits(), &priced, None).0, "missing_reference_price");
    let mut l = open_limits();
    l.max_order_notional = Some(d("50"));
    assert_eq!(rejected(l, &priced, Some("100")).0, "max_order_notional");
}

#[test]
fn small_orders_are_refused() {
    let mut inst = sol();
    inst.min_notional = Some(d("10"));
    let mut e = RiskEngine::new(open_limits());
    let small = order(OrderSide::Buy, Some("9"), "1");
    match e.check_intent(&small, &inst, None, None, &Portfolio::new()) {
        RiskDecision::Rejected { rule, message } => {
            assert_eq!(rule, "min_notional");
            assert_eq!(message, "below min notional");
        }
        other => panic!("{other:?}"),
    }
}

#[test]
fn notional_caps_hold() {
    let mut l = open_limits();
    l.max_order_notional = Some(d("50"));
    assert_eq!(
        rejected(l, &order(OrderSide::Buy, Some("100"), "1"), None),
        pair("max_order_notional", "order notional 100 exceeds 50")
    );
    let mut l = open_limits();
    l.max_strategy_notional = Some(d("150"));
    let mut e = RiskEngine::new(l);
    let i = order(OrderSide::Buy, Some("100"), "1");
    assert_eq!(check(&mut e, &i, None).0, "approved");
    assert_eq!(
        check(&mut e, &i, None),
        pair("max_strategy_notional", "strategy open+new 100+100 exceeds 150")
    );
    e.note_order_terminal(&StrategyInstanceId::from("s1"), &AccountId::from("a1"), d("100"));
    assert_eq!(check(&mut e, &i, None).0, "approved");
    let mut l = open_limits();
    l.max_account_notional = Some(d("150"));
    let mut e = RiskEngine::new(l);
    e.note_order_restored(&StrategyInstanceId::from("s2"), &AccountId::from("a1"), d("60"));
    assert_eq!(
        check(&mut e, &i, None),
        pair("max_account_notional", "account open+new 60+100 exceeds 150")
    );
}

#[test]
fn net_exposure_is_signed() {
    let mut l = open_limits();
    l.max_net_exposure = Some(d("150"));
    let mut p = Portfolio::new();
    p.seed_balance(Balance {
        account_id: AccountId::from("a1"),
        asset: "SOL".to_string(),
        free: d("1"),
        locked: d("0"),
        updated_at: 0,
    });
    let mut e = RiskEngine::new(l);
    let buy = order(OrderSide::Buy, Some("100"), "1");
    match e.check_intent(&buy, &sol(), Some(d("100")), Some(1), &p) {
        RiskDecision::Rejected { rule, message } => {
            assert_eq!(rule, "max_net_exposure");
            assert_eq!(message, "projected net exposure 200 exceeds 150");
        }
        other => panic!("{other:?}"),
    }
    let sell = order(OrderSide::Sell, Some("100"), "1");
    assert!(e.check_intent(&sell, &sol(), Some(d("100")), Some(1), &p).is_approved());
    // without a reference the order's own price marks
    assert!(!e.check_intent(&buy, &sol(), None, Some(1), &p).is_approved());
}

#[test]
fn leverage_and_counts_are_capped() {
    let mut l = open_limits();
    l.max_leverage = Some(d("3"));
    let mut i = order(OrderSide::Buy, Some("100"), "1");
    i.leverage = Some(d("5"));
    assert_eq!(rejected(l, &i, None), pair("max_leverage", "leverage 5 exceeds 3"));
    let mut l = open_limits();
    l.max_active_orders = Some(1);
    let mut e = RiskEngine::new(l);
    let i = order(OrderSide::Buy, Some("100"), "1");
    assert_eq!(check(&mut e, &i, None).0, "approved");
    assert_eq!(
        check(&mut e, &i, None),
        pair("max_active_orders", "1 active orders >= 1")
    );
}

#[test]
fn the_order_rate_is_bounded_over_any_minute() {
    let mut l = open_limits();
    l.max_order_rate_per_min = Some(2);
    let mut e = RiskEngine::new(l);
    let i = order(OrderSide::Buy, Some("100"), "1");
    let p = Portfolio::new();
    let mut at = |now: i64| {
        e.try_check_intent_at(&i, &sol(), None, Some(1), &p, now).unwrap().is_approved()
    };
    assert!(at(1_000));
    assert!(at(2_000));
    assert!(!at(61_000));
    assert!(at(61_001));
    assert!(!at(62_000));
    assert!(at(62_001));
}

#[test]
fn stale_or_missing_prices_stop() {
    let mut l = open_limits();
    l.max_market_age_ms = Some(5);
    let i = order(OrderSide::Buy, Some("100"), "1");
    let mut e = RiskEngine::new(l);
    assert_eq!(check(&mut e, &i, None), pair("stale_market", "market age 10ms > 5ms"));
    match e.check_intent(&i, &sol(), None, None, &Portfolio::new()) {
        RiskDecision::Rejected { rule, message } => {
            assert_eq!(rule, "stale_market");
            assert_eq!(message, "no market data");
        }
        other => panic!("{other:?}"),
    }
    assert!(e.check_intent(&i, &sol(), None, Some(5), &Portfolio::new()).is_approved());
}

#[test]
fn prices_stay_near_the_market() {
    let mut l = open_limits();
    l.max_price_deviation = Some(d("0.05"));
    let mut e = RiskEngine::new(l);
    assert_eq!(
        check(&mut e, &order(OrderSide::Buy, Some("90"), "1"), Some("100")),
        pair("price_deviation", "deviation 0.10 exceeds 0.05")
    );
    assert_eq!(check(&mut e, &order(OrderSide::Buy, Some("105"), "1"), Some("100")).0, "approved");
}

#[test]
fn rejects_in_a_row_engage_the_kill_switch() {
    let mut l = open_limits();
    l.consecutive_reject_limit = Some(2);
    l.max_order_notional = Some(d("50"));
    let mut e = RiskEngine::new(l);
    let big = order(OrderSide::Buy, Some("100"), "1");
    let fine = order(OrderSide::Buy, Some("10"), "1");
    assert_eq!(check(&mut e, &big, None).0, "max_order_notional");
    assert_eq!(check(&mut e, &fine, None).0, "approved");
    assert_eq!(check(&mut e, &big, None).0, "max_order_notional");
    assert!(!e.is_halted());
    assert_eq!(check(&mut e, &big, None).0, "max_order_notional");
    assert!(e.is_halted());
    assert_eq!(
        check(&mut e, &fine, None),
        pair("kill_switch", "consecutive rejects circuit breaker")
    );
}

#[test]
fn checks_that_leave_the_range_say_so() {
    let mut e = RiskEngine::new(open_limits());
    let huge = order(OrderSide::Buy, Some("79228162514264337593543950"), "79228162514264337593543950");
    assert!(e
        .try_check_intent_at(&huge, &sol(), None, Some(1), &Portfolio::new(), 0)
        .is_none());
}

#[test]
fn a_limiter_bounds_requests_in_any_minute() {
    let mut rl = RateLimiter::new(2);
    assert!(rl.try_acquire_at(0));
    assert!(rl.try_acquire_at(10));
    assert!(!rl.try_acquire_at(60_000));
    assert!(rl.try_acquire_at(60_001));
    assert!(!rl.try_acquire_at(60_002));
    let mut none = RateLimiter::new(0);
    assert!(!none.try_acquire_at(0));
}

#[test]
fn backoff_doubles_up_to_its_limit() {
    assert_eq!(backoff_ms(3, 100, 10_000), 800);
    assert_eq!(backoff_ms(25, 1, u64::MAX), 1 << 20);
    assert_eq!(backoff_ms(20, u64::MAX, u64::MAX), u64::MAX);
    assert_eq!(backoff_ms(5, 0, 7), 0);
}

#[test]
fn a_decision_does_not_change_the_limits() {
    let mut e = RiskEngine::new(open_limits());
    let before = open_limits();
    check(&mut e, &order(OrderSide::Buy, Some("100"), "1"), None);
    check(&mut e, &order(OrderSide::Buy, None, "1"), None);
    assert_eq!(e.limits, before);
}

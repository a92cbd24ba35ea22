use tux::decimal::Decimal;
use tux::domain::{
    ExecutionPort, Instrument, InstrumentId, Order, OrderIntent, OrderSide, OrderStatus, OrderType,
    PnLComponents, PositionSide, ReduceOnly, RiskDecision, RiskLimitConfig, TimeInForce,
};
use tux::error::TuxError;
use tux::ids::{
    now_ms, AccountId, ClientOrderId, Environment, IntentId, MarketContext, OrderId, Product,
    StrategyInstanceId, Venue,
};
use tux::oms::{
    client_order_id_at, generate_client_order_id, try_generate_client_order_id, Oms,
    OrderStateMachine, Route, SmartOrderRouter,
};
use tux::sim::{FillModel, PaperEngine};

fn d(s: &str) -> Decimal {
    Decimal::parse(s).unwrap()
}

fn sample() -> Order {
    let now = now_ms();
    Order {
        id: OrderId::new(),
        intent_id: None,
        client_order_id: ClientOrderId::from("c"),
        venue_order_id: None,
        account_id: AccountId::from("a"),
        strategy_instance_id: None,
        instrument_id: InstrumentId::new("SOL-USDT"),
        side: OrderSide::Buy,
        order_type: OrderType::Limit,
        time_in_force: TimeInForce::Gtc,
        status: OrderStatus::Created,
        price: Some(Decimal::one()),
        quantity: Decimal::one(),
        filled_quantity: Decimal::zero(),
        avg_fill_price: None,
        reduce_only: ReduceOnly::No,
        position_side: PositionSide::Both,
        reject_reason: None,
        created_at: now,
        updated_at: now,
    }
}

fn intent(id: &str, clid: &str, qty: &str) -> OrderIntent {
    OrderIntent {
        id: IntentId::from(id),
        strategy_instance_id: StrategyInstanceId::from("s1"),
        account_id: AccountId::from("a1"),
        instrument_id: InstrumentId::new("SOL-USDT"),
        side: OrderSide::Buy,
        order_type: OrderType::Limit,
        time_in_force: TimeInForce::Gtc,
        price: Some(d("100")),
        quantity: d(qty),
        reduce_only: ReduceOnly::No,
        position_side: PositionSide::Both,
        leverage: None,
        client_order_id: ClientOrderId::from(clid),
        reason: None,
        created_at: 0,
    }
}

#[test]
fn state_machine_happy_path() {
    let mut o = sample();
    OrderStateMachine::transition(&mut o, OrderStatus::RiskApproved).unwrap();
    OrderStateMachine::transition(&mut o, OrderStatus::Submitted).unwrap();
    OrderStateMachine::transition(&mut o, OrderStatus::Acknowledged).unwrap();
    OrderStateMachine::transition(&mut o, OrderStatus::Filled).unwrap();
    assert!(o.status.is_terminal());
}

#[test]
fn router_split_keeps_order() {
    let o = sample();
    let kids = SmartOrderRouter::split(&o);
    assert_eq!(kids.len(), 1);
    assert_eq!(kids[0].id, o.id);
}

#[test]
fn router_split_preserves_order() {
    let now = now_ms();
    let o = Order {
        id: OrderId::from_raw("x"),
        intent_id: None,
        client_order_id: ClientOrderId::from_raw("c"),
        venue_order_id: None,
        account_id: AccountId::from("a"),
        strategy_instance_id: None,
        instrument_id: InstrumentId::new("SOL-USDT"),
        side: OrderSide::Buy,
        order_type: OrderType::Limit,
        time_in_force: TimeInForce::Gtc,
        status: OrderStatus::RiskApproved,
        price: Some(d("1")),
        quantity: d("1"),
        filled_quantity: Decimal::zero(),
        avg_fill_price: None,
        reduce_only: ReduceOnly::No,
        position_side: PositionSide::Both,
        reject_reason: None,
        created_at: now,
        updated_at: now,
    };
    assert_eq!(SmartOrderRouter::split(&o).len(), 1);
}

#[test]
fn a_finished_order_stays_finished() {
    let all = [
        OrderStatus::Created,
        OrderStatus::RiskApproved,
        OrderStatus::Submitted,
        OrderStatus::Acknowledged,
        OrderStatus::PartiallyFilled,
        OrderStatus::Filled,
        OrderStatus::CancelPending,
        OrderStatus::Cancelled,
        OrderStatus::Rejected,
        OrderStatus::Unknown,
        OrderStatus::Reconciled,
    ];
    for from in all {
        for to in all {
            if from.is_terminal() {
                assert!(!from.can_transition_to(to));
            }
            if from.can_transition_to(to) {
                assert_ne!(to, OrderStatus::Created);
            }
        }
        assert!(!(from.is_terminal() && from.is_active()));
    }
    assert!(OrderStatus::Unknown.can_transition_to(OrderStatus::Reconciled));
    assert!(!OrderStatus::Submitted.can_transition_to(OrderStatus::Reconciled));
    assert_eq!(OrderStatus::PartiallyFilled.as_str(), "partially_filled");
}

#[test]
fn an_illegal_step_is_named() {
    let mut o = sample();
    let e = o.apply_status(OrderStatus::Filled, 5).unwrap_err();
    assert_eq!(e, "illegal transition created -> filled");
    assert_eq!(o.status, OrderStatus::Created);
    o.apply_status(OrderStatus::Created, 7).unwrap();
    assert_eq!(o.updated_at, 7);
    let e = OrderStateMachine::transition(&mut o, OrderStatus::Filled).unwrap_err();
    assert_eq!(e.to_text(), "illegal order state transition: created -> filled");
}

#[test]
fn an_unknown_order_keeps_its_reason() {
    let mut o = sample();
    assert!(OrderStateMachine::mark_unknown(&mut o, "lost").is_err());
    assert_eq!(o.reject_reason.as_deref(), Some("lost"));
    assert_eq!(o.status, OrderStatus::Created);
    o.status = OrderStatus::Submitted;
    OrderStateMachine::mark_unknown(&mut o, "timeout").unwrap();
    assert_eq!(o.status, OrderStatus::Unknown);
    assert_eq!(o.reject_reason.as_deref(), Some("timeout"));
}

#[test]
fn creating_is_idempotent() {
    let mut oms = Oms::new();
    let i = intent("i1", "c1", "1");
    let first = oms.create_from_intent(&i).unwrap();
    assert_eq!(first.status, OrderStatus::RiskApproved);
    assert_eq!(first.client_order_id.as_str(), "c1");
    assert!(first.id.as_str().starts_with("ord_"));
    assert_eq!(first.id.as_str().len(), 36);
    let again = oms.create_from_intent(&i).unwrap();
    assert_eq!(again.id, first.id);
    assert_eq!(oms.all().len(), 1);
    // same value, other scale
    let mut same = intent("i1", "c1", "1.0");
    same.price = Some(d("100.00"));
    assert_eq!(oms.create_from_intent(&same).unwrap().id, first.id);
    let e = oms.create_from_intent(&intent("i1", "c9", "2")).unwrap_err();
    assert_eq!(e.to_text(), "invalid order: intent i1 payload conflict");
    let by_clid = oms.create_from_intent(&intent("i2", "c1", "1")).unwrap();
    assert_eq!(by_clid.id, first.id);
    let e = oms.create_from_intent(&intent("i3", "c1", "2")).unwrap_err();
    assert_eq!(e.to_text(), "invalid order: client_order_id c1 payload conflict");
    assert_eq!(oms.all().len(), 1);
}

#[test]
fn orders_are_found_and_counted() {
    let mut oms = Oms::default();
    let mut o = sample();
    o.status = OrderStatus::Acknowledged;
    oms.upsert(o.clone());
    let mut p = sample();
    p.status = OrderStatus::Filled;
    oms.upsert(p.clone());
    assert_eq!(oms.get(&o.id).unwrap().id, o.id);
    assert_eq!(oms.active_orders().len(), 1);
    assert_eq!(oms.all().len(), 2);
    oms.apply_status(&o.id, OrderStatus::Cancelled).unwrap();
    assert_eq!(oms.get(&o.id).unwrap().status, OrderStatus::Cancelled);
    assert_eq!(oms.active_orders().len(), 0);
    let e = oms.apply_status(&o.id, OrderStatus::Filled).unwrap_err();
    assert_eq!(e.to_text(), "illegal order state transition: cancelled -> filled");
    let e = oms.apply_status(&OrderId::from("nope"), OrderStatus::Filled).unwrap_err();
    assert_eq!(e.to_text(), "invalid order: order nope not found");
}

struct BrokenPort;

impl ExecutionPort for BrokenPort {
    fn place_order(&mut self, _order: &Order) -> tux::Result<Order> {
        Err(TuxError::Exchange { venue: "okx".to_string(), message: "down".to_string() })
    }

    fn cancel_order(&mut self, _order_id: &OrderId) -> tux::Result<Order> {
        Err(TuxError::other("no cancel"))
    }

    fn query_order(&self, _order_id: &OrderId) -> tux::Result<Order> {
        Err(TuxError::other("no query"))
    }

    fn validate_client_order_id(&self, _id: &ClientOrderId) -> bool {
        false
    }
}

#[test]
fn a_failed_submission_leaves_an_unknown_order() {
    let mut oms = Oms::new();
    let order = oms.create_from_intent(&intent("i1", "c1", "1")).unwrap();
    let mut port = BrokenPort;
    let e = oms.submit(&order.id, &mut port).unwrap_err();
    assert_eq!(e.to_text(), "okx exchange error: down");
    let kept = oms.get(&order.id).unwrap();
    assert_eq!(kept.status, OrderStatus::Unknown);
    assert_eq!(kept.reject_reason.as_deref(), Some("okx exchange error: down"));
    let e = oms.submit(&OrderId::from("zz"), &mut port).unwrap_err();
    assert_eq!(e.to_text(), "invalid order: order zz not found");
    assert!(oms.cancel(&order.id, &mut port).is_err());
    // an unknown order may be submitted again
    assert!(oms.submit(&order.id, &mut port).is_err());
}

#[test]
fn submission_to_the_paper_engine_says_when_numbers_leave_the_range() {
    let mut oms = Oms::new();
    let mut paper = PaperEngine::new(FillModel::immediate());
    let e = oms.try_submit(&OrderId::from("zz"), &mut paper).unwrap().unwrap_err();
    assert_eq!(e.to_text(), "invalid order: order zz not found");
    let order = oms.create_from_intent(&intent("i1", "c1", "1")).unwrap();
    let placed = oms.try_submit(&order.id, &mut paper).unwrap().unwrap();
    assert_eq!(placed.status, OrderStatus::Acknowledged);
    assert_eq!(oms.get(&order.id).unwrap().status, OrderStatus::Acknowledged);
    let e = oms.try_submit(&order.id, &mut paper).unwrap().unwrap_err();
    assert_eq!(e.to_text(), "illegal order state transition: acknowledged -> submitted");
    paper.register_instrument(Instrument::spot(
        "SOL-USDT",
        Venue::LocalPaper,
        "SOL",
        "USDT",
        d("0.01"),
        d("0.001"),
    ));
    // an order that may not be submitted is refused, whatever its numbers
    let mut done = sample();
    done.id = OrderId::from("done");
    done.status = OrderStatus::Cancelled;
    done.price = Some(d("79228162514264337593543950335"));
    oms.upsert(done);
    let e = oms.try_submit(&OrderId::from("done"), &mut paper).unwrap().unwrap_err();
    assert_eq!(e.to_text(), "illegal order state transition: cancelled -> submitted");
    let mut huge = intent("i2", "c2", "1");
    huge.price = Some(d("79228162514264337593543950335"));
    let order = oms.create_from_intent(&huge).unwrap();
    assert!(oms.try_submit(&order.id, &mut paper).is_none());
    assert_eq!(oms.get(&order.id).unwrap().status, OrderStatus::RiskApproved);
}

#[test]
fn client_order_ids_of_different_moments_differ() {
    let s = StrategyInstanceId::from("oneshot");
    let id = |now: i64, nanos: u32| client_order_id_at(&s, now, nanos);
    assert!(id(1, 5) != id(2, 5));
    assert!(id(1, 5) != id(1, 6));
    assert!(id(1, 5) != client_order_id_at(&StrategyInstanceId::from("twoshots"), 1, 5));
    // more digits make a longer id
    assert!(id(9, 0x1000) != id(91, 0x0000));
    assert!(id(10_000_000_001, 5) == id(1, 5));
    assert!(id(1, 5) == id(1, 5 + 0xffff));
}

#[test]
fn routing_follows_the_environment() {
    let paper = MarketContext::new(Venue::Okx, Product::Spot, Environment::LocalPaper);
    assert_eq!(SmartOrderRouter::route(&paper), Route::PaperMatching);
    assert!(paper.is_simulated_matching());
    let demo = MarketContext::new(Venue::Okx, Product::UsdtPerp, Environment::ExchangeDemo);
    assert_eq!(SmartOrderRouter::route(&demo), Route::Venue(Venue::Okx));
    assert!(!demo.is_simulated_matching());
    assert_eq!(demo.to_text(), "okx:usdt_perp:exchange_demo");
}

#[test]
fn client_order_ids_are_made_of_time_instance_and_fraction() {
    let id = client_order_id_at(&StrategyInstanceId::from("oneshot"), 1_712_345_678_901, 0x1_2345);
    // 0x12345 % 0xffff = 0x2346
    assert_eq!(id.as_str(), "t2345678901neshot2346");
    let short = client_order_id_at(&StrategyInstanceId::from("ab"), -12, 7);
    assert_eq!(short.as_str(), "t-12ab0007");
    let made = generate_client_order_id(&StrategyInstanceId::from("oneshot"));
    assert!(made.as_str().starts_with('t'));
    assert!(made.as_str().len() <= 21);
    // the sixth byte from the end may stand inside a character
    assert!(try_generate_client_order_id(&StrategyInstanceId::from("äbcdef")).is_none());
    assert!(try_generate_client_order_id(&StrategyInstanceId::from("aäbcdef")).is_none());
    assert!(try_generate_client_order_id(&StrategyInstanceId::from("äbcde")).is_some());
    assert!(try_generate_client_order_id(&StrategyInstanceId::from("äabcdef")).is_some());
    assert!(try_generate_client_order_id(&StrategyInstanceId::from("äabcdefg")).is_some());
}

#[test]
fn instruments_check_their_grid() {
    let i = Instrument::spot("SOL-USDT", Venue::LocalPaper, "SOL", "USDT", d("0.01"), d("0.001"));
    assert_eq!(i.min_qty, d("0.001"));
    assert_eq!(i.settle_asset, "USDT");
    assert!(i.validate_price(d("100.01")));
    assert!(!i.validate_price(d("100.015")));
    assert!(!i.validate_price(d("0")));
    assert!(i.validate_qty(d("0.5")));
    assert!(!i.validate_qty(d("0.0005")));
    assert!(!i.validate_qty(d("0.0015")));
    assert!(i.validate_notional(d("0")));
    let mut with_min = i.clone();
    with_min.min_notional = Some(d("10"));
    assert!(!with_min.validate_notional(d("9.99")));
    assert!(with_min.validate_notional(d("10.0")));
    assert_eq!(i.try_validate_price(d("79228162514264337593543950335")), None);
}

#[test]
fn notional_uses_the_limit_price_first() {
    let mut i = intent("i", "c", "2");
    assert_eq!(i.notional(Some(d("7"))), Some(d("200")));
    i.price = None;
    assert_eq!(i.notional(Some(d("7"))), Some(d("14")));
    assert_eq!(i.notional(None), None);
    assert_eq!(i.reference_price(Some(d("7"))), Some(d("7")));
    let o = sample();
    assert_eq!(o.notional(None), Some(d("1")));
    assert_eq!(o.remaining(), d("1"));
    i.quantity = d("79228162514264337593543950335");
    assert_eq!(i.try_notional(Some(d("7"))), None);
}

#[test]
fn net_profit_counts_fees_funding_and_interest() {
    let p = PnLComponents {
        gross_realized_pnl: d("10"),
        unrealized_pnl: d("99"),
        trading_fees: d("1.5"),
        funding_fees: d("-0.25"),
        borrow_interest: d("0.25"),
    };
    assert_eq!(p.net_pnl(), d("8"));
}

#[test]
fn decisions_and_defaults() {
    let r = RiskDecision::reject("rule", "why");
    assert!(!r.is_approved());
    assert!(RiskDecision::Approved.is_approved());
    let l = RiskLimitConfig::default();
    assert_eq!(l.max_market_age_ms, Some(5_000));
    assert_eq!(l.consecutive_reject_limit, Some(5));
    assert!(l.pause_on_disconnect && l.instrument_whitelist.is_empty());
}

#[test]
fn identifiers_carry_their_prefix() {
    let a = AccountId::new();
    let b = AccountId::new();
    assert!(a.as_str().starts_with("acc_"));
    assert_eq!(a.as_str().len(), 36);
    assert!(a.as_str()[4..].chars().all(|c| c.is_ascii_hexdigit() && !c.is_ascii_uppercase()));
    assert!(a != b);
    assert_eq!(AccountId::from("x"), AccountId::from_raw("x"));
    assert_eq!(AccountId::from("x".to_string()).as_str(), "x");
    assert!(IntentId::new().as_str().starts_with("int_"));
    assert!(StrategyInstanceId::default().as_str().starts_with("sinst_"));
}

#[test]
fn errors_read_as_sentences() {
    assert_eq!(TuxError::Config("x".to_string()).to_text(), "invalid configuration: x");
    assert_eq!(TuxError::InvalidInstrument("x".to_string()).to_text(), "invalid instrument: x");
    assert_eq!(
        TuxError::RiskRejected { rule: "r".to_string(), message: "m".to_string() }.to_text(),
        "risk rejected [r]: m"
    );
    assert_eq!(
        TuxError::StaleMarketData { instrument: "I".to_string() }.to_text(),
        "stale or missing market data for I"
    );
    assert_eq!(TuxError::Storage("x".to_string()).to_text(), "storage error: x");
    assert_eq!(TuxError::other("x").to_text(), "x");
}

#[test]
fn live_mode_is_refused() {
    assert!(tux::ensure_not_live(Environment::Live).is_err());
    assert!(tux::ensure_not_live(Environment::LocalPaper).is_ok());
}

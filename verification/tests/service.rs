use tux::control::{
    limit_or, manual_intent_with, parse_action, parse_decimal, parse_order_type, parse_parameters,
    parse_side, parse_tif, try_manual_intent, ApiFailure, ControlAction, LimitQ, ManualOrderRequest, Next, Operation,
    Request, Stage, StrategyConfigRequest, Task,
};
use tux::decimal::Decimal;
use tux::domain::{
    Balance, Instrument, InstrumentId, Order, OrderIntent, OrderSide, OrderStatus, OrderType,
    PositionSide, ReduceOnly, RiskLimitConfig, TimeInForce,
};
use tux::error::TuxError;
use tux::events::BookTicker;
use tux::ids::{AccountId, ClientOrderId, IntentId, OrderId, StrategyInstanceId, Venue};
use tux::live_feed::{
    book_url, price_url, read_last_price, try_align_book, try_read_book, LiveBook,
};
use tux::pipeline::{
    config_version, signal_failed, signal_succeeded, started, try_synthetic_quote, DemoAction,
    DemoEvent, DemoLoop, TOTAL_TICKS,
};
use tux::risk::RiskEngine;
use tux::runtime::{
    Outcome, RuntimeState, StrategyParameters, StrategyRunStatus, StrategySnapshot,
};
use tux::sim::{FillModel, PaperEngine};

fn d(s: &str) -> Decimal {
    Decimal::parse(s).unwrap()
}

fn sol() -> Instrument {
    Instrument::spot("SOL-USDT", Venue::LocalPaper, "SOL", "USDT", d("0.01"), d("0.001"))
}

fn runtime_with(saved: Option<StrategySnapshot>) -> RuntimeState {
    let limits = RiskLimitConfig {
        instrument_whitelist: vec![InstrumentId::new("SOL-USDT")],
        max_order_notional: Some(d("5000")),
        max_strategy_notional: Some(d("100")),
        max_market_age_ms: Some(60_000),
        consecutive_reject_limit: None,
        ..Default::default()
    };
    RuntimeState::new(
        sol(),
        AccountId::from("paper_acc"),
        StrategyInstanceId::from("oneshot"),
        saved,
        PaperEngine::new(FillModel::l1()),
        RiskEngine::new(limits),
    )
}

#[test]
fn the_process_holds_orders_by_the_rules_of_its_instrument() {
    let mut rt = runtime();
    let order = Order {
        id: OrderId::from("o"),
        intent_id: None,
        client_order_id: ClientOrderId::from("c"),
        venue_order_id: None,
        account_id: AccountId::from("paper_acc"),
        strategy_instance_id: None,
        instrument_id: InstrumentId::new("SOL-USDT"),
        side: OrderSide::Buy,
        order_type: OrderType::Limit,
        time_in_force: TimeInForce::Gtc,
        status: OrderStatus::Submitted,
        price: Some(d("100.005")),
        quantity: d("1"),
        filled_quantity: Decimal::zero(),
        avg_fill_price: None,
        reduce_only: ReduceOnly::No,
        position_side: PositionSide::Both,
        reject_reason: None,
        created_at: 1,
        updated_at: 1,
    };
    let e = rt.paper.try_place_order_at(&order, 2).unwrap().unwrap_err();
    assert_eq!(e.to_text(), "invalid order: price violates tick size");
}

fn runtime() -> RuntimeState {
    let mut rt = runtime_with(None);
    rt.restore_balances_at(vec![], 1);
    rt
}

fn book() -> LiveBook {
    LiveBook { bid: d("99.5"), bid_qty: d("5"), ask: d("100"), ask_qty: d("5") }
}

fn raw(bid: &str, ask: &str) -> tux::live_feed::BookTicker {
    tux::live_feed::BookTicker {
        symbol: "SOLUSDT".to_string(),
        bid_price: bid.to_string(),
        bid_qty: "3".to_string(),
        ask_price: ask.to_string(),
        ask_qty: "x".to_string(),
    }
}

fn intent(rt: &RuntimeState, price: Option<&str>, qty: &str) -> OrderIntent {
    OrderIntent {
        id: IntentId::from("i1"),
        strategy_instance_id: rt.strategy_instance_id.clone(),
        account_id: rt.account_id.clone(),
        instrument_id: rt.instrument.id.clone(),
        side: OrderSide::Buy,
        order_type: if price.is_some() { OrderType::Limit } else { OrderType::Market },
        time_in_force: TimeInForce::Gtc,
        price: price.map(d),
        quantity: d(qty),
        reduce_only: ReduceOnly::No,
        position_side: PositionSide::Both,
        leverage: None,
        client_order_id: ClientOrderId::from("c1"),
        reason: None,
        created_at: 0,
    }
}

fn stored_order(id: &str, status: OrderStatus) -> Order {
    Order {
        id: OrderId::from_raw(id),
        intent_id: None,
        client_order_id: ClientOrderId::from_raw(id),
        venue_order_id: None,
        account_id: AccountId::from("paper_acc"),
        strategy_instance_id: Some(StrategyInstanceId::from("oneshot")),
        instrument_id: InstrumentId::new("SOL-USDT"),
        side: OrderSide::Buy,
        order_type: OrderType::Limit,
        time_in_force: TimeInForce::Gtc,
        status,
        price: Some(d("90")),
        quantity: d("1"),
        filled_quantity: Decimal::zero(),
        avg_fill_price: None,
        reduce_only: ReduceOnly::No,
        position_side: PositionSide::Both,
        reject_reason: None,
        created_at: 0,
        updated_at: 0,
    }
}

#[test]
fn a_new_runtime_is_seeded_and_running() {
    let rt = runtime();
    assert_eq!(rt.portfolio.balance(&rt.account_id, "USDT").unwrap().free, d("10000"));
    let s = rt.strategy_snapshot();
    assert_eq!(s.status, StrategyRunStatus::Running);
    assert_eq!((s.revision, s.signals, s.orders, s.fills), (1, 0, 0, 0));
    assert_eq!(s.name, "One-shot directional strategy");
    assert_eq!(s.strategy_id, "oneshot");
    assert_eq!(s.parameters.quantity, d("0.5"));
    assert!(!rt.kill_switch_engaged());
    let mut saved = s.clone();
    saved.revision = 9;
    assert_eq!(runtime_with(Some(saved)).strategy_snapshot().revision, 9);
}

#[test]
fn stored_balances_come_back() {
    let mut rt = runtime_with(None);
    rt.restore_balances_at(
        vec![Balance {
            account_id: AccountId::from("paper_acc"),
            asset: "SOL".to_string(),
            free: d("4"),
            locked: d("0"),
            updated_at: 3,
        }],
        1,
    );
    assert!(rt.portfolio.balance(&rt.account_id, "USDT").is_none());
    assert_eq!(rt.portfolio.balance(&rt.account_id, "SOL").unwrap().free, d("4"));
}

#[test]
fn a_signal_goes_through_to_the_portfolio() {
    let mut rt = runtime();
    let now = tux::ids::now_ms();
    assert!(rt.try_on_live_book(&book(), now).unwrap().is_empty());
    let i = rt.strategy_intent().unwrap();
    assert_eq!(i.price, Some(d("100")));
    assert_eq!(i.quantity, d("0.5"));
    assert_eq!(i.reason.as_deref(), Some("dashboard strategy trigger"));
    assert_eq!(rt.strategy_snapshot().signals, 1);
    let x = rt.execute_intent(&i).unwrap();
    assert_eq!(x.order.status, OrderStatus::Filled);
    assert!(rt.paper.take_fills().is_empty());
    assert_eq!(x.applied.len(), 1);
    let applied = &x.applied[0];
    assert_eq!(applied.fill.order_id, x.order.id);
    assert_eq!(applied.events.len(), 2);
    assert_eq!(applied.order.as_ref().unwrap().id, x.order.id);
    assert_eq!(applied.snapshot.fills, 1);
    assert!(x.failure.is_none());
    assert_eq!(rt.note_strategy_order(&x.order).orders, 1);
    assert_eq!(rt.strategy_snapshot().last_order_id.as_deref(), Some(x.order.id.as_str()));
    assert_eq!(rt.portfolio.balance(&rt.account_id, "USDT").unwrap().free, d("9949.975"));
    assert_eq!(rt.portfolio.balance(&rt.account_id, "SOL").unwrap().free, d("0.5"));
    // 9949.975 + 0.5 * 99.75
    assert_eq!(rt.equity_mtm(), d("9999.85"));
    let (point, balances) = rt.try_equity_point_at(77).unwrap();
    assert_eq!((point.ts, point.equity), (77, d("9999.85")));
    assert_eq!(point.fees, d("0.025"));
    assert_eq!(point.net_pnl, d("-0.025"));
    assert_eq!(balances.len(), 2);
}

#[test]
fn a_fill_frees_what_was_booked() {
    let mut rt = runtime();
    let now = tux::ids::now_ms();
    rt.try_on_live_book(&book(), now).unwrap();
    // 80 of 100 booked, then freed by the fill
    for n in 0..3 {
        let mut i = intent(&rt, Some("100"), "0.8");
        i.id = IntentId::from(format!("i{n}"));
        i.client_order_id = ClientOrderId::from(format!("c{n}"));
        assert_eq!(rt.execute_intent(&i).unwrap().applied.len(), 1);
    }
    // a resting order keeps its booking
    let mut i = intent(&rt, Some("90"), "1");
    i.id = IntentId::from("rest");
    i.client_order_id = ClientOrderId::from("rest");
    let x = rt.execute_intent(&i).unwrap();
    assert_eq!(x.order.status, OrderStatus::Acknowledged);
    i.id = IntentId::from("more");
    i.client_order_id = ClientOrderId::from("more");
    let e = rt.execute_intent(&i).unwrap_err();
    assert_eq!(
        e.to_text(),
        "risk rejected [max_strategy_notional]: strategy open+new 90+90 exceeds 100"
    );
}

#[test]
fn an_unplaced_order_gives_back() {
    let mut rt = runtime();
    let now = tux::ids::now_ms();
    rt.try_on_live_book(&book(), now).unwrap();
    for n in 0..3 {
        let mut i = intent(&rt, Some("90"), "1");
        i.id = IntentId::from(format!("i{n}"));
        i.client_order_id = ClientOrderId::from(format!("c{n}"));
        i.time_in_force = TimeInForce::Ioc;
        let x = rt.execute_intent(&i).unwrap();
        assert_eq!(x.order.status, OrderStatus::Cancelled);
    }
    // refused by the paper engine
    let mut i = intent(&rt, Some("90"), "1");
    i.id = IntentId::from("nameless");
    i.client_order_id = ClientOrderId::from("");
    assert_eq!(
        rt.execute_intent(&i).unwrap_err().to_text(),
        "invalid order: client_order_id rejected"
    );
    let mut again = intent(&rt, Some("90"), "1");
    again.id = IntentId::from("again");
    again.client_order_id = ClientOrderId::from("again");
    assert!(rt.execute_intent(&again).is_ok());
}

#[test]
fn foreign_intents_and_fills_are_refused() {
    let mut rt = runtime();
    let now = tux::ids::now_ms();
    rt.try_on_live_book(&book(), now).unwrap();
    let mut i = intent(&rt, Some("100"), "0.5");
    i.account_id = AccountId::from("other");
    assert_eq!(
        rt.validate_scope(&i).unwrap_err().to_text(),
        "invalid order: intent account/strategy/instrument out of scope"
    );
    assert!(rt.execute_intent(&i).is_err());
    let i = intent(&rt, Some("100"), "0.5");
    assert!(rt.validate_scope(&i).is_ok());
    let mut f = rt.execute_intent(&i).unwrap().applied.pop().unwrap().fill;
    f.account_id = AccountId::from("other");
    f.price = d("79228162514264337593543950335");
    f.quantity = d("10");
    assert_eq!(rt.apply_fill(&f).unwrap_err().to_text(), "invalid order: fill account mismatch");
    // the same numbers in the account are out of range
    f.account_id = rt.account_id.clone();
    assert!(rt.try_apply_fill_at(&f, now).is_none());
}

#[test]
fn a_resting_order_gives_back_what_it_booked() {
    let mut rt = runtime();
    let now = tux::ids::now_ms();
    rt.try_on_live_book(&book(), now).unwrap();
    for n in 0..3 {
        let mut i = intent(&rt, Some("98"), "1");
        i.id = IntentId::from(format!("i{n}"));
        i.client_order_id = ClientOrderId::from(format!("c{n}"));
        let x = rt.execute_intent(&i).unwrap();
        assert_eq!(x.order.status, OrderStatus::Acknowledged);
        // 98 of 100 are open until a quote fills the order
        let mut more = i.clone();
        more.id = IntentId::from(format!("m{n}"));
        more.client_order_id = ClientOrderId::from(format!("m{n}"));
        assert!(rt.execute_intent(&more).is_err());
        let low = LiveBook { bid: d("96"), bid_qty: d("5"), ask: d("97"), ask_qty: d("5") };
        rt.try_on_live_book(&low, now).unwrap();
        let drained = rt.drain_fills();
        assert!(matches!(drained.outcome, Outcome::Done));
        assert_eq!(drained.applied.len(), 1);
        assert_eq!(drained.applied[0].order.as_ref().unwrap().status, OrderStatus::Filled);
        rt.try_on_live_book(&book(), now).unwrap();
    }
}

#[test]
fn a_market_order_goes_by_the_market_throughout() {
    let mut rt = runtime();
    let now = tux::ids::now_ms();
    rt.try_on_live_book(&book(), now).unwrap();
    // the price that a market order names counts neither when it is booked ...
    for n in 0..3 {
        let mut i = intent(&rt, Some("190"), "0.9");
        i.order_type = OrderType::Market;
        i.id = IntentId::from(format!("i{n}"));
        i.client_order_id = ClientOrderId::from(format!("c{n}"));
        let x = rt.execute_intent(&i).unwrap();
        assert_eq!(x.order.status, OrderStatus::Filled);
    }
    // ... nor when it is given back: 3 * (0.9 * 99.75 - 0.9 * 100) is left
    let mut i = intent(&rt, Some("101"), "1");
    i.id = IntentId::from("last");
    i.client_order_id = ClientOrderId::from("last");
    assert_eq!(
        rt.execute_intent(&i).unwrap_err().to_text(),
        "risk rejected [max_strategy_notional]: strategy open+new -0.6750+101 exceeds 100"
    );
    // ... nor when it is taken up again
    let mut rt = runtime();
    rt.try_on_live_book(&book(), now).unwrap();
    let mut o = stored_order("a", OrderStatus::Acknowledged);
    o.order_type = OrderType::Market;
    o.price = Some(d("1"));
    o.quantity = d("1");
    assert_eq!(rt.try_restore_orders(&vec![o]), Some(1));
    let i = intent(&rt, Some("90"), "1");
    assert_eq!(
        rt.execute_intent(&i).unwrap_err().to_text(),
        "risk rejected [max_strategy_notional]: strategy open+new 99.750+90 exceeds 100"
    );
}

#[test]
fn a_fill_that_cannot_be_booked_is_reported() {
    let mut rt = runtime_with(None);
    let now = tux::ids::now_ms();
    rt.try_on_live_book(&book(), now).unwrap();
    // no balance to pay from
    let i = intent(&rt, Some("100"), "0.5");
    let x = rt.execute_intent(&i).unwrap();
    assert_eq!(x.order.status, OrderStatus::Filled);
    assert!(x.applied.is_empty());
    assert!(x.into_result().unwrap_err().to_text().starts_with("invalid order: insufficient"));
    assert!(rt.paper.take_fills().is_empty());
    assert_eq!(rt.strategy_snapshot().fills, 0);
}

#[test]
fn orders_before_one_out_of_range_are_restored() {
    let mut rt = runtime();
    let mut huge = stored_order("h", OrderStatus::Acknowledged);
    huge.price = Some(d("79228162514264337593543950335"));
    huge.quantity = d("10");
    let open = vec![
        stored_order("a", OrderStatus::Acknowledged),
        huge,
        stored_order("b", OrderStatus::Unknown),
    ];
    assert_eq!(rt.try_restore_orders(&open), None);
    assert!(rt.oms.get(&OrderId::from("a")).is_some());
    assert!(rt.oms.get(&OrderId::from("h")).is_none());
    assert!(rt.oms.get(&OrderId::from("b")).is_none());
}

#[test]
fn an_order_by_hand_is_read_before_it_is_named() {
    let mut rt = runtime();
    let mut request = ManualOrderRequest {
        side: "BUY".to_string(),
        order_type: "limit".to_string(),
        time_in_force: None,
        quantity: "0.5".to_string(),
        price: Some("99".to_string()),
    };
    let i = try_manual_intent(&rt, &request).unwrap().unwrap();
    assert_eq!((i.side, i.price), (OrderSide::Buy, Some(d("99"))));
    assert!(i.client_order_id.as_str().starts_with('t'));
    rt.strategy_instance_id = StrategyInstanceId::from("aäbcdef");
    assert!(try_manual_intent(&rt, &request).is_none());
    request.price = None;
    assert_eq!(try_manual_intent(&rt, &request).unwrap().unwrap_err(), "price is required");
}

#[test]
fn the_kill_switch_stops_execution() {
    let mut rt = runtime();
    let now = tux::ids::now_ms();
    rt.try_on_live_book(&book(), now).unwrap();
    rt.risk.kill_switch.engage("halt");
    assert!(rt.kill_switch_engaged());
    let i = intent(&rt, Some("100"), "0.5");
    assert_eq!(
        rt.execute_intent(&i).unwrap_err().to_text(),
        "risk rejected [kill_switch]: halt"
    );
    assert!(rt.paper.take_fills().is_empty());
    assert!(rt.oms.all().is_empty());
}

#[test]
fn open_orders_are_restored() {
    let mut rt = runtime();
    let mut foreign = stored_order("f", OrderStatus::Acknowledged);
    foreign.instrument_id = InstrumentId::new("BTC-USDT");
    let open = vec![
        stored_order("a", OrderStatus::Acknowledged),
        stored_order("b", OrderStatus::Unknown),
        foreign,
    ];
    assert_eq!(rt.try_restore_orders(&open), Some(1));
    assert!(rt.oms.get(&OrderId::from("a")).is_some());
    assert!(rt.oms.get(&OrderId::from("b")).is_some());
    assert!(rt.oms.get(&OrderId::from("f")).is_none());
    assert!(rt.paper.query_order_blocking(&OrderId::from("a")).is_ok());
    assert!(rt.paper.query_order_blocking(&OrderId::from("b")).is_err());
    // 90 of 100 are booked again
    let now = tux::ids::now_ms();
    rt.try_on_live_book(&book(), now).unwrap();
    let i = intent(&rt, Some("90"), "1");
    assert!(rt.execute_intent(&i).is_err());
}

#[test]
fn strategy_settings_are_checked() {
    let mut rt = runtime();
    let mut p = StrategyParameters::default();
    p.quantity = d("0.0001");
    assert_eq!(
        rt.configure_strategy(p.clone()).unwrap_err().to_text(),
        "invalid configuration: quantity 0.0001 violates instrument lot size"
    );
    p.quantity = d("1");
    p.limit_offset_bps = d("-1000.5");
    assert_eq!(
        rt.configure_strategy(p.clone()).unwrap_err().to_text(),
        "invalid configuration: limit_offset_bps must be between -1000 and 1000"
    );
    p.limit_offset_bps = d("100");
    p.order_type = OrderType::PostOnly;
    assert_eq!(
        rt.configure_strategy(p.clone()).unwrap_err().to_text(),
        "invalid configuration: dashboard strategy supports limit or market orders"
    );
    assert_eq!(rt.strategy_snapshot().revision, 1);
    p.order_type = OrderType::Limit;
    assert_eq!(rt.configure_strategy(p).unwrap().revision, 2);
    let now = tux::ids::now_ms();
    rt.try_on_live_book(&book(), now).unwrap();
    // 100 * 1.01
    assert_eq!(rt.strategy_intent().unwrap().price, Some(d("101")));
}

#[test]
fn offsets_are_rounded_to_the_tick() {
    let mut rt = runtime();
    let mut p = StrategyParameters::default();
    p.side = OrderSide::Sell;
    p.limit_offset_bps = d("3");
    rt.configure_strategy(p).unwrap();
    let now = tux::ids::now_ms();
    rt.try_on_live_book(&book(), now).unwrap();
    // 99.5 * 0.9997 = 99.47015
    assert_eq!(rt.strategy_intent().unwrap().price, Some(d("99.47")));
}

#[test]
fn a_strategy_that_is_not_running_gives_no_signal() {
    let mut rt = runtime();
    assert_eq!(
        rt.strategy_intent().unwrap_err().to_text(),
        "stale or missing market data for SOL-USDT"
    );
    let now = tux::ids::now_ms();
    rt.try_on_live_book(&book(), now).unwrap();
    let s = rt.set_strategy_status(StrategyRunStatus::Paused);
    assert_eq!(s.status, StrategyRunStatus::Paused);
    assert_eq!(
        rt.strategy_intent().unwrap_err().to_text(),
        "invalid order: strategy is paused"
    );
    assert_eq!(rt.strategy_snapshot().signals, 0);
    rt.set_strategy_status(StrategyRunStatus::Running);
    assert!(rt.strategy_intent().is_ok());
    assert_eq!(rt.note_strategy_signal().signals, 2);
    assert!(StrategyRunStatus::Running.can_execute());
    assert!(!StrategyRunStatus::Error.can_execute());
    assert_eq!(StrategyRunStatus::Stopped.as_str(), "stopped");
}

#[test]
fn the_market_is_shown() {
    let mut rt = runtime();
    assert!(rt.current_market().is_none());
    rt.try_on_live_book(&book(), 1_000).unwrap();
    let m = rt.try_current_market_at(1_040).unwrap().unwrap();
    assert_eq!(m.mid, d("99.75"));
    assert_eq!((m.bid, m.ask), (d("99.5"), d("100")));
    assert_eq!((m.occurred_at, m.age_ms), (1_000, 40));
    assert_eq!(m.instrument_id, "SOL-USDT");
}

#[test]
fn requests_are_read() {
    assert_eq!(limit_or(LimitQ { limit: None }.limit, 100), 100);
    assert_eq!(limit_or(Some(7), 100), 7);
    assert_eq!(limit_or(Some(0), 100), 1);
    assert_eq!(limit_or(Some(501), 100), 500);
    assert_eq!(parse_decimal("1.5", "x"), Ok(d("1.5")));
    assert_eq!(parse_decimal("", "price").unwrap_err(), "invalid price");
    assert_eq!(parse_side("BUY"), Ok(OrderSide::Buy));
    assert_eq!(parse_side("sell"), Ok(OrderSide::Sell));
    assert_eq!(parse_side("hold").unwrap_err(), "side must be buy or sell");
    assert_eq!(parse_order_type("Post_Only"), Ok(OrderType::PostOnly));
    assert_eq!(parse_order_type("MARKET"), Ok(OrderType::Market));
    assert_eq!(
        parse_order_type("stop").unwrap_err(),
        "order_type must be limit, market, or post_only"
    );
    assert_eq!(parse_tif("IOC"), Ok(TimeInForce::Ioc));
    assert_eq!(parse_tif("fok"), Ok(TimeInForce::Fok));
    assert_eq!(parse_tif("gtd").unwrap_err(), "time_in_force must be gtc, ioc, or fok");
    assert_eq!(parse_action("pause"), Ok(ControlAction::Pause));
    assert_eq!(parse_action("explode").unwrap_err(), "unsupported strategy action");
    assert_eq!(ControlAction::Resume.target_status(), Some(StrategyRunStatus::Running));
    assert_eq!(ControlAction::Trigger.target_status(), None);
    let request = StrategyConfigRequest {
        quantity: "2".to_string(),
        side: "Sell".to_string(),
        order_type: "limit".to_string(),
        time_in_force: "gtc".to_string(),
        limit_offset_bps: "-5".to_string(),
    };
    let p = parse_parameters(&request).unwrap();
    assert_eq!((p.side, p.quantity, p.limit_offset_bps), (OrderSide::Sell, d("2"), d("-5")));
    let mut bad = request.clone();
    bad.limit_offset_bps = "?".to_string();
    assert_eq!(parse_parameters(&bad).unwrap_err(), "invalid limit_offset_bps");
}

#[test]
fn manual_orders_are_read() {
    let rt = runtime();
    let mut request = ManualOrderRequest {
        side: "buy".to_string(),
        order_type: "limit".to_string(),
        time_in_force: None,
        quantity: "2".to_string(),
        price: None,
    };
    let make = |r: &ManualOrderRequest| {
        manual_intent_with(&rt, r, IntentId::from("i"), ClientOrderId::from("c"), 9)
    };
    assert_eq!(make(&request).unwrap_err(), "price is required");
    request.price = Some("10.5".to_string());
    let i = make(&request).unwrap();
    assert_eq!(i.price, Some(d("10.5")));
    assert_eq!(i.time_in_force, TimeInForce::Gtc);
    assert_eq!(i.reason.as_deref(), Some("dashboard manual intervention"));
    assert_eq!(i.account_id, rt.account_id);
    let op = Operation::manual(&request);
    assert_eq!((op.action.as_str(), op.status.as_str()), ("manual_order", "succeeded"));
    assert_eq!(op.detail, "buy 2 limit @ 10.5");
    request.order_type = "market".to_string();
    assert_eq!(make(&request).unwrap().price, None);
    request.quantity = "two".to_string();
    assert_eq!(make(&request).unwrap_err(), "invalid quantity");
}

#[test]
fn failures_have_their_codes() {
    assert_eq!(ApiFailure::BadRequest.status_code(), 400);
    assert_eq!(ApiFailure::Conflict.status_code(), 409);
    assert_eq!(ApiFailure::Unprocessable.status_code(), 422);
    assert_eq!(ApiFailure::Internal.status_code(), 500);
    assert_eq!(ApiFailure::Unavailable.status_code(), 503);
    assert_eq!(Stage::Read.answer(), ApiFailure::BadRequest);
    assert_eq!(Stage::Signal.answer(), ApiFailure::Conflict);
    assert_eq!(Stage::Execute.answer(), ApiFailure::Unprocessable);
    assert_eq!(Stage::Persist.answer(), ApiFailure::Internal);
    assert_eq!(Stage::Market.answer(), ApiFailure::Unavailable);
    assert_eq!(Operation::configured(3).detail, "strategy configuration updated to revision 3");
    assert_eq!(Operation::controlled(ControlAction::Stop).detail, "dashboard action stop");
    let f = Operation::failed("trigger", &TuxError::other("no"));
    assert_eq!((f.status.as_str(), f.detail.as_str()), ("failed", "no"));
}

/// Runs a request in which the tasks in `failing` fail, and gives the tasks and
/// the answer.
fn run(request: Request, failing: &[Task]) -> (Vec<Task>, Option<ApiFailure>) {
    let mut tasks = vec![];
    let mut task = request.first_task();
    for _ in 0..10 {
        tasks.push(task);
        match request.next(task, !failing.contains(&task)) {
            Next::Do(next) => task = next,
            Next::Done => return (tasks, None),
            Next::Refuse(failure) => return (tasks, Some(failure)),
        }
    }
    panic!("a request is answered");
}

#[test]
fn requests_run_through_their_tasks() {
    assert_eq!(
        run(Request::Configure, &[]),
        (vec![Task::Read, Task::Configure, Task::RecordSuccess], None)
    );
    for action in [ControlAction::Pause, ControlAction::Resume, ControlAction::Stop] {
        assert_eq!(
            run(Request::Control(action), &[]),
            (vec![Task::SetStatus, Task::RecordSuccess], None)
        );
    }
    assert_eq!(
        run(Request::Control(ControlAction::Trigger), &[Task::PersistEquity]),
        (
            vec![
                Task::Signal,
                Task::Execute,
                Task::NoteOrder,
                Task::PersistEquity,
                Task::RecordSuccess
            ],
            None
        )
    );
    assert_eq!(
        run(Request::Manual, &[Task::PersistEquity]),
        (
            vec![
                Task::Read,
                Task::Execute,
                Task::NoteOrder,
                Task::RecordSuccess,
                Task::PersistEquity
            ],
            None
        )
    );
}

#[test]
fn refused_requests_are_answered() {
    let trigger = Request::Control(ControlAction::Trigger);
    let pause = Request::Control(ControlAction::Pause);
    assert_eq!(run(Request::Configure, &[Task::Read]).1, Some(ApiFailure::BadRequest));
    assert_eq!(run(Request::Configure, &[Task::Configure]).1, Some(ApiFailure::BadRequest));
    assert_eq!(run(Request::Configure, &[Task::RecordSuccess]).1, Some(ApiFailure::Internal));
    assert_eq!(run(pause, &[Task::SetStatus]).1, Some(ApiFailure::Internal));
    assert_eq!(run(trigger, &[Task::Signal]).1, Some(ApiFailure::Conflict));
    for request in [trigger, Request::Manual] {
        for failing in [&[Task::Execute][..], &[Task::Execute, Task::RecordFailure][..]] {
            let (tasks, answer) = run(request, failing);
            assert_eq!(tasks.last(), Some(&Task::RecordFailure));
            assert_eq!(answer, Some(ApiFailure::Unprocessable));
        }
        assert_eq!(run(request, &[Task::NoteOrder]).1, Some(ApiFailure::Internal));
    }
    assert_eq!(run(Request::Manual, &[Task::Read]).1, Some(ApiFailure::BadRequest));
}

#[test]
fn live_books_are_read_and_aligned() {
    let b = try_read_book(&raw("99.5", "100")).unwrap().unwrap();
    assert_eq!((b.bid, b.ask, b.bid_qty), (d("99.5"), d("100"), d("3")));
    assert_eq!(b.mid(), d("99.75"));
    assert_eq!(try_read_book(&raw("x", "100")).unwrap().unwrap_err(), "bad bid");
    assert_eq!(try_read_book(&raw("99", "")).unwrap().unwrap_err(), "bad ask");
    assert_eq!(
        try_read_book(&raw("0", "100")).unwrap().unwrap_err(),
        "empty book from binance"
    );
    let b = try_align_book(d("100.567"), d("0"), d("100.567"), d("1")).unwrap().unwrap();
    assert!(b.bid < b.ask);
    assert_eq!(read_last_price(Some("7.5".to_string())), Ok(d("7.5")));
    assert_eq!(read_last_price(None).unwrap_err(), "bad last price");
    assert_eq!(
        book_url("SOLUSDT"),
        "https://api.binance.com/api/v3/ticker/bookTicker?symbol=SOLUSDT"
    );
    assert_eq!(
        price_url("SOLUSDT"),
        "https://api.binance.com/api/v3/ticker/price?symbol=SOLUSDT"
    );
    let t: BookTicker = book().ticker(&InstrumentId::new("SOL-USDT"), 5);
    assert_eq!((t.bid_price, t.occurred_at), (d("99.5"), 5));
    assert_eq!(book().top(6).at, 6);
}

/// Drives a loop to its end and counts fetches, quotes, configurations, intents
/// and settlements.
fn drive(l: &mut DemoLoop, live: bool, running: bool, wants: u64) -> [u32; 5] {
    let mut counts = [0u32; 5];
    let mut event = DemoEvent::Start;
    for _ in 0..1000 {
        event = match l.try_step(event).unwrap() {
            DemoAction::Fetch { .. } => {
                counts[0] += 1;
                if live {
                    DemoEvent::Book(book())
                } else {
                    DemoEvent::NoBook
                }
            }
            DemoAction::Mix { .. } => DemoEvent::Mid(d("100")),
            DemoAction::Show { quote, pause } => {
                counts[1] += 1;
                assert_eq!(pause, live);
                assert!(quote.bid < quote.ask);
                DemoEvent::Shown { fills: 2, revision: 5, running }
            }
            DemoAction::Configure { revision } => {
                counts[2] += 1;
                assert_eq!(revision, 5);
                DemoEvent::Configured
            }
            DemoAction::Ask => {
                assert!(running);
                DemoEvent::Intents(wants)
            }
            DemoAction::Execute { intent } => {
                counts[3] += 1;
                assert!(intent < wants);
                DemoEvent::Executed { placed: intent == 0 }
            }
            DemoAction::Settle { .. } => {
                counts[4] += 1;
                DemoEvent::TickOver
            }
            DemoAction::Finish => return counts,
            DemoAction::Ignore => panic!("every event is expected"),
        };
    }
    panic!("the loop ends");
}

#[test]
fn a_demo_runs_its_ticks_and_ends() {
    let mut l = DemoLoop::new(false, 1, 0);
    // the first book of the warm-up is the first tick's
    assert_eq!(drive(&mut l, true, true, 3), [TOTAL_TICKS, TOTAL_TICKS, 1, 48, TOTAL_TICKS]);
    let mut rt = runtime();
    rt.try_on_live_book(&book(), 1).unwrap();
    let r = l.try_report(&rt, "x.db").unwrap();
    assert_eq!((r.intents, r.orders, r.fills), (48, 16, 32));
    assert_eq!((r.live_ticks, r.total_ticks), (16, 16));
    assert!(r.to_text().contains("price feed        : Binance SOLUSDT (16/16)\n"));
}

#[test]
fn without_a_feed_the_demo_stays_synthetic() {
    let mut l = DemoLoop::new(false, 5, 0);
    assert_eq!(drive(&mut l, false, true, 1), [3, TOTAL_TICKS, 0, TOTAL_TICKS, TOTAL_TICKS]);
}

#[test]
fn a_served_demo_waits_for_the_feed() {
    let mut l = DemoLoop::new(true, 5, 0);
    assert_eq!(drive(&mut l, false, true, 1), [3 + TOTAL_TICKS, 0, 0, 0, TOTAL_TICKS]);
}

#[test]
fn a_paused_strategy_is_not_asked() {
    let mut l = DemoLoop::new(false, 1, 0);
    assert_eq!(drive(&mut l, true, false, 9), [TOTAL_TICKS, TOTAL_TICKS, 1, 0, TOTAL_TICKS]);
}

#[test]
fn an_event_out_of_turn_is_ignored() {
    let mut l = DemoLoop::new(false, 1, 0);
    assert!(matches!(l.try_step(DemoEvent::TickOver), Some(DemoAction::Ignore)));
    assert!(matches!(l.try_step(DemoEvent::Start), Some(DemoAction::Fetch { pause: false })));
    assert!(matches!(l.try_step(DemoEvent::Start), Some(DemoAction::Ignore)));
}

#[test]
fn a_demo_reports() {
    let mut rt = runtime();
    let now = tux::ids::now_ms();
    rt.try_on_live_book(&book(), now).unwrap();
    let l = DemoLoop::new(true, 1, 2);
    let r = l.try_report(&rt, "x.db").unwrap();
    assert_eq!((r.intents, r.orders, r.fills, r.restored_orders), (0, 0, 0, 2));
    assert_eq!(r.final_quote, d("10000"));
    assert_eq!(r.final_base, d("0"));
    let text = r.to_text();
    assert!(text.contains("intents processed : 0\n"));
    assert!(text.contains("quote balance     : 10000\n"));
    assert!(text.contains("sqlite db         : x.db\n"));
    assert_eq!(config_version(12).as_str(), "cfg-12");
    assert_eq!(started().action, "runtime_start");
    let o = stored_order("o9", OrderStatus::Filled);
    assert_eq!(signal_succeeded(&o).detail, "created order o9 (filled)");
    assert_eq!(signal_failed(&TuxError::other("no")).status, "failed");
    let q = try_synthetic_quote(d("100")).unwrap();
    assert!(q.bid < q.ask);
}

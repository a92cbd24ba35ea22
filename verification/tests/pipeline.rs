use tux::decimal::Decimal;
use tux::domain::{
    Balance, ExecutionPort, Instrument, InstrumentId, MarginMode, Order, OrderIntent, OrderSide,
    OrderStatus, OrderType, Position, PositionMode, PositionSide, ReduceOnly, RiskDecision,
    RiskLimitConfig, TimeInForce,
};
use tux::events::{BookTicker, BusEvent, InMemoryEventBus, MarketEvent};
use tux::exchange::ratelimit::{backoff_ms, RateLimiter};
use tux::ids::{
    now_ms, AccountId, ClientOrderId, IntentId, OrderId, StrategyInstanceId, Venue,
};
use tux::market::{BookTop, MarketState};
use tux::oms::Oms;
use tux::portfolio::Portfolio;
use tux::risk::RiskEngine;
use tux::sim::{FillModel, PaperEngine};
use tux::table::Table;

fn d(s: &str) -> Decimal {
    Decimal::parse(s).unwrap()
}

fn sol() -> Instrument {
    Instrument::spot("SOL-USDT", Venue::LocalPaper, "SOL", "USDT", d("0.01"), d("0.001"))
}

fn book(bid: &str, bid_qty: &str, ask: &str, ask_qty: &str, at: i64) -> BookTop {
    BookTop {
        bid_price: d(bid),
        bid_qty: d(bid_qty),
        ask_price: d(ask),
        ask_qty: d(ask_qty),
        at,
    }
}

fn limit_buy(id: &str, px: &str, qty: &str) -> Order {
    let now = now_ms();
    Order {
        id: OrderId::from_raw(id),
        intent_id: None,
        client_order_id: ClientOrderId::from_raw(id),
        venue_order_id: None,
        account_id: AccountId::from("a"),
        strategy_instance_id: Some(StrategyInstanceId::from("s")),
        instrument_id: InstrumentId::new("SOL-USDT"),
        side: OrderSide::Buy,
        order_type: OrderType::Limit,
        time_in_force: TimeInForce::Gtc,
        status: OrderStatus::RiskApproved,
        price: Some(d(px)),
        quantity: d(qty),
        filled_quantity: Decimal::zero(),
        avg_fill_price: None,
        reduce_only: ReduceOnly::No,
        position_side: PositionSide::Both,
        reject_reason: None,
        created_at: now,
        updated_at: now,
    }
}

fn intent(px: Option<Decimal>, qty: Decimal) -> OrderIntent {
    OrderIntent {
        id: IntentId::new(),
        strategy_instance_id: StrategyInstanceId::from("s1"),
        account_id: AccountId::from("a1"),
        instrument_id: InstrumentId::new("SOL-USDT"),
        side: OrderSide::Buy,
        order_type: if px.is_some() { OrderType::Limit } else { OrderType::Market },
        time_in_force: TimeInForce::Gtc,
        price: px,
        quantity: qty,
        reduce_only: ReduceOnly::No,
        position_side: PositionSide::Both,
        leverage: None,
        client_order_id: ClientOrderId::from("c1"),
        reason: None,
        created_at: 0,
    }
}

fn cfg() -> RiskLimitConfig {
    RiskLimitConfig {
        instrument_whitelist: vec![InstrumentId::new("SOL-USDT")],
        max_order_notional: Some(d("1000")),
        max_market_age_ms: Some(60_000),
        consecutive_reject_limit: None,
        ..Default::default()
    }
}

#[test]
fn gross_exposure_is_not_abs_net() {
    let acc = AccountId::from("a1");
    let inst = sol();
    let mut p = Portfolio::new();
    // 1 SOL spot long @ 100 = +100 notional
    p.seed_balance(Balance {
        account_id: acc.clone(),
        asset: "SOL".to_string(),
        free: d("1"),
        locked: Decimal::zero(),
        updated_at: 0,
    });
    // contract-style short -1 size * 1 multiplier * 100 = -100
    p.upsert_position(Position {
        account_id: acc.clone(),
        instrument_id: inst.id.clone(),
        position_mode: PositionMode::OneWay,
        margin_mode: MarginMode::Cross,
        position_side: PositionSide::Both,
        size: d("-1"),
        entry_price: d("100"),
        mark_price: d("100"),
        liquidation_price: None,
        leverage: d("1"),
        unrealized_pnl: Decimal::zero(),
        margin: Decimal::zero(),
        updated_at: 0,
    });
    let exp = p.exposure(&acc, &inst, d("100"));
    assert_eq!(exp.net_notional, Decimal::zero());
    assert_eq!(exp.gross_notional, d("200"), "gross must not cancel");
}

#[test]
fn equity_is_mark_to_market() {
    let acc = AccountId::from("a1");
    let mut p = Portfolio::new();
    p.seed_balance(Balance {
        account_id: acc.clone(),
        asset: "USDT".to_string(),
        free: d("9949.975"),
        locked: Decimal::zero(),
        updated_at: 0,
    });
    p.seed_balance(Balance {
        account_id: acc.clone(),
        asset: "SOL".to_string(),
        free: d("0.5"),
        locked: Decimal::zero(),
        updated_at: 0,
    });
    let mut marks = Table::new();
    marks.insert("SOL".to_string(), d("100"));
    // 9949.975 + 0.5*100 = 9999.975  (NOT 9950.475)
    assert_eq!(p.equity_mtm(&acc, "USDT", &marks), d("9999.975"));
}

#[test]
fn apply_spot_fill_rejects_overdraft() {
    let acc = AccountId::from("a1");
    let inst = sol();
    let mut p = Portfolio::new();
    p.seed_balance(Balance {
        account_id: acc.clone(),
        asset: "USDT".to_string(),
        free: d("10"),
        locked: Decimal::zero(),
        updated_at: 0,
    });
    let err = p.apply_spot_fill(
        &acc,
        &inst,
        OrderSide::Buy,
        d("100"),
        d("1"),
        Decimal::zero(),
        "USDT",
    );
    assert!(err.is_err());
}

#[test]
fn market_order_uses_market_ref_for_notional() {
    let mut e = RiskEngine::new(cfg());
    let i = intent(None, d("10"));
    // mid=200 → notional 2000 > 1000
    let dec = e.check_intent(&i, &sol(), Some(d("200")), Some(1), &Portfolio::new());
    assert!(matches!(dec, RiskDecision::Rejected { rule, .. } if rule == "max_order_notional"));
}

#[test]
fn market_order_without_price_rejected() {
    let mut e = RiskEngine::new(cfg());
    let i = intent(None, d("1"));
    let dec = e.check_intent(&i, &sol(), None, Some(1), &Portfolio::new());
    assert!(
        matches!(dec, RiskDecision::Rejected { rule, .. } if rule == "missing_reference_price")
    );
}

#[test]
fn deny_all_when_whitelist_empty() {
    let mut e = RiskEngine::new(RiskLimitConfig {
        consecutive_reject_limit: None,
        ..Default::default()
    });
    let dec = e.check_intent(
        &intent(Some(d("100")), d("1")),
        &sol(),
        Some(d("100")),
        Some(1),
        &Portfolio::new(),
    );
    assert!(matches!(dec, RiskDecision::Rejected { rule, .. } if rule == "instrument_whitelist"));
}

#[test]
fn place_query_cancel_roundtrip() {
    let mut eng = PaperEngine::new(FillModel::immediate());
    let o = limit_buy("o1", "100", "1");
    let placed = eng.place_order(&o).unwrap();
    assert!(matches!(
        placed.status,
        OrderStatus::Acknowledged | OrderStatus::Filled | OrderStatus::PartiallyFilled
    ));
    let got = eng.query_order(&placed.id).unwrap();
    assert_eq!(got.id, placed.id);
    let c = eng.cancel_order(&placed.id).unwrap();
    assert_eq!(c.status, OrderStatus::Cancelled);
}

#[test]
fn marketable_limit_fills() {
    let mut eng = PaperEngine::new(FillModel::immediate());
    eng.on_book_top(&InstrumentId::new("SOL-USDT"), book("99", "10", "101", "10", now_ms()));
    let o = limit_buy("o2", "102", "1");
    let placed = eng.place_order(&o).unwrap();
    assert_eq!(placed.status, OrderStatus::Filled);
    assert_eq!(placed.filled_quantity, d("1"));
    assert_eq!(placed.avg_fill_price, Some(d("101")));
}

#[test]
fn l1_partial_fill() {
    let mut eng = PaperEngine::new(FillModel::l1());
    eng.on_book_top(&InstrumentId::new("SOL-USDT"), book("99", "10", "100", "0.4", now_ms()));
    let o = limit_buy("o3", "100", "1");
    let placed = eng.place_order(&o).unwrap();
    assert_eq!(placed.status, OrderStatus::PartiallyFilled);
    assert_eq!(placed.filled_quantity, d("0.4"));
}

#[test]
fn fok_all_or_none() {
    let mut eng = PaperEngine::new(FillModel::l1());
    eng.on_book_top(&InstrumentId::new("SOL-USDT"), book("99", "10", "100", "0.3", now_ms()));
    let mut o = limit_buy("fok1", "100", "1");
    o.time_in_force = TimeInForce::Fok;
    let placed = eng.place_order(&o).unwrap();
    assert_eq!(placed.status, OrderStatus::Cancelled);
    assert_eq!(placed.filled_quantity, Decimal::zero());
}

#[test]
fn ioc_cancels_remainder() {
    let mut eng = PaperEngine::new(FillModel::l1());
    eng.on_book_top(&InstrumentId::new("SOL-USDT"), book("99", "10", "100", "0.4", now_ms()));
    let mut o = limit_buy("ioc1", "100", "1");
    o.time_in_force = TimeInForce::Ioc;
    let placed = eng.place_order(&o).unwrap();
    assert_eq!(placed.status, OrderStatus::Cancelled);
    assert_eq!(placed.filled_quantity, d("0.4"));
}

#[test]
fn post_only_rests_then_maker_fill() {
    let mut eng = PaperEngine::new(FillModel::l1());
    let t0 = now_ms();
    eng.on_book_top(&InstrumentId::new("SOL-USDT"), book("99", "10", "100", "10", t0));
    let mut o = limit_buy("po1", "90", "1");
    o.order_type = OrderType::PostOnly;
    let placed = eng.place_order(&o).unwrap();
    assert_eq!(placed.status, OrderStatus::Acknowledged);
    eng.on_book_top(&InstrumentId::new("SOL-USDT"), book("89", "10", "90", "1", t0 + 1));
    let fills = eng.take_fills();
    assert_eq!(fills.len(), 1);
    assert!(fills[0].is_maker);
}

#[test]
fn post_only_rejects_cross() {
    let mut eng = PaperEngine::new(FillModel::immediate());
    eng.on_book_top(&InstrumentId::new("SOL-USDT"), book("99", "10", "100", "10", now_ms()));
    let mut o = limit_buy("po2", "100", "1");
    o.order_type = OrderType::PostOnly;
    let placed = eng.place_order(&o).unwrap();
    assert_eq!(placed.status, OrderStatus::Rejected);
}

#[test]
fn stop_rejected_unsupported() {
    let mut eng = PaperEngine::new(FillModel::immediate());
    let mut o = limit_buy("st1", "100", "1");
    o.order_type = OrderType::Stop;
    let placed = eng.place_order(&o).unwrap();
    assert_eq!(placed.status, OrderStatus::Rejected);
}

#[test]
fn limits_requests() {
    let mut rl = RateLimiter::new(2);
    assert!(rl.try_acquire());
    assert!(rl.try_acquire());
    assert!(!rl.try_acquire());
}

#[test]
fn backoff_grows() {
    assert_eq!(backoff_ms(0, 100, 10_000), 100);
    assert_eq!(backoff_ms(1, 100, 10_000), 200);
    assert_eq!(backoff_ms(20, 100, 10_000), 10_000);
}

#[test]
fn e2e_market_to_portfolio_fill() {
    let instrument = sol();
    let inst_id = instrument.id.clone();
    let account_id = AccountId::from("paper_acc");

    let bus = InMemoryEventBus::new();
    let mut sub = bus.subscribe();

    let mut market = MarketState::new();
    let mut portfolio = Portfolio::new();
    portfolio.seed_balance(Balance {
        account_id: account_id.clone(),
        asset: "USDT".to_string(),
        free: d("10000"),
        locked: Decimal::zero(),
        updated_at: now_ms(),
    });

    let limits = RiskLimitConfig {
        instrument_whitelist: vec![inst_id.clone()],
        max_order_notional: Some(d("5000")),
        max_market_age_ms: Some(60_000),
        consecutive_reject_limit: Some(3),
        ..Default::default()
    };
    let mut risk = RiskEngine::new(limits);
    risk.set_feeds_connected(true);

    let mut paper = PaperEngine::new(FillModel::immediate());
    let mut oms = Oms::new();

    // Market
    let top = book("99.50", "5", "100.00", "5", now_ms());
    let ticker = BookTicker {
        instrument_id: inst_id.clone(),
        bid_price: top.bid_price,
        bid_qty: top.bid_qty,
        ask_price: top.ask_price,
        ask_qty: top.ask_qty,
        occurred_at: top.at,
    };
    market.on_book_ticker(&ticker);
    paper.on_book_top(&inst_id, top.clone());
    bus.publish(BusEvent::Market(MarketEvent::BookTicker(ticker.clone()))).unwrap();
    assert!(sub.try_recv().is_ok(), "event bus must deliver, not drop");

    // Strategy intent (limit buy crossing the spread)
    let intent = OrderIntent {
        id: IntentId::new(),
        strategy_instance_id: StrategyInstanceId::from("s1"),
        account_id: account_id.clone(),
        instrument_id: inst_id.clone(),
        side: OrderSide::Buy,
        order_type: OrderType::Limit,
        time_in_force: TimeInForce::Gtc,
        price: Some(d("100.00")),
        quantity: d("0.5"),
        reduce_only: ReduceOnly::No,
        position_side: PositionSide::Both,
        leverage: None,
        client_order_id: ClientOrderId::from("e2e-1"),
        reason: Some("e2e".to_string()),
        created_at: now_ms(),
    };

    // Risk
    let market_ref = market.reference_price(&inst_id);
    let age = market.age_ms(&inst_id);
    let decision = risk.check_intent(&intent, &instrument, market_ref, age, &portfolio);
    assert!(decision.is_approved(), "{decision:?}");

    // OMS → Paper
    let order = oms.create_from_intent(&intent).unwrap();
    let placed = oms.submit(&order.id, &mut paper).unwrap();
    assert_eq!(placed.status, OrderStatus::Filled, "{placed:?}");
    assert_eq!(placed.filled_quantity, d("0.5"));

    // Paper query works
    let q = paper.query_order(&placed.id).unwrap();
    assert_eq!(q.id, placed.id);

    // Fills → Portfolio
    let fills = paper.take_fills();
    assert_eq!(fills.len(), 1);
    for fill in &fills {
        portfolio
            .apply_spot_fill(
                &account_id,
                &instrument,
                fill.side,
                fill.price,
                fill.quantity,
                fill.fee.amount,
                "USDT",
            )
            .unwrap();
    }
    let base = portfolio.balance(&account_id, "SOL").unwrap();
    assert_eq!(base.free, d("0.5"));
    let quote = portfolio.balance(&account_id, "USDT").unwrap();
    // 10000 - 100*0.5 - fee
    assert!(quote.free < d("9950") && quote.free > d("9949"), "quote={:?}", quote.free);
}

#[test]
fn e2e_market_order_notional_enforced() {
    let instrument = sol();
    let limits = RiskLimitConfig {
        instrument_whitelist: vec![instrument.id.clone()],
        max_order_notional: Some(d("50")),
        max_market_age_ms: Some(60_000),
        consecutive_reject_limit: None,
        ..Default::default()
    };
    let mut risk = RiskEngine::new(limits);
    let portfolio = Portfolio::new();

    // Market buy 1 @ ref 100 → notional 100 > 50
    let intent = OrderIntent {
        id: IntentId::new(),
        strategy_instance_id: StrategyInstanceId::from("s1"),
        account_id: AccountId::from("a"),
        instrument_id: instrument.id.clone(),
        side: OrderSide::Buy,
        order_type: OrderType::Market,
        time_in_force: TimeInForce::Ioc,
        price: None,
        quantity: d("1"),
        reduce_only: ReduceOnly::No,
        position_side: PositionSide::Both,
        leverage: None,
        client_order_id: ClientOrderId::from("m1"),
        reason: None,
        created_at: now_ms(),
    };
    let dec = risk.check_intent(&intent, &instrument, Some(d("100")), Some(1), &portfolio);
    match dec {
        RiskDecision::Rejected { rule, .. } => assert_eq!(rule, "max_order_notional"),
        other => panic!("expected reject, got {other:?}"),
    }

    // Without market ref → cannot compute notional → reject (no bypass)
    let dec2 = risk.check_intent(&intent, &instrument, None, Some(1), &portfolio);
    match dec2 {
        RiskDecision::Rejected { rule, .. } => assert_eq!(rule, "missing_reference_price"),
        other => panic!("expected reject, got {other:?}"),
    }
}

#[test]
fn e2e_cancel_resting_limit_order() {
    let mut paper = PaperEngine::new(FillModel::immediate());
    let now = now_ms();
    let order = Order {
        id: OrderId::from_raw("ord_cancel"),
        intent_id: None,
        client_order_id: ClientOrderId::from_raw("cxl-1"),
        venue_order_id: None,
        account_id: AccountId::from("a"),
        strategy_instance_id: None,
        instrument_id: InstrumentId::new("SOL-USDT"),
        side: OrderSide::Buy,
        order_type: OrderType::Limit,
        time_in_force: TimeInForce::Gtc,
        status: OrderStatus::RiskApproved,
        price: Some(d("10")), // far below market — rests
        quantity: d("1"),
        filled_quantity: Decimal::zero(),
        avg_fill_price: None,
        reduce_only: ReduceOnly::No,
        position_side: PositionSide::Both,
        reject_reason: None,
        created_at: now,
        updated_at: now,
    };
    paper.on_book_top(&InstrumentId::new("SOL-USDT"), book("99", "1", "100", "1", now));
    let placed = paper.place_order(&order).unwrap();
    assert_eq!(placed.status, OrderStatus::Acknowledged);
    let cancelled = paper.cancel_order(&placed.id).unwrap();
    assert_eq!(cancelled.status, OrderStatus::Cancelled);
}

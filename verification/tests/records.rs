use tux::decimal::Decimal;
use tux::domain::{
    Balance, Fee, FeeSide, Fill, InstrumentId, MarginMode, Order, OrderIntent, OrderSide,
    OrderStatus, OrderType, Position, PositionMode, PositionSide, ReduceOnly, StrategyConfig, TimeInForce,
};
use tux::events::{
    delivery, BookTicker, BusEvent, EventEnvelope, InMemoryEventBus, MarketEvent, TradeTick,
};
use tux::exchange::binance::BinanceAdapter;
use tux::exchange::okx::OkxAdapter;
use tux::exchange::reconcile::{ReconcileReport, Reconciler};
use tux::ids::{
    AccountId, ClientOrderId, ConfigVersionId, Environment, EventSeq, FillId, IntentId,
    MarketContext, OrderId, Product, StrategyInstanceId, Venue,
};
use tux::portfolio::{AccountingEvent, PnLBook};
use tux::store::{
    count_open, fill_record, is_recoverable_text, ledger_kind, order_record, order_side_from_str,
    overview, side_str, status_is_active, stored_balance, stored_equity, stored_number,
    stored_price, type_str, EquityPoint,
};
use tux::strategy::{OneShotBuyStrategy, StopReason, Strategy, StrategyContext, StrategyHost, StrategyState};

fn d(s: &str) -> Decimal {
    Decimal::parse(s).unwrap()
}

fn order(id: &str) -> Order {
    Order {
        id: OrderId::from_raw(id),
        intent_id: Some(IntentId::from("i")),
        client_order_id: ClientOrderId::from_raw("c"),
        venue_order_id: None,
        account_id: AccountId::from("acc"),
        strategy_instance_id: Some(StrategyInstanceId::from("s")),
        instrument_id: InstrumentId::new("SOL-USDT"),
        side: OrderSide::Sell,
        order_type: OrderType::PostOnly,
        time_in_force: TimeInForce::Gtc,
        status: OrderStatus::PartiallyFilled,
        price: Some(d("100.50")),
        quantity: d("1"),
        filled_quantity: d("0.4"),
        avg_fill_price: None,
        reduce_only: ReduceOnly::No,
        position_side: PositionSide::Both,
        reject_reason: Some("why".to_string()),
        created_at: 5,
        updated_at: 6,
    }
}

fn fill() -> Fill {
    Fill {
        id: FillId::from("f"),
        account_id: AccountId::from("acc"),
        instrument_id: InstrumentId::new("SOL-USDT"),
        order_id: OrderId::from("o"),
        venue_order_id: None,
        trade_id: "t".to_string(),
        side: OrderSide::Buy,
        position_side: PositionSide::Both,
        price: d("100"),
        quantity: d("0.5"),
        fee: Fee {
            asset: "USDT".to_string(),
            amount: d("0.025"),
            side: FeeSide::Quote,
            is_maker: false,
            rate: None,
        },
        is_maker: false,
        occurred_at: 8,
    }
}

#[test]
fn orders_and_fills_become_rows() {
    let r = order_record(&order("o1"));
    assert_eq!(r.row.id, "o1");
    assert_eq!(r.row.side, "sell");
    assert_eq!(r.row.order_type, "post_only");
    assert_eq!(r.row.status, "partially_filled");
    assert_eq!(r.row.price.as_deref(), Some("100.50"));
    assert_eq!(r.row.filled_quantity, "0.4");
    assert_eq!(r.row.avg_fill_price, None);
    assert_eq!((r.row.created_at, r.updated_at), (5, 6));
    assert_eq!(r.strategy_id.as_deref(), Some("s"));
    assert_eq!(r.client_order_id, "c");
    assert_eq!(r.reject_reason.as_deref(), Some("why"));
    let f = fill_record(&fill());
    assert_eq!(f.account_id, "acc");
    assert_eq!((f.row.price.as_str(), f.row.fee_amount.as_str()), ("100", "0.025"));
    assert_eq!((f.row.side.as_str(), f.row.is_maker), ("buy", false));
}

#[test]
fn texts_go_both_ways() {
    for s in [OrderSide::Buy, OrderSide::Sell] {
        assert_eq!(order_side_from_str(side_str(&s)), s);
    }
    assert_eq!(order_side_from_str("\"sell\""), OrderSide::Sell);
    assert_eq!(order_side_from_str("?"), OrderSide::Buy);
    assert_eq!(type_str(&OrderType::Stop), "stop");
    assert!(status_is_active(&OrderStatus::Submitted));
    assert!(!status_is_active(&OrderStatus::Filled));
    assert!(is_recoverable_text(OrderStatus::Acknowledged.as_str()));
    assert!(!is_recoverable_text("filled"));
    let states =
        vec!["acknowledged".to_string(), "filled".to_string(), "partially_filled".to_string()];
    assert_eq!(count_open(&states), 2);
}

#[test]
fn stored_numbers_that_cannot_be_read_are_zero() {
    assert_eq!(stored_number("1.25"), d("1.25"));
    assert_eq!(stored_number("?"), d("0"));
    let e = stored_equity(1, "acc".to_string(), "10", "x", "0.5");
    assert_eq!((e.equity, e.net_pnl, e.fees), (d("10"), d("0"), d("0.5")));
    let p = stored_price(2, "1", "3", "2");
    assert_eq!((p.ts, p.bid, p.ask, p.mid), (2, d("1"), d("3"), d("2")));
    let b = stored_balance("acc", "USDT".to_string(), "7", "1", 3);
    assert_eq!((b.free, b.locked, b.updated_at), (d("7"), d("1"), 3));
    assert_eq!(b.account_id.as_str(), "acc");
}

#[test]
fn an_overview_prefers_what_is_stored() {
    let mut book = PnLBook::new();
    book.apply_fee(d("2"));
    let last = EquityPoint {
        ts: 1,
        account_id: "acc".to_string(),
        equity: d("100"),
        net_pnl: d("-5"),
        fees: d("3"),
    };
    let o = overview("acc", Some(&book), true, 4, 9, Some(last), Some("101".to_string()));
    assert_eq!((o.open_orders, o.fills, o.kill_switch), (4, 9, true));
    assert_eq!(o.equity, d("100"));
    assert_eq!(o.net_pnl, d("-5"));
    assert_eq!(o.trading_fees, d("3"));
    let o = overview("acc", Some(&book), false, 0, 0, None, Some("101".to_string()));
    assert_eq!(o.equity, d("101"));
    let o = overview("acc", Some(&book), false, 0, 0, None, None);
    assert_eq!(o.net_pnl, d("-2"));
    assert_eq!(o.equity, d("0"));
    assert_eq!(o.trading_fees, d("2"));
}

#[test]
fn ledger_events_have_kinds() {
    let fee = AccountingEvent::Fee { asset: "USDT".to_string(), amount: d("1"), at: 4 };
    assert_eq!(ledger_kind(&fee), (4, "fee"));
    let applied = AccountingEvent::FillApplied { fill_id: "f".to_string(), at: 5 };
    assert_eq!(ledger_kind(&applied), (5, "fill_applied"));
    let manual = AccountingEvent::ManualAdjustment {
        asset: "USDT".to_string(),
        delta: d("1"),
        operator: "op".to_string(),
        note: "n".to_string(),
        at: 6,
    };
    assert_eq!(ledger_kind(&manual), (6, "manual_adjustment"));
}

#[test]
fn the_bus_delivers_to_all_and_says_when_none_listens() {
    let bus = InMemoryEventBus::new();
    let event = BusEvent::Halt { reason: "stop".to_string(), at: 1 };
    let e = bus.publish(event.clone()).unwrap_err();
    assert_eq!(e.to_text(), "event bus has no active subscribers; event not delivered");
    bus.publish_ignore_lag(event.clone());
    let mut a = bus.subscribe();
    let other = bus.clone();
    let mut b = other.subscribe();
    assert_eq!(bus.receiver_count(), 2);
    assert_eq!(other.publish(event).unwrap(), 2);
    for r in [&mut a, &mut b] {
        assert!(matches!(r.try_recv(), Ok(BusEvent::Halt { reason, at: 1 }) if reason == "stop"));
        assert!(r.try_recv().is_err());
    }
    drop(a);
    assert_eq!(bus.receiver_count(), 1);
    assert_eq!(delivery(Some(3)).unwrap(), 3);
    assert!(delivery(None).is_err());
}

#[test]
fn the_bus_keeps_its_capacity_for_a_slow_subscriber() {
    for (bus, sent, first) in [
        (InMemoryEventBus::new(), 1024i64, 0i64),
        (InMemoryEventBus::default(), 1025, 1),
    ] {
        let mut slow = bus.clone().subscribe();
        for at in 0..sent {
            assert_eq!(bus.publish(BusEvent::Halt { reason: String::new(), at }).unwrap(), 1);
        }
        if first > 0 {
            assert!(slow.try_recv().is_err());
        }
        for expected in first..sent {
            assert!(matches!(slow.try_recv(), Ok(BusEvent::Halt { at, .. }) if at == expected));
        }
        assert!(slow.try_recv().is_err());
    }
}

#[test]
fn a_subscriber_hears_only_its_own_bus() {
    let bus = InMemoryEventBus::new();
    let other = InMemoryEventBus::new();
    let early = BusEvent::Halt { reason: "early".to_string(), at: 1 };
    let mut first = bus.subscribe();
    assert_eq!(bus.publish(early).unwrap(), 1);
    let mut late = bus.subscribe();
    assert!(other.publish(BusEvent::Halt { reason: String::new(), at: 2 }).is_err());
    assert!(matches!(first.try_recv(), Ok(BusEvent::Halt { at: 1, .. })));
    assert!(first.try_recv().is_err());
    assert!(late.try_recv().is_err());
}

#[test]
fn envelopes_carry_their_context() {
    let context = MarketContext::new(Venue::Binance, Product::Spot, Environment::LocalPaper);
    let e = EventEnvelope::new_at(EventSeq(3), context, 7u32, 11);
    assert_eq!((e.seq, e.produced_at, e.payload), (EventSeq(3), 11, 7));
    assert_eq!(e.context.to_text(), "binance:spot:local_paper");
    let now = EventEnvelope::new(EventSeq(4), context, 1u32);
    assert!(now.produced_at > 1_600_000_000_000);
}

#[test]
fn order_differences_are_listed() {
    let named = |clid: &str| {
        let mut o = order("o");
        o.client_order_id = ClientOrderId::from(clid);
        o
    };
    let local = [named("a"), named("b")];
    let venue = [named("b"), named("c")];
    assert_eq!(
        Reconciler::diff_orders(&local, &venue),
        vec!["order only on venue: c".to_string(), "order only local: a".to_string()]
    );
    assert!(Reconciler::diff_orders(&local, &local).is_empty());
    let clean = ReconcileReport::default();
    assert!(clean.is_clean());
    let dirty = ReconcileReport { mismatches: vec!["x".to_string()], ..Default::default() };
    assert!(!dirty.is_clean());
}

#[test]
fn amount_differences_are_listed() {
    let b = |asset: &str, free: &str, locked: &str| Balance {
        account_id: AccountId::from("acc"),
        asset: asset.to_string(),
        free: d(free),
        locked: d(locked),
        updated_at: 0,
    };
    let local = [b("USDT", "10", "5"), b("SOL", "1", "0")];
    let venue = [b("USDT", "15.0", "0"), b("SOL", "2", "0")];
    let lines = Reconciler::diff_balances(&local, &venue);
    assert_eq!(lines, vec!["balance mismatch SOL: local=1 venue=2".to_string()]);
    let p = |size: &str| Position {
        account_id: AccountId::from("acc"),
        instrument_id: InstrumentId::new("SOL-USDT"),
        position_mode: PositionMode::OneWay,
        margin_mode: MarginMode::Cross,
        position_side: PositionSide::Both,
        size: d(size),
        entry_price: d("1"),
        mark_price: d("1"),
        liquidation_price: None,
        leverage: d("1"),
        unrealized_pnl: d("0"),
        margin: d("0"),
        updated_at: 0,
    };
    assert!(Reconciler::diff_positions(&[p("1")], &[p("1.0")]).is_empty());
    assert_eq!(
        Reconciler::diff_positions(&[p("1")], &[]),
        vec!["position mismatch SOL-USDT: local=1 venue=0".to_string()]
    );
}

#[test]
fn adapters_know_their_endpoints() {
    let okx = OkxAdapter::demo();
    assert_eq!(okx.simulated_header(), Some("1"));
    assert_eq!(okx.venue(), Venue::Okx);
    assert_eq!(OkxAdapter::production().simulated_header(), None);
    assert_eq!(okx.endpoints.ws_public, "wss://wspap.okx.com:8443/ws/v5/public");
    let b = BinanceAdapter::spot_testnet();
    assert_eq!(b.endpoints.rest_base, "https://testnet.binance.vision");
    assert_eq!(b.venue(), Venue::Binance);
    assert!(!b.endpoints.simulated);
    assert_eq!(BinanceAdapter::spot_production().endpoints.rest_base, "https://api.binance.com");
}

fn config(v: &str) -> StrategyConfig {
    StrategyConfig {
        version: ConfigVersionId::from(v),
        params: "null".to_string(),
        effective_event_seq: None,
        applied_at: None,
    }
}

fn tick() -> MarketEvent {
    MarketEvent::BookTicker(BookTicker {
        instrument_id: InstrumentId::new("SOL-USDT"),
        bid_price: d("99"),
        bid_qty: d("1"),
        ask_price: d("100"),
        ask_qty: d("1"),
        occurred_at: 1,
    })
}

fn context() -> StrategyContext {
    StrategyContext {
        instance_id: StrategyInstanceId::from("oneshot"),
        account_id: AccountId::from("paper_acc"),
        environment: Environment::LocalPaper,
        config: config("v1"),
    }
}

#[test]
fn the_one_shot_strategy_buys_once() {
    let mut host = StrategyHost::new(context(), OneShotBuyStrategy::new(d("0.5")));
    host.start().unwrap();
    let trade = MarketEvent::Trade(TradeTick {
        instrument_id: InstrumentId::new("SOL-USDT"),
        price: d("1"),
        qty: d("1"),
        is_buyer_maker: false,
        occurred_at: 1,
    });
    assert!(host.on_market(&trade).unwrap().is_empty());
    let intents = host.on_market(&tick()).unwrap();
    assert_eq!(intents.len(), 1);
    assert_eq!(intents[0].price, Some(d("100")));
    assert_eq!(intents[0].quantity, d("0.5"));
    assert_eq!(intents[0].account_id.as_str(), "paper_acc");
    assert_eq!(intents[0].reason.as_deref(), Some("oneshot buy"));
    assert!(intents[0].id.as_str().starts_with("int_"));
    assert_eq!(intents[0].id.as_str().len(), 36);
    assert!(intents[0].client_order_id.as_str().starts_with("clid_"));
    assert!(host.on_market(&tick()).unwrap().is_empty());
    assert!(host.on_timer(5).unwrap().is_empty());
    host.update_config(&config("v1"), &config("v2")).unwrap();
    assert_eq!(host.context.config.version.as_str(), "v2");
    host.stop(StopReason::Operator).unwrap();
}

struct Fussy;

impl Strategy for Fussy {
    fn on_start(&mut self, _context: &StrategyContext) -> tux::Result<()> {
        Err(tux::TuxError::other("not today"))
    }

    fn on_timer(&mut self, time: i64) -> tux::Result<Vec<OrderIntent>> {
        Err(tux::TuxError::other(if time == 5 { "five" } else { "late" }))
    }

    fn on_stop(&mut self, reason: StopReason) -> tux::Result<()> {
        Err(tux::TuxError::other(if reason == StopReason::Crash { "crash" } else { "stop" }))
    }

    fn on_config_update(&mut self, _old: &StrategyConfig, _new: &StrategyConfig) -> tux::Result<()> {
        Err(tux::TuxError::other("keep it"))
    }
}

#[test]
fn a_strategy_may_refuse() {
    let mut host = StrategyHost::new(context(), Fussy);
    assert_eq!(host.start().unwrap_err().to_text(), "not today");
    assert!(host.update_config(&config("v1"), &config("v2")).is_err());
    assert_eq!(host.context.config.version.as_str(), "v1");
    assert!(host.on_market(&tick()).unwrap().is_empty());
    assert_eq!(host.on_timer(5).unwrap_err().to_text(), "five");
    assert_eq!(host.stop(StopReason::Crash).unwrap_err().to_text(), "crash");
    assert_eq!(Fussy.snapshot(), "null");
    assert_eq!(StrategyState::default().data, "null");
}

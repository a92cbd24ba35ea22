use tux::decimal::Decimal;
use tux::domain::{
    ExecutionPort, FillModelKind, Instrument, InstrumentId, Order, OrderSide, OrderStatus, OrderType,
    PositionSide, ReduceOnly, TimeInForce,
};
use tux::ids::{AccountId, ClientOrderId, OrderId, Venue};
use tux::market::BookTop;
use tux::sim::{respects_liquidity, FillModel, PaperEngine};

fn d(s: &str) -> Decimal {
    Decimal::parse(s).unwrap()
}

fn sol() -> InstrumentId {
    InstrumentId::new("SOL-USDT")
}

fn book(bid: &str, bid_qty: &str, ask: &str, ask_qty: &str) -> BookTop {
    BookTop {
        bid_price: d(bid),
        bid_qty: d(bid_qty),
        ask_price: d(ask),
        ask_qty: d(ask_qty),
        at: 7,
    }
}

fn order(id: &str, side: OrderSide, px: Option<&str>, qty: &str) -> Order {
    Order {
        id: OrderId::from_raw(id),
        intent_id: None,
        client_order_id: ClientOrderId::from_raw(id),
        venue_order_id: None,
        account_id: AccountId::from("a"),
        strategy_instance_id: None,
        instrument_id: sol(),
        side,
        order_type: if px.is_some() { OrderType::Limit } else { OrderType::Market },
        time_in_force: TimeInForce::Gtc,
        status: OrderStatus::RiskApproved,
        price: px.map(d),
        quantity: d(qty),
        filled_quantity: Decimal::zero(),
        avg_fill_price: None,
        reduce_only: ReduceOnly::No,
        position_side: PositionSide::Both,
        reject_reason: None,
        created_at: 1,
        updated_at: 1,
    }
}

fn ruled(min_notional: Option<&str>) -> PaperEngine {
    let mut i =
        Instrument::spot("SOL-USDT", Venue::LocalPaper, "SOL", "USDT", d("0.01"), d("0.001"));
    i.min_notional = min_notional.map(d);
    let mut eng = PaperEngine::new(FillModel::immediate());
    eng.register_instrument(i);
    eng.on_book_top(&sol(), book("99", "10", "100", "10"));
    eng
}

fn refused(eng: &mut PaperEngine, o: &Order) -> String {
    let text = eng.place_order(o).unwrap_err().to_text();
    assert!(eng.take_fills().is_empty());
    assert!(eng.query_order(&o.id).is_err());
    text
}

#[test]
fn tick_step_and_minimum_are_enforced() {
    let mut eng = ruled(None);
    assert_eq!(
        refused(&mut eng, &order("a", OrderSide::Buy, Some("100.005"), "1")),
        "invalid order: price violates tick size"
    );
    assert_eq!(
        refused(&mut eng, &order("b", OrderSide::Sell, Some("0"), "1")),
        "invalid order: price violates tick size"
    );
    assert_eq!(
        refused(&mut eng, &order("c", OrderSide::Buy, Some("100.01"), "1.0005")),
        "invalid order: quantity violates step/min/max"
    );
    assert_eq!(
        refused(&mut eng, &order("d", OrderSide::Buy, None, "0")),
        "invalid order: quantity violates step/min/max"
    );
    let placed = eng.place_order(&order("e", OrderSide::Buy, Some("100.01"), "1.5")).unwrap();
    assert_eq!(placed.status, OrderStatus::Filled);
    assert_eq!(eng.take_fills().len(), 1);
}

#[test]
fn the_minimum_notional_is_enforced() {
    let mut eng = ruled(Some("10"));
    assert_eq!(
        refused(&mut eng, &order("a", OrderSide::Buy, Some("50"), "0.199")),
        "invalid order: below min notional"
    );
    // a market order goes by the touch
    assert_eq!(
        refused(&mut eng, &order("b", OrderSide::Buy, None, "0.099")),
        "invalid order: below min notional"
    );
    assert_eq!(
        refused(&mut eng, &order("c", OrderSide::Sell, None, "0.101")),
        "invalid order: below min notional"
    );
    let placed = eng.place_order(&order("d", OrderSide::Buy, None, "0.1")).unwrap();
    assert_eq!(placed.status, OrderStatus::Filled);
    let placed = eng.place_order(&order("e", OrderSide::Buy, Some("50"), "0.2")).unwrap();
    assert_eq!(placed.status, OrderStatus::Acknowledged);
}

#[test]
fn an_unknown_instrument_has_no_rules() {
    let mut eng = PaperEngine::new(FillModel::immediate());
    eng.on_book_top(&sol(), book("99", "10", "100", "10"));
    let placed = eng.place_order(&order("a", OrderSide::Buy, Some("100.005"), "1")).unwrap();
    assert_eq!(placed.status, OrderStatus::Filled);
    let mut other = ruled(None);
    let mut o = order("b", OrderSide::Buy, Some("1.005"), "1");
    o.instrument_id = InstrumentId::new("BTC-USDT");
    assert_eq!(other.place_order(&o).unwrap().status, OrderStatus::Acknowledged);
    // a stop order is turned down for being one
    let mut stop = order("c", OrderSide::Buy, Some("100.005"), "1");
    stop.order_type = OrderType::Stop;
    assert_eq!(other.place_order(&stop).unwrap().status, OrderStatus::Rejected);
}

#[test]
fn the_engine_says_what_it_can_take() {
    let eng = ruled(None);
    assert!(eng.takes(&order("a", OrderSide::Buy, Some("100"), "1")));
    // a refusal is an answer as well
    assert!(eng.takes(&order("b", OrderSide::Buy, Some("100.005"), "1")));
    assert!(!eng.takes(&order("c", OrderSide::Buy, Some("79228162514264337593543950335"), "1")));
}

#[test]
fn a_fill_carries_price_quantity_and_fee() {
    let mut eng = PaperEngine::new(FillModel::l1());
    assert!(eng.on_book_top(&sol(), book("99", "10", "100", "0.4")).is_empty());
    let placed =
        eng.try_place_order_at(&order("o", OrderSide::Buy, Some("101"), "1"), 50).unwrap().unwrap();
    assert_eq!(placed.status, OrderStatus::PartiallyFilled);
    assert_eq!(placed.venue_order_id.as_deref(), Some("paper_o"));
    assert_eq!(placed.updated_at, 50);
    let fills = eng.take_fills();
    assert_eq!(fills.len(), 1);
    let f = &fills[0];
    assert!(f.id.as_str().starts_with("fill_"));
    assert_eq!(f.trade_id, "pt_50");
    assert_eq!(f.price, d("100"));
    assert_eq!(f.quantity, d("0.4"));
    assert_eq!(f.fee.amount, d("0.02"));
    assert_eq!(f.fee.asset, "USDT");
    assert_eq!(f.fee.rate, Some(d("0.0005")));
    assert!(!f.is_maker);
    assert!(eng.take_fills().is_empty());
}

#[test]
fn resting_orders_share_the_displayed_size() {
    let mut eng = PaperEngine::new(FillModel::l1());
    for id in ["x", "y", "z"] {
        let p = eng.place_order(&order(id, OrderSide::Buy, Some("100"), "1")).unwrap();
        assert_eq!(p.status, OrderStatus::Acknowledged);
    }
    let fills = eng.on_book_top(&sol(), book("98", "5", "99", "1.5"));
    assert_eq!(fills.len(), 2);
    let total = fills[0].quantity.checked_add(fills[1].quantity).unwrap();
    assert_eq!(total, d("1.5"));
    for f in &fills {
        assert!(f.is_maker);
        assert_eq!(f.price, d("99"));
        assert_eq!(f.fee.rate, Some(d("0.0002")));
    }
    let first = eng.query_order(&fills[0].order_id).unwrap();
    assert_eq!(first.status, OrderStatus::Filled);
    let second = eng.query_order(&fills[1].order_id).unwrap();
    assert_eq!(second.status, OrderStatus::PartiallyFilled);
    assert_eq!(second.filled_quantity, d("0.5"));
}

#[test]
fn the_average_price_weighs_quantities() {
    let mut eng = PaperEngine::new(FillModel::l1());
    eng.on_book_top(&sol(), book("98", "5", "100", "1"));
    eng.place_order(&order("o", OrderSide::Buy, Some("100"), "4")).unwrap();
    eng.on_book_top(&sol(), book("98", "5", "96", "3"));
    let o = eng.query_order(&OrderId::from("o")).unwrap();
    assert_eq!(o.status, OrderStatus::Filled);
    assert_eq!(o.filled_quantity, d("4"));
    // (100*1 + 96*3) / 4
    assert_eq!(o.avg_fill_price, Some(d("97")));
}

#[test]
fn sells_match_the_bid() {
    let mut eng = PaperEngine::new(FillModel::immediate());
    eng.on_book_top(&sol(), book("99", "1", "100", "1"));
    let p = eng.place_order(&order("s", OrderSide::Sell, Some("98"), "2")).unwrap();
    assert_eq!(p.status, OrderStatus::Filled);
    assert_eq!(p.avg_fill_price, Some(d("99")));
    let p = eng.place_order(&order("r", OrderSide::Sell, Some("99.5"), "2")).unwrap();
    assert_eq!(p.status, OrderStatus::Acknowledged);
}

#[test]
fn market_orders_slip_or_are_rejected() {
    let mut model = FillModel::immediate();
    model.slippage = d("0.01");
    let mut eng = PaperEngine::new(model);
    let p = eng.place_order(&order("m0", OrderSide::Buy, None, "1")).unwrap();
    assert_eq!(p.status, OrderStatus::Rejected);
    assert_eq!(p.reject_reason.as_deref(), Some("no market reference price / liquidity"));
    eng.on_book_top(&sol(), book("90", "1", "100", "1"));
    let p = eng.place_order(&order("m1", OrderSide::Buy, None, "1")).unwrap();
    assert_eq!(p.avg_fill_price, Some(d("101")));
    let p = eng.place_order(&order("m2", OrderSide::Sell, None, "1")).unwrap();
    assert_eq!(p.avg_fill_price, Some(d("89.1")));
    // no bid: the mid does not exist either
    eng.on_book_top(&sol(), book("0", "1", "100", "1"));
    let p = eng.place_order(&order("m3", OrderSide::Sell, None, "1")).unwrap();
    assert_eq!(p.status, OrderStatus::Rejected);
}

#[test]
fn refusals_leave_the_engine_alone() {
    let mut eng = PaperEngine::new(FillModel::immediate());
    eng.place_order(&order("o", OrderSide::Buy, Some("10"), "1")).unwrap();
    let e = eng.place_order(&order("o", OrderSide::Buy, Some("10"), "1")).unwrap_err();
    assert_eq!(e.to_text(), "invalid order: duplicate client_order_id o");
    let mut nameless = order("p", OrderSide::Buy, Some("10"), "1");
    nameless.client_order_id = ClientOrderId::from("");
    let e = eng.place_order(&nameless).unwrap_err();
    assert_eq!(e.to_text(), "invalid order: client_order_id rejected");
    assert!(eng.query_order_blocking(&OrderId::from("p")).is_err());
    let long = "x".repeat(36);
    assert!(eng.validate_client_order_id(&ClientOrderId::from(long.as_str())));
    let longer = "x".repeat(37);
    assert!(!eng.validate_client_order_id(&ClientOrderId::from(longer.as_str())));
    // 36 bytes, not characters
    let wide = "ä".repeat(19);
    assert!(!eng.validate_client_order_id(&ClientOrderId::from(wide.as_str())));
    let e = eng.query_order(&OrderId::from("zz")).unwrap_err();
    assert_eq!(e.to_text(), "invalid order: paper order zz not found");
    let e = eng.cancel_order(&OrderId::from("zz")).unwrap_err();
    assert_eq!(e.to_text(), "invalid order: paper order zz not found");
}

#[test]
fn cancelling_ends_an_order_once() {
    let mut eng = PaperEngine::new(FillModel::immediate());
    eng.place_order(&order("o", OrderSide::Buy, Some("10"), "1")).unwrap();
    let c = eng.cancel_order_at(&OrderId::from("o"), 99).unwrap();
    assert_eq!((c.status, c.updated_at), (OrderStatus::Cancelled, 99));
    let again = eng.cancel_order_at(&OrderId::from("o"), 100).unwrap();
    assert_eq!(again.updated_at, 99);
    let mut odd = order("u", OrderSide::Buy, Some("10"), "1");
    odd.status = OrderStatus::Unknown;
    eng.restore_order(odd);
    let e = eng.cancel_order(&OrderId::from("u")).unwrap_err();
    assert_eq!(e.to_text(), "invalid order: cannot cancel order in unknown");
    // a finished order's client id may come again
    let mut fresh = order("o2", OrderSide::Buy, Some("10"), "1");
    fresh.client_order_id = ClientOrderId::from("o");
    assert!(eng.place_order(&fresh).is_ok());
}

#[test]
fn reasons_are_given() {
    let mut eng = PaperEngine::new(FillModel::l1());
    eng.on_book_top(&sol(), book("99", "10", "100", "0.3"));
    let mut stop = order("st", OrderSide::Buy, Some("100"), "1");
    stop.order_type = OrderType::Stop;
    assert_eq!(
        eng.place_order(&stop).unwrap().reject_reason.as_deref(),
        Some("stop orders not supported in paper MVP")
    );
    let mut post = order("po", OrderSide::Sell, Some("99"), "1");
    post.order_type = OrderType::PostOnly;
    let p = eng.place_order(&post).unwrap();
    assert_eq!(p.status, OrderStatus::Rejected);
    assert_eq!(p.reject_reason.as_deref(), Some("post_only would cross"));
    let mut fok = order("fok", OrderSide::Buy, Some("100"), "0.3");
    fok.time_in_force = TimeInForce::Fok;
    assert_eq!(eng.place_order(&fok).unwrap().status, OrderStatus::Filled);
    let mut fok2 = order("fok2", OrderSide::Buy, Some("100"), "0.4");
    fok2.time_in_force = TimeInForce::Fok;
    assert_eq!(
        eng.place_order(&fok2).unwrap().reject_reason.as_deref(),
        Some("fok: insufficient liquidity")
    );
    let mut ioc = order("ioc", OrderSide::Buy, Some("90"), "1");
    ioc.time_in_force = TimeInForce::Ioc;
    let p = eng.place_order(&ioc).unwrap();
    assert_eq!(p.status, OrderStatus::Cancelled);
    assert_eq!(p.reject_reason.as_deref(), Some("ioc remainder cancelled"));
}

#[test]
fn quantities_are_clipped_by_the_model() {
    assert_eq!(FillModel::immediate().clip_qty(d("3"), d("1")), Some(d("3")));
    assert_eq!(FillModel::l1().clip_qty(d("3"), d("1")), Some(d("1")));
    assert_eq!(FillModel::l1().clip_qty(d("3"), d("0")), Some(d("0")));
    assert_eq!(FillModel::queue(1).clip_qty(d("3"), d("0")), Some(d("0")));
    for seed in [0u64, 1, 2, 3, 42, u64::MAX] {
        let slot = (seed.rotate_left(17) ^ seed.wrapping_mul(0x9E37_79B9)) % 3;
        let share = match slot {
            0 => d("0.25"),
            1 => d("0.5"),
            _ => d("0.75"),
        };
        assert_eq!(FillModel::queue(seed).clip_qty(d("3"), d("1")), Some(share));
        assert_eq!(FillModel::queue(seed).clip_qty(d("0.1"), d("1")), Some(d("0.1")));
    }
    assert!(respects_liquidity(FillModelKind::L1));
    assert!(respects_liquidity(FillModelKind::Queue));
    assert!(!respects_liquidity(FillModelKind::Immediate));
    assert_eq!(FillModel::default().random_seed, 42);
}

#[test]
fn fillable_counts_what_crosses() {
    let m = FillModel::l1();
    let top = Some(book("99", "2", "100", "0.5"));
    assert_eq!(m.fillable_now(&order("a", OrderSide::Buy, Some("100"), "1"), &top), Some(d("0.5")));
    assert_eq!(m.fillable_now(&order("a", OrderSide::Buy, Some("99"), "1"), &top), Some(d("0")));
    assert_eq!(m.fillable_now(&order("a", OrderSide::Sell, None, "1"), &top), Some(d("1")));
    assert_eq!(m.fillable_now(&order("a", OrderSide::Sell, None, "1"), &None), Some(d("0")));
    assert_eq!(
        FillModel::immediate().fillable_now(&order("a", OrderSide::Sell, None, "1"), &None),
        Some(d("1"))
    );
}

#[test]
fn restored_orders_match_again() {
    let mut eng = PaperEngine::new(FillModel::immediate());
    let mut o = order("r", OrderSide::Buy, Some("100"), "1");
    o.status = OrderStatus::Acknowledged;
    eng.restore_order(o);
    let fills = eng.on_book_top(&sol(), book("98", "1", "99", "1"));
    assert_eq!(fills.len(), 1);
    assert_eq!(eng.query_order_blocking(&OrderId::from("r")).unwrap().status, OrderStatus::Filled);
    // other instruments are left alone
    let mut o = order("q", OrderSide::Buy, Some("100"), "1");
    o.status = OrderStatus::Acknowledged;
    o.instrument_id = InstrumentId::new("BTC-USDT");
    eng.restore_order(o);
    assert!(eng.on_book_top(&sol(), book("98", "1", "99", "1")).is_empty());
}

#[test]
fn trades_out_of_range_are_not_made() {
    let mut eng = PaperEngine::new(FillModel::immediate());
    let big = "79228162514264337593543950335";
    eng.on_book_top(&sol(), book("99", "1", big, "1"));
    let o = order("o", OrderSide::Buy, Some(big), big);
    assert!(eng.try_place_order_at(&o, 0).is_none());
    assert!(eng.query_order_blocking(&OrderId::from("o")).is_err());
}

#[test]
fn a_quote_touches_only_resting_orders_of_its_instrument() {
    let mut eng = PaperEngine::new(FillModel::l1());
    let mut done = order("done", OrderSide::Buy, Some("100"), "1");
    done.status = OrderStatus::Filled;
    eng.restore_order(done.clone());
    let mut other = order("other", OrderSide::Buy, Some("100"), "1");
    other.status = OrderStatus::Acknowledged;
    other.instrument_id = InstrumentId::new("BTC-USDT");
    eng.restore_order(other.clone());
    let mut rest = order("rest", OrderSide::Buy, Some("100"), "1");
    rest.status = OrderStatus::Acknowledged;
    eng.restore_order(rest);
    let fills = eng.try_on_book_top_at(&sol(), book("98", "1", "99", "1"), 5).unwrap();
    assert_eq!(fills.len(), 1);
    assert_eq!(fills[0].order_id.as_str(), "rest");
    assert_eq!(fills[0].instrument_id, sol());
    assert_eq!(eng.query_order_blocking(&OrderId::from("done")).unwrap(), done);
    assert_eq!(eng.query_order_blocking(&OrderId::from("other")).unwrap(), other);
}

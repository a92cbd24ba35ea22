use tux::decimal::Decimal;
use tux::domain::{
    Balance, Instrument, InstrumentId, MarginMode, OrderSide, Position, PositionMode, PositionSide,
};
use tux::events::{BookTicker, TradeTick};
use tux::ids::{now_ms, AccountId, Venue};
use tux::market::MarketState;
use tux::portfolio::{AccountingEvent, InstrumentIdKey, PnLBook, Portfolio};
use tux::table::Table;

fn d(s: &str) -> Decimal {
    Decimal::parse(s).unwrap()
}

fn sol() -> Instrument {
    Instrument::spot("SOL-USDT", Venue::LocalPaper, "SOL", "USDT", d("0.01"), d("0.001"))
}

fn acc() -> AccountId {
    AccountId::from("a1")
}

fn balance(account: &str, asset: &str, free: &str, locked: &str) -> Balance {
    Balance {
        account_id: AccountId::from(account),
        asset: asset.to_string(),
        free: d(free),
        locked: d(locked),
        updated_at: 0,
    }
}

fn free(p: &Portfolio, asset: &str) -> Decimal {
    p.balance(&acc(), asset).unwrap().free
}

#[test]
fn a_purchase_moves_quote_into_base() {
    let mut p = Portfolio::new();
    p.seed_balance(balance("a1", "USDT", "1000", "0"));
    p.seed_balance(balance("a2", "USDT", "7", "0"));
    p.try_apply_spot_fill_at(&acc(), &sol(), OrderSide::Buy, d("100"), d("2"), d("0.1"), "USDT", 55)
        .unwrap()
        .unwrap();
    assert_eq!(free(&p, "USDT"), d("799.9"));
    assert_eq!(free(&p, "SOL"), d("2"));
    assert_eq!(p.balance(&acc(), "SOL").unwrap().updated_at, 55);
    assert_eq!(p.balance(&AccountId::from("a2"), "USDT").unwrap().free, d("7"));
    assert!(p.position(&acc(), &InstrumentIdKey("SOL-USDT")).is_none());
    let book = p.pnl_book(&acc()).unwrap();
    assert_eq!(book.components.trading_fees, d("0.1"));
    assert_eq!(book.net_pnl(), d("-0.1"));
    let ledger = p.ledger();
    assert_eq!(ledger.len(), 2);
    assert!(ledger.iter().any(
        |e| matches!(e, AccountingEvent::Fee { asset, amount, at } if asset == "USDT" && *amount == d("0.1") && *at == 55)
    ));
    assert!(ledger.iter().any(
        |e| matches!(e, AccountingEvent::FillApplied { fill_id, at } if fill_id == "a1:SOL-USDT:55" && *at == 55)
    ));
}

#[test]
fn a_sale_moves_base_into_quote() {
    let mut p = Portfolio::new();
    p.seed_balance(balance("a1", "SOL", "3", "0"));
    p.apply_spot_fill(&acc(), &sol(), OrderSide::Sell, d("50"), d("2"), d("1"), "USDT").unwrap();
    assert_eq!(free(&p, "SOL"), d("1"));
    assert_eq!(free(&p, "USDT"), d("99"));
    assert_eq!(p.balances_for(&acc()).len(), 2);
}

#[test]
fn no_balance_goes_below_zero() {
    let mut p = Portfolio::new();
    p.seed_balance(balance("a1", "USDT", "10", "0"));
    p.seed_balance(balance("a1", "SOL", "1", "0"));
    let e = p
        .apply_spot_fill(&acc(), &sol(), OrderSide::Buy, d("100"), d("1"), d("0"), "USDT")
        .unwrap_err();
    assert_eq!(e.to_text(), "invalid order: insufficient 10 USDT for buy notional 100");
    let e = p
        .apply_spot_fill(&acc(), &sol(), OrderSide::Sell, d("100"), d("2"), d("0"), "USDT")
        .unwrap_err();
    assert_eq!(e.to_text(), "invalid order: insufficient 1 SOL for sell qty 2");
    // the fee counts too
    let e = p
        .apply_spot_fill(&acc(), &sol(), OrderSide::Buy, d("10"), d("1"), d("0.5"), "USDT")
        .unwrap_err();
    assert_eq!(e.to_text(), "invalid order: insufficient 10 USDT for buy notional 10");
    let e = p
        .apply_spot_fill(&acc(), &sol(), OrderSide::Sell, d("10"), d("1"), d("0.5"), "SOL")
        .unwrap_err();
    assert_eq!(e.to_text(), "invalid order: insufficient 1 SOL for fill and fee");
    assert_eq!(free(&p, "USDT"), d("10"));
    assert_eq!(free(&p, "SOL"), d("1"));
    assert!(p.ledger().is_empty());
}

#[test]
fn fills_out_of_range_change_nothing() {
    let mut p = Portfolio::new();
    let big = d("79228162514264337593543950335");
    p.seed_balance(balance("a1", "USDT", "10", "0"));
    let r = p.try_apply_spot_fill(&acc(), &sol(), OrderSide::Buy, big, big, d("0"), "USDT");
    assert!(r.is_none());
    assert_eq!(free(&p, "USDT"), d("10"));
}

#[test]
fn equity_counts_all_that_has_a_mark() {
    let mut p = Portfolio::new();
    p.seed_balance(balance("a1", "USDT", "10", "5"));
    p.seed_balance(balance("a1", "SOL", "2", "0"));
    p.seed_balance(balance("a1", "BTC", "9", "0"));
    p.seed_balance(balance("a2", "USDT", "1000", "0"));
    let mut marks = Table::new();
    marks.insert("SOL".to_string(), d("3"));
    assert_eq!(p.equity_mtm(&acc(), "USDT", &marks), d("21"));
    assert_eq!(p.equity(&acc()), d("15"));
}

#[test]
fn positions_are_found_by_account_and_instrument() {
    let mut p = Portfolio::new();
    let position = Position {
        account_id: acc(),
        instrument_id: InstrumentId::new("SOL-USDT"),
        position_mode: PositionMode::OneWay,
        margin_mode: MarginMode::Cross,
        position_side: PositionSide::Both,
        size: d("-2"),
        entry_price: d("100"),
        mark_price: d("90"),
        liquidation_price: None,
        leverage: d("1"),
        unrealized_pnl: d("0"),
        margin: d("0"),
        updated_at: 0,
    };
    p.upsert_position(position);
    assert_eq!(p.position(&acc(), &InstrumentIdKey("SOL-USDT")).unwrap().size, d("-2"));
    assert!(p.position(&acc(), &InstrumentIdKey("BTC-USDT")).is_none());
    p.seed_balance(balance("a1", "SOL", "1", "0"));
    let e = p.try_exposure_at(&acc(), &sol(), d("100"), 9).unwrap();
    // both are marked at the price asked about
    assert_eq!(e.net_notional, d("-100"));
    assert_eq!(e.gross_notional, d("300"));
    assert_eq!(e.updated_at, 9);
}

#[test]
fn books_add_up() {
    let mut b = PnLBook::new();
    b.apply_realized(d("10"));
    b.apply_fee(d("2"));
    b.apply_funding(d("0.5"));
    b.set_unrealized(d("99"));
    assert_eq!(b.components.unrealized_pnl, d("99"));
    assert_eq!(b.components.trading_fees, d("2"));
    assert_eq!(b.net_pnl(), d("8.5"));
    let mut p = Portfolio::new();
    p.pnl_mut(&acc()).apply_fee(d("1"));
    assert_eq!(p.pnl_book(&acc()).unwrap().net_pnl(), d("-1"));
    assert!(p.pnl_book(&AccountId::from("zz")).is_none());
}

#[test]
fn tables_hold_one_value_per_key() {
    let mut t = Table::new();
    t.insert("a".to_string(), 1u32);
    t.insert("b".to_string(), 2u32);
    t.insert("a".to_string(), 3u32);
    assert_eq!(t.len(), 2);
    assert_eq!(t.get("a"), Some(&3));
    assert_eq!(t.position("b"), Some(1));
    *t.value_at_mut(1) = 9;
    assert_eq!(t.get("b"), Some(&9));
    t.replace_at(0, 4);
    assert_eq!((t.key_at(0), t.value_at(0)), ("a", &4));
    t.remove("a");
    assert!(!t.contains("a"));
    assert_eq!(t.get("b"), Some(&9));
    t.remove("zz");
    assert_eq!(t.len(), 1);
}

fn tick(bid: &str, ask: &str, at: i64) -> BookTicker {
    BookTicker {
        instrument_id: InstrumentId::new("SOL-USDT"),
        bid_price: d(bid),
        bid_qty: d("1"),
        ask_price: d(ask),
        ask_qty: d("2"),
        occurred_at: at,
    }
}

#[test]
fn the_latest_quote_is_the_market() {
    let id = InstrumentId::new("SOL-USDT");
    let mut m = MarketState::new();
    assert!(m.top(&id).is_none());
    assert_eq!(m.reference_price(&id), None);
    assert!(m.is_stale_at(&id, u64::MAX, 0));
    m.on_trade(&TradeTick {
        instrument_id: id.clone(),
        price: d("97"),
        qty: d("1"),
        is_buyer_maker: false,
        occurred_at: 5,
    });
    assert_eq!(m.last_price(&id), Some(d("97")));
    assert_eq!(m.reference_price(&id), Some(d("97")));
    m.on_book_ticker(&tick("99", "101", 1_000));
    assert_eq!(m.mid(&id), Some(d("100")));
    assert_eq!(m.reference_price(&id), Some(d("100")));
    assert_eq!(m.age_ms_at(&id, 1_250), Some(250));
    assert!(!m.is_stale_at(&id, 250, 1_250));
    assert!(m.is_stale_at(&id, 249, 1_250));
    // a quote from the future has no age
    assert_eq!(m.age_ms_at(&id, 10), Some(0));
    m.on_book_ticker(&tick("0", "101", 2_000));
    assert_eq!(m.mid(&id), None);
    assert_eq!(m.reference_price(&id), Some(d("97")));
    assert_eq!(m.top(&id).unwrap().at, 2_000);
    assert!(m.mid(&InstrumentId::new("BTC-USDT")).is_none());
}

#[test]
fn the_clock_is_after_this_library() {
    let a = now_ms();
    let b = now_ms();
    assert!(a > 1_600_000_000_000);
    assert!(b - a < 60_000);
    let mut m = MarketState::new();
    m.on_book_ticker(&tick("99", "101", a));
    assert!(m.age_ms(&InstrumentId::new("SOL-USDT")).unwrap() < 60_000);
    assert!(!m.is_stale(&InstrumentId::new("SOL-USDT"), 60_000));
}

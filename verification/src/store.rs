//! What is persisted, and in what form.
//!
//! Numbers are stored as text, so that they come back as they were. Reading and
//! writing the database is up to the caller.

use vstd::prelude::*;
use vstd::string::*;

use crate::decimal::{Decimal, DecimalView};
use crate::decimal;
use crate::domain::{
    Balance, BalanceView, Fill, FillView, Order, OrderSide, OrderStatus, OrderType, OrderView,
};
use crate::ids::{AccountId, TimestampMs};
use crate::portfolio::{AccountingEvent, LedgerView, PnLBook};
use crate::text::{copy_text, same_text};
use crate::views;

verus! {

#[derive(Debug)]
pub struct EquityPoint {
    pub ts: TimestampMs,
    pub account_id: String,
    pub equity: Decimal,
    pub net_pnl: Decimal,
    pub fees: Decimal,
}

/// What a [`EquityPoint`] holds.
#[verifier::ext_equal]
pub struct EquityView {
    pub ts: TimestampMs,
    pub account_id: Seq<char>,
    pub equity: DecimalView,
    pub net_pnl: DecimalView,
    pub fees: DecimalView,
}

impl View for EquityPoint {
    type V = EquityView;

    open spec fn view(&self) -> EquityView {
        EquityView {
            ts: self.ts,
            account_id: self.account_id@,
            equity: self.equity@,
            net_pnl: self.net_pnl@,
            fees: self.fees@,
        }
    }
}

impl Clone for EquityPoint {
    fn clone(&self) -> (r: Self)
        ensures
            r == *self,
    {
        EquityPoint {
            ts: self.ts,
            account_id: self.account_id.clone(),
            equity: self.equity,
            net_pnl: self.net_pnl,
            fees: self.fees,
        }
    }
}

/// One market mid-price sample (for the price trend chart).
#[derive(Debug)]
pub struct PricePoint {
    pub ts: TimestampMs,
    pub bid: Decimal,
    pub ask: Decimal,
    pub mid: Decimal,
}

/// What a [`PricePoint`] holds.
#[verifier::ext_equal]
pub struct PriceView {
    pub ts: TimestampMs,
    pub bid: DecimalView,
    pub ask: DecimalView,
    pub mid: DecimalView,
}

impl View for PricePoint {
    type V = PriceView;

    open spec fn view(&self) -> PriceView {
        PriceView {
            ts: self.ts,
            bid: self.bid@,
            ask: self.ask@,
            mid: self.mid@,
        }
    }
}

impl Clone for PricePoint {
    fn clone(&self) -> (r: Self)
        ensures
            r == *self,
    {
        PricePoint {
            ts: self.ts,
            bid: self.bid,
            ask: self.ask,
            mid: self.mid,
        }
    }
}

#[derive(Debug)]
pub struct Overview {
    pub account_id: String,
    pub equity: Decimal,
    pub net_pnl: Decimal,
    pub gross_realized_pnl: Decimal,
    pub unrealized_pnl: Decimal,
    pub trading_fees: Decimal,
    pub funding_fees: Decimal,
    pub borrow_interest: Decimal,
    pub open_orders: u64,
    pub fills: u64,
    pub kill_switch: bool,
}

/// What a [`Overview`] holds.
#[verifier::ext_equal]
pub struct OverviewView {
    pub account_id: Seq<char>,
    pub equity: DecimalView,
    pub net_pnl: DecimalView,
    pub gross_realized_pnl: DecimalView,
    pub unrealized_pnl: DecimalView,
    pub trading_fees: DecimalView,
    pub funding_fees: DecimalView,
    pub borrow_interest: DecimalView,
    pub open_orders: u64,
    pub fills: u64,
    pub kill_switch: bool,
}

impl View for Overview {
    type V = OverviewView;

    open spec fn view(&self) -> OverviewView {
        OverviewView {
            account_id: self.account_id@,
            equity: self.equity@,
            net_pnl: self.net_pnl@,
            gross_realized_pnl: self.gross_realized_pnl@,
            unrealized_pnl: self.unrealized_pnl@,
            trading_fees: self.trading_fees@,
            funding_fees: self.funding_fees@,
            borrow_interest: self.borrow_interest@,
            open_orders: self.open_orders,
            fills: self.fills,
            kill_switch: self.kill_switch,
        }
    }
}

impl Clone for Overview {
    fn clone(&self) -> (r: Self)
        ensures
            r == *self,
    {
        Overview {
            account_id: self.account_id.clone(),
            equity: self.equity,
            net_pnl: self.net_pnl,
            gross_realized_pnl: self.gross_realized_pnl,
            unrealized_pnl: self.unrealized_pnl,
            trading_fees: self.trading_fees,
            funding_fees: self.funding_fees,
            borrow_interest: self.borrow_interest,
            open_orders: self.open_orders,
            fills: self.fills,
            kill_switch: self.kill_switch,
        }
    }
}

/// An order as it is listed.
#[derive(Debug)]
pub struct OrderRow {
    pub id: String,
    pub account_id: String,
    pub instrument_id: String,
    pub side: String,
    pub order_type: String,
    pub status: String,
    pub price: Option<String>,
    pub quantity: String,
    pub filled_quantity: String,
    pub avg_fill_price: Option<String>,
    pub created_at: TimestampMs,
}

/// What a [`OrderRow`] holds.
#[verifier::ext_equal]
pub struct OrderRowView {
    pub id: Seq<char>,
    pub account_id: Seq<char>,
    pub instrument_id: Seq<char>,
    pub side: Seq<char>,
    pub order_type: Seq<char>,
    pub status: Seq<char>,
    pub price: Option<Seq<char>>,
    pub quantity: Seq<char>,
    pub filled_quantity: Seq<char>,
    pub avg_fill_price: Option<Seq<char>>,
    pub created_at: TimestampMs,
}

impl View for OrderRow {
    type V = OrderRowView;

    open spec fn view(&self) -> OrderRowView {
        OrderRowView {
            id: self.id@,
            account_id: self.account_id@,
            instrument_id: self.instrument_id@,
            side: self.side@,
            order_type: self.order_type@,
            status: self.status@,
            price: views::opt_view(self.price),
            quantity: self.quantity@,
            filled_quantity: self.filled_quantity@,
            avg_fill_price: views::opt_view(self.avg_fill_price),
            created_at: self.created_at,
        }
    }
}

impl Clone for OrderRow {
    fn clone(&self) -> (r: Self)
        ensures
            r == *self,
    {
        OrderRow {
            id: self.id.clone(),
            account_id: self.account_id.clone(),
            instrument_id: self.instrument_id.clone(),
            side: self.side.clone(),
            order_type: self.order_type.clone(),
            status: self.status.clone(),
            price: match &self.price { Some(x) => Some(x.clone()), None => None },
            quantity: self.quantity.clone(),
            filled_quantity: self.filled_quantity.clone(),
            avg_fill_price: match &self.avg_fill_price { Some(x) => Some(x.clone()), None => None },
            created_at: self.created_at,
        }
    }
}

/// A fill as it is listed.
#[derive(Debug)]
pub struct FillRow {
    pub id: String,
    pub order_id: String,
    pub instrument_id: String,
    pub side: String,
    pub price: String,
    pub quantity: String,
    pub fee_asset: String,
    pub fee_amount: String,
    pub is_maker: bool,
    pub occurred_at: TimestampMs,
}

/// What a [`FillRow`] holds.
#[verifier::ext_equal]
pub struct FillRowView {
    pub id: Seq<char>,
    pub order_id: Seq<char>,
    pub instrument_id: Seq<char>,
    pub side: Seq<char>,
    pub price: Seq<char>,
    pub quantity: Seq<char>,
    pub fee_asset: Seq<char>,
    pub fee_amount: Seq<char>,
    pub is_maker: bool,
    pub occurred_at: TimestampMs,
}

impl View for FillRow {
    type V = FillRowView;

    open spec fn view(&self) -> FillRowView {
        FillRowView {
            id: self.id@,
            order_id: self.order_id@,
            instrument_id: self.instrument_id@,
            side: self.side@,
            price: self.price@,
            quantity: self.quantity@,
            fee_asset: self.fee_asset@,
            fee_amount: self.fee_amount@,
            is_maker: self.is_maker,
            occurred_at: self.occurred_at,
        }
    }
}

impl Clone for FillRow {
    fn clone(&self) -> (r: Self)
        ensures
            r == *self,
    {
        FillRow {
            id: self.id.clone(),
            order_id: self.order_id.clone(),
            instrument_id: self.instrument_id.clone(),
            side: self.side.clone(),
            price: self.price.clone(),
            quantity: self.quantity.clone(),
            fee_asset: self.fee_asset.clone(),
            fee_amount: self.fee_amount.clone(),
            is_maker: self.is_maker,
            occurred_at: self.occurred_at,
        }
    }
}

/// An order as it is written: what is listed of it, and the rest.
#[derive(Debug)]
pub struct OrderRecord {
    pub row: OrderRow,
    pub strategy_id: Option<String>,
    pub client_order_id: String,
    pub reject_reason: Option<String>,
    pub updated_at: TimestampMs,
}

/// A fill as it is written: what is listed of it, and whose it is.
#[derive(Debug)]
pub struct FillRecord {
    pub row: FillRow,
    pub account_id: String,
}

/// How a side is stored.
pub open spec fn side_text(s: OrderSide) -> Seq<char> {
    match s {
        OrderSide::Buy => "buy"@,
        OrderSide::Sell => "sell"@,
    }
}

pub fn side_str(s: &OrderSide) -> (r: &'static str)
    ensures
        r@ == side_text(*s),
{
    match s {
        OrderSide::Buy => "buy",
        OrderSide::Sell => "sell",
    }
}

/// How an order type is stored.
pub open spec fn type_text(t: OrderType) -> Seq<char> {
    match t {
        OrderType::Limit => "limit"@,
        OrderType::Market => "market"@,
        OrderType::PostOnly => "post_only"@,
        OrderType::Stop => "stop"@,
    }
}

pub fn type_str(t: &OrderType) -> (r: &'static str)
    ensures
        r@ == type_text(*t),
{
    match t {
        OrderType::Limit => "limit",
        OrderType::Market => "market",
        OrderType::PostOnly => "post_only",
        OrderType::Stop => "stop",
    }
}

/// The side that a stored text stands for: a sale where it says so, with or
/// without quotes, else a purchase.
pub open spec fn side_of_text(s: Seq<char>) -> OrderSide {
    if s == "sell"@ || s == "\"sell\""@ {
        OrderSide::Sell
    } else {
        OrderSide::Buy
    }
}

pub fn order_side_from_str(s: &str) -> (r: OrderSide)
    ensures
        r == side_of_text(s@),
{
    if same_text(s, "sell") || same_text(s, "\"sell\"") {
        OrderSide::Sell
    } else {
        OrderSide::Buy
    }
}

/// A stored side is read back as it was.
pub proof fn law_side_round_trip(s: OrderSide)
    ensures
        side_of_text(side_text(s)) == s,
{
    reveal_strlit("buy");
    reveal_strlit("sell");
    reveal_strlit("\"sell\"");
    assert("buy"@.len() == 3);
    assert("sell"@.len() == 4);
    assert("\"sell\""@.len() == 6);
}

/// Convenience used by status rendering.
pub fn status_is_active(status: &OrderStatus) -> (r: bool)
    ensures
        r == status.active(),
{
    status.is_active()
}

/// Whether an order in this state is taken up again after a restart.
pub open spec fn recoverable(s: OrderStatus) -> bool {
    s.active() || s == OrderStatus::Unknown || s == OrderStatus::RiskApproved
}

/// Whether a stored state is that of an order at work.
pub open spec fn active_text(s: Seq<char>) -> bool {
    ||| s == OrderStatus::Submitted.text()
    ||| s == OrderStatus::Acknowledged.text()
    ||| s == OrderStatus::PartiallyFilled.text()
    ||| s == OrderStatus::CancelPending.text()
}

/// Whether a stored state is one that is taken up again after a restart.
pub open spec fn recoverable_text(s: Seq<char>) -> bool {
    ||| active_text(s)
    ||| s == OrderStatus::Unknown.text()
    ||| s == OrderStatus::RiskApproved.text()
}

/// A stored state says of an order what the state itself says.
pub proof fn law_status_text(s: OrderStatus)
    ensures
        active_text(s.text()) == s.active(),
        recoverable_text(s.text()) == recoverable(s),
{
    reveal_strlit("created");
    reveal_strlit("risk_approved");
    reveal_strlit("submitted");
    reveal_strlit("acknowledged");
    reveal_strlit("partially_filled");
    reveal_strlit("filled");
    reveal_strlit("cancel_pending");
    reveal_strlit("cancelled");
    reveal_strlit("rejected");
    reveal_strlit("unknown");
    reveal_strlit("reconciled");
    assert("created"@[0] == 'c' && "created"@.len() == 7);
    assert("risk_approved"@.len() == 13);
    assert("submitted"@[0] == 's' && "submitted"@.len() == 9);
    assert("acknowledged"@.len() == 12);
    assert("partially_filled"@.len() == 16);
    assert("filled"@.len() == 6);
    assert("cancel_pending"@.len() == 14);
    assert("cancelled"@[0] == 'c' && "cancelled"@.len() == 9);
    assert("rejected"@.len() == 8);
    assert("unknown"@[0] == 'u' && "unknown"@.len() == 7);
    assert("reconciled"@.len() == 10);
}

fn is_active_text(s: &str) -> (r: bool)
    ensures
        r == active_text(s@),
{
    same_text(s, OrderStatus::Submitted.as_str()) || same_text(
        s,
        OrderStatus::Acknowledged.as_str(),
    ) || same_text(s, OrderStatus::PartiallyFilled.as_str()) || same_text(
        s,
        OrderStatus::CancelPending.as_str(),
    )
}

/// Whether an order stored in this state is taken up again after a restart.
pub fn is_recoverable_text(s: &str) -> (r: bool)
    ensures
        r == recoverable_text(s@),
{
    is_active_text(s) || same_text(s, OrderStatus::Unknown.as_str()) || same_text(
        s,
        OrderStatus::RiskApproved.as_str(),
    )
}

/// How many of the first `n` stored states are those of orders at work.
pub open spec fn open_count(states: Seq<Seq<char>>, n: int) -> nat
    decreases n,
{
    if n <= 0 {
        0
    } else if active_text(states[n - 1]) {
        open_count(states, n - 1) + 1
    } else {
        open_count(states, n - 1)
    }
}

/// How many of the stored states are those of orders at work.
pub fn count_open(states: &Vec<String>) -> (r: u64)
    ensures
        r == open_count(views::seq_view(states@), states@.len() as int),
{
    let ghost all = views::seq_view(states@);
    let mut n: u64 = 0;
    let mut i: usize = 0;
    while i < states.len()
        invariant
            i <= states@.len(),
            all == views::seq_view(states@),
            n == open_count(all, i as int),
            n <= i,
        decreases states@.len() - i,
    {
        if is_active_text(states[i].as_str()) {
            n = n + 1;
        }
        i = i + 1;
    }
    n
}

/// The text of an optional number.
pub open spec fn opt_number(o: Option<DecimalView>) -> Option<Seq<char>> {
    match o {
        Some(d) => Some(d.text()),
        None => None,
    }
}

fn opt_number_text(o: Option<Decimal>) -> (r: Option<String>)
    ensures
        views::opt_view(r) == opt_number(views::opt_view(o)),
{
    match o {
        Some(d) => Some(d.to_text()),
        None => None,
    }
}

/// An order as it is written.
pub fn order_record(o: &Order) -> (r: OrderRecord)
    ensures
        r.row@ == (OrderRowView {
            id: o@.id,
            account_id: o@.account_id,
            instrument_id: o@.instrument_id,
            side: side_text(o@.side),
            order_type: type_text(o@.order_type),
            status: o@.status.text(),
            price: opt_number(o@.price),
            quantity: o@.quantity.text(),
            filled_quantity: o@.filled_quantity.text(),
            avg_fill_price: opt_number(o@.avg_fill_price),
            created_at: o@.created_at,
        }),
        views::opt_view(r.strategy_id) == o@.strategy_instance_id,
        r.client_order_id@ == o@.client_order_id,
        views::opt_view(r.reject_reason) == o@.reject_reason,
        r.updated_at == o@.updated_at,
{
    OrderRecord {
        row: OrderRow {
            id: o.id.as_str().to_owned(),
            account_id: o.account_id.as_str().to_owned(),
            instrument_id: o.instrument_id.as_str().to_owned(),
            side: side_str(&o.side).to_owned(),
            order_type: type_str(&o.order_type).to_owned(),
            status: o.status.as_str().to_owned(),
            price: opt_number_text(o.price),
            quantity: o.quantity.to_text(),
            filled_quantity: o.filled_quantity.to_text(),
            avg_fill_price: opt_number_text(o.avg_fill_price),
            created_at: o.created_at,
        },
        strategy_id: match &o.strategy_instance_id {
            Some(s) => Some(s.as_str().to_owned()),
            None => None,
        },
        client_order_id: o.client_order_id.as_str().to_owned(),
        reject_reason: copy_text(&o.reject_reason),
        updated_at: o.updated_at,
    }
}

/// A fill as it is written.
pub fn fill_record(f: &Fill) -> (r: FillRecord)
    ensures
        r.row@ == (FillRowView {
            id: f@.id,
            order_id: f@.order_id,
            instrument_id: f@.instrument_id,
            side: side_text(f@.side),
            price: f@.price.text(),
            quantity: f@.quantity.text(),
            fee_asset: f@.fee.asset,
            fee_amount: f@.fee.amount.text(),
            is_maker: f@.is_maker,
            occurred_at: f@.occurred_at,
        }),
        r.account_id@ == f@.account_id,
{
    FillRecord {
        row: FillRow {
            id: f.id.as_str().to_owned(),
            order_id: f.order_id.as_str().to_owned(),
            instrument_id: f.instrument_id.as_str().to_owned(),
            side: side_str(&f.side).to_owned(),
            price: f.price.to_text(),
            quantity: f.quantity.to_text(),
            fee_asset: f.fee.asset.clone(),
            fee_amount: f.fee.amount.to_text(),
            is_maker: f.is_maker,
            occurred_at: f.occurred_at,
        },
        account_id: f.account_id.as_str().to_owned(),
    }
}

/// When a ledger event happened, and what kind it is.
pub open spec fn ledger_entry(e: LedgerView) -> (TimestampMs, Seq<char>) {
    match e {
        LedgerView::Fee { at, .. } => (at, "fee"@),
        LedgerView::FillApplied { at, .. } => (at, "fill_applied"@),
        LedgerView::ManualAdjustment { at, .. } => (at, "manual_adjustment"@),
    }
}

/// When a ledger event happened, and what kind it is.
pub fn ledger_kind(event: &AccountingEvent) -> (r: (TimestampMs, &'static str))
    ensures
        r.0 == ledger_entry(event@).0,
        r.1@ == ledger_entry(event@).1,
{
    match event {
        AccountingEvent::Fee { at, .. } => (*at, "fee"),
        AccountingEvent::FillApplied { at, .. } => (*at, "fill_applied"),
        AccountingEvent::ManualAdjustment { at, .. } => (*at, "manual_adjustment"),
    }
}

/// The number that a stored text stands for, zero where it stands for none.
pub open spec fn number_of(s: Seq<char>) -> DecimalView {
    match decimal::parsed_decimal(s) {
        Some(d) => d,
        None => DecimalView::zero(),
    }
}

/// Whether a stored text is read as what was written: the text of a number
/// gives that number back, a negative zero without its sign.
pub open spec fn reads_back(s: Seq<char>, r: DecimalView) -> bool {
    forall|d: DecimalView|
        d.wf() && s == #[trigger] d.text() ==> r == DecimalView::of(d.mantissa, d.scale)
}

/// The number that a stored text stands for, zero where it stands for none.
pub fn stored_number(s: &str) -> (r: Decimal)
    ensures
        r@ == number_of(s@),
        reads_back(s@, r@),
{
    match Decimal::parse(s) {
        Some(d) => d,
        None => Decimal::zero(),
    }
}

/// An equity point as it was stored.
pub fn stored_equity(
    ts: TimestampMs,
    account_id: String,
    equity: &str,
    net_pnl: &str,
    fees: &str,
) -> (r: EquityPoint)
    ensures
        r@ == (EquityView {
            ts,
            account_id: account_id@,
            equity: number_of(equity@),
            net_pnl: number_of(net_pnl@),
            fees: number_of(fees@),
        }),
        reads_back(equity@, r@.equity),
        reads_back(net_pnl@, r@.net_pnl),
        reads_back(fees@, r@.fees),
{
    EquityPoint {
        ts,
        account_id,
        equity: stored_number(equity),
        net_pnl: stored_number(net_pnl),
        fees: stored_number(fees),
    }
}

/// A price point as it was stored.
pub fn stored_price(ts: TimestampMs, bid: &str, ask: &str, mid: &str) -> (r: PricePoint)
    ensures
        r@ == (PriceView {
            ts,
            bid: number_of(bid@),
            ask: number_of(ask@),
            mid: number_of(mid@),
        }),
        reads_back(bid@, r@.bid),
        reads_back(ask@, r@.ask),
        reads_back(mid@, r@.mid),
{
    PricePoint { ts, bid: stored_number(bid), ask: stored_number(ask), mid: stored_number(mid) }
}

/// A balance as it was stored.
pub fn stored_balance(
    account_id: &str,
    asset: String,
    free: &str,
    locked: &str,
    updated_at: TimestampMs,
) -> (r: Balance)
    ensures
        r@ == (BalanceView {
            account_id: account_id@,
            asset: asset@,
            free: number_of(free@),
            locked: number_of(locked@),
            updated_at,
        }),
        reads_back(free@, r@.free),
        reads_back(locked@, r@.locked),
{
    Balance {
        account_id: AccountId::from_raw(account_id),
        asset,
        free: stored_number(free),
        locked: stored_number(locked),
        updated_at,
    }
}

/// What the account comes to, from what is stored and what is in the books.
pub open spec fn overview_of(
    account_id: Seq<char>,
    book: crate::domain::PnlView,
    kill_switch: bool,
    open_orders: u64,
    fills: u64,
    last: Option<EquityView>,
    last_equity: Option<Seq<char>>,
) -> OverviewView {
    OverviewView {
        account_id,
        equity: match last {
            Some(p) => p.equity,
            None => match last_equity {
                Some(s) => number_of(s),
                None => DecimalView::zero(),
            },
        },
        net_pnl: match last {
            Some(p) => p.net_pnl,
            None => book.net()->0,
        },
        gross_realized_pnl: book.gross_realized_pnl,
        unrealized_pnl: book.unrealized_pnl,
        trading_fees: match last {
            Some(p) => p.fees,
            None => book.trading_fees,
        },
        funding_fees: book.funding_fees,
        borrow_interest: book.borrow_interest,
        open_orders,
        fills,
        kill_switch,
    }
}

/// The book that is meant: the one given, or an empty one.
pub open spec fn book_or_nothing(book: Option<&PnLBook>) -> crate::domain::PnlView {
    match book {
        Some(b) => b@,
        None => crate::domain::PnlView::nothing(),
    }
}

/// What the account comes to. The last stored equity point is preferred
/// (authoritative after demo runs); `last_equity` is the last stored equity by
/// itself, for when that point could not be read. `None` when the net profit is
/// asked of the book and out of range.
pub fn try_overview(
    account_id: &str,
    book: Option<&PnLBook>,
    kill_switch: bool,
    open_orders: u64,
    fills: u64,
    last: Option<EquityPoint>,
    last_equity: Option<String>,
) -> (r: Option<Overview>)
    ensures
        r is None <==> last is None && book_or_nothing(book).net() is None,
        r matches Some(o) ==> o@ == overview_of(
            account_id@,
            book_or_nothing(book),
            kill_switch,
            open_orders,
            fills,
            views::opt_view(last),
            views::opt_view(last_equity),
        ),
{
    let empty = PnLBook::new();
    let b = match book {
        Some(b) => b,
        None => &empty,
    };
    let c = &b.components;
    let (equity, net_pnl, trading_fees) = match last {
        Some(p) => (p.equity, p.net_pnl, p.fees),
        None => {
            let equity = match &last_equity {
                Some(s) => stored_number(s.as_str()),
                None => Decimal::zero(),
            };
            (equity, b.try_net_pnl()?, c.trading_fees)
        },
    };
    Some(
        Overview {
            account_id: account_id.to_owned(),
            equity,
            net_pnl,
            gross_realized_pnl: c.gross_realized_pnl,
            unrealized_pnl: c.unrealized_pnl,
            trading_fees,
            funding_fees: c.funding_fees,
            borrow_interest: c.borrow_interest,
            open_orders,
            fills,
            kill_switch,
        },
    )
}

/// What the account comes to, where the net profit of the book is in range.
pub fn overview(
    account_id: &str,
    book: Option<&PnLBook>,
    kill_switch: bool,
    open_orders: u64,
    fills: u64,
    last: Option<EquityPoint>,
    last_equity: Option<String>,
) -> (r: Overview)
    requires
        last is Some || book_or_nothing(book).net() is Some,
    ensures
        r@ == overview_of(
            account_id@,
            book_or_nothing(book),
            kill_switch,
            open_orders,
            fills,
            views::opt_view(last),
            views::opt_view(last_equity),
        ),
{
    try_overview(account_id, book, kill_switch, open_orders, fills, last, last_equity).unwrap()
}

/// What a stored equity point and the account's overview say of equity, profit
/// and fees is the same.
pub proof fn law_overview_prefers_stored(
    account_id: Seq<char>,
    book: crate::domain::PnlView,
    kill_switch: bool,
    open_orders: u64,
    fills: u64,
    p: EquityView,
    last_equity: Option<Seq<char>>,
)
    ensures
        ({
            let o = overview_of(
                account_id,
                book,
                kill_switch,
                open_orders,
                fills,
                Some(p),
                last_equity,
            );
            o.equity == p.equity && o.net_pnl == p.net_pnl && o.trading_fees == p.fees
        }),
{
}

/// What is taken up again after a restart is every order that got past its
/// creation and is not finished.
pub proof fn law_unfinished_is_recoverable(s: OrderStatus)
    ensures
        recoverable(s) <==> s != OrderStatus::Created && (exists|to: OrderStatus|
            s.successors().contains(to)),
{
    crate::domain::law_state_groups(s);
}

/// States are told apart by their texts.
pub proof fn law_status_texts_differ(a: OrderStatus, b: OrderStatus)
    ensures
        a.text() == b.text() ==> a == b,
{
    reveal_strlit("created");
    reveal_strlit("risk_approved");
    reveal_strlit("submitted");
    reveal_strlit("acknowledged");
    reveal_strlit("partially_filled");
    reveal_strlit("filled");
    reveal_strlit("cancel_pending");
    reveal_strlit("cancelled");
    reveal_strlit("rejected");
    reveal_strlit("unknown");
    reveal_strlit("reconciled");
    assert("created"@[0] == 'c' && "created"@.len() == 7);
    assert("unknown"@[0] == 'u' && "unknown"@.len() == 7);
    assert("submitted"@[0] == 's' && "submitted"@.len() == 9);
    assert("cancelled"@[0] == 'c' && "cancelled"@.len() == 9);
    assert("risk_approved"@.len() == 13 && "acknowledged"@.len() == 12);
    assert("partially_filled"@.len() == 16 && "filled"@.len() == 6);
    assert("cancel_pending"@.len() == 14 && "rejected"@.len() == 8 && "reconciled"@.len() == 10);
}

/// One stored state more counts exactly when it is that of an order that was
/// submitted and is not finished.
pub proof fn law_open_orders_are_counted(states: Seq<Seq<char>>, n: int, s: OrderStatus)
    requires
        0 <= n < states.len(),
        states[n] == s.text(),
    ensures
        open_count(states, 0) == 0,
        open_count(states, n + 1) == open_count(states, n) + (if s == OrderStatus::Submitted || s
            == OrderStatus::Acknowledged || s == OrderStatus::PartiallyFilled || s
            == OrderStatus::CancelPending {
            1nat
        } else {
            0nat
        }),
{
    law_status_text(s);
}

/// The time of a ledger event is its own, and its kind tells events apart.
pub proof fn law_ledger_kinds_differ(a: LedgerView, b: LedgerView)
    ensures
        ledger_entry(a).0 == match a {
            LedgerView::Fee { at, .. } => at,
            LedgerView::FillApplied { at, .. } => at,
            LedgerView::ManualAdjustment { at, .. } => at,
        },
        ledger_entry(a).1 == ledger_entry(b).1 <==> (a is Fee && b is Fee || a is FillApplied
            && b is FillApplied || a is ManualAdjustment && b is ManualAdjustment),
{
    reveal_strlit("fee");
    reveal_strlit("fill_applied");
    reveal_strlit("manual_adjustment");
    assert("fee"@.len() == 3 && "fill_applied"@.len() == 12 && "manual_adjustment"@.len() == 17);
}

/// Without a stored equity point the overview goes by the book and by the last
/// stored equity alone, which is zero where there is none.
pub proof fn law_overview_falls_back_on_the_book(
    account_id: Seq<char>,
    book: crate::domain::PnlView,
    kill_switch: bool,
    open_orders: u64,
    fills: u64,
    last: Option<EquityView>,
    last_equity: Option<Seq<char>>,
)
    requires
        book.net() is Some,
    ensures
        ({
            let o = overview_of(
                account_id,
                book,
                kill_switch,
                open_orders,
                fills,
                last,
                last_equity,
            );
            &&& last is None ==> Some(o.net_pnl) == book.net() && o.trading_fees
                == book.trading_fees
            &&& last is None && last_equity is None ==> o.equity.units() == 0
            &&& last is None && last_equity is Some && decimal::parsed_decimal(
                last_equity->0,
            ) is Some ==> Some(o.equity) == decimal::parsed_decimal(last_equity->0)
            &&& o.account_id == account_id && o.kill_switch == kill_switch
            &&& o.open_orders == open_orders && o.fills == fills
            &&& o.gross_realized_pnl == book.gross_realized_pnl
            &&& o.unrealized_pnl == book.unrealized_pnl
            &&& o.funding_fees == book.funding_fees
            &&& o.borrow_interest == book.borrow_interest
        }),
{
    decimal::lemma_sign_of_units(DecimalView::zero());
}

} // verus!

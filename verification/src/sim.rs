//! Local paper matching engine (implements `ExecutionPort`).
//!
//! Fill models:
//! - Immediate: fill on touch (marketable orders fill at once)
//! - L1: clip to top-of-book available size (partial fills)
//! - Queue: L1 with deterministic seed-based queue factor
//!
//! Orders are stored so query/cancel work. Tick/step/min-notional enforced for
//! the instruments that are registered. Resting orders match in the order in
//! which they were first placed.

use vstd::prelude::*;
use vstd::string::*;
use vstd::utf8::*;

use crate::decimal::{Decimal, DecimalView};
use crate::decimal;
use crate::domain::{
    ExecutionPort, Fee, FeeSide, FeeView, Fill, FillModelKind, FillView, Instrument, InstrumentId,
    InstrumentView, Order, OrderSide, OrderStatus, OrderType, OrderView, TimeInForce,
};
use crate::domain;
use crate::error::{ErrorView, Result, TuxError};
use crate::ids::{now_ms, ClientOrderId, FillId, OrderId, TimestampMs};
use crate::ids;
use crate::market::{BookTop, TopView};
use crate::table::Table;
use crate::table;
use crate::text::{copy_text, i64_text, join2, join3};
use crate::text;
use crate::views;

verus! {

#[derive(Debug, PartialEq, Eq)]
pub struct FillModel {
    pub kind: FillModelKind,
    /// Aggressive-fill slippage as fraction of price (0.0001 = 1 bps).
    pub slippage: Decimal,
    pub latency_ms: u64,
    pub random_seed: u64,
    /// Maker / taker fee rates applied to fills.
    pub maker_fee: Decimal,
    pub taker_fee: Decimal,
}

/// What a [`FillModel`] holds.
#[verifier::ext_equal]
pub struct ModelView {
    pub kind: FillModelKind,
    pub slippage: DecimalView,
    pub latency_ms: u64,
    pub random_seed: u64,
    pub maker_fee: DecimalView,
    pub taker_fee: DecimalView,
}

impl View for FillModel {
    type V = ModelView;

    open spec fn view(&self) -> ModelView {
        ModelView {
            kind: self.kind,
            slippage: self.slippage@,
            latency_ms: self.latency_ms,
            random_seed: self.random_seed,
            maker_fee: self.maker_fee@,
            taker_fee: self.taker_fee@,
        }
    }
}

impl Clone for FillModel {
    fn clone(&self) -> (r: Self)
        ensures
            r == *self,
    {
        FillModel {
            kind: self.kind,
            slippage: self.slippage,
            latency_ms: self.latency_ms,
            random_seed: self.random_seed,
            maker_fee: self.maker_fee,
            taker_fee: self.taker_fee,
        }
    }
}

impl ModelView {
    /// Two basis points for makers, five for takers, no slippage.
    pub open spec fn of_kind(kind: FillModelKind, random_seed: u64) -> ModelView {
        ModelView {
            kind,
            slippage: DecimalView::zero(),
            latency_ms: 0,
            random_seed,
            maker_fee: DecimalView::of(2, 4),
            taker_fee: DecimalView::of(5, 4),
        }
    }

    /// How much of `available` an order with `remaining` left gets; nothing
    /// when a number on the way is out of range.
    pub open spec fn clip(
        self,
        remaining: DecimalView,
        available: DecimalView,
    ) -> Option<DecimalView> {
        match self.kind {
            // Immediate ignores displayed liquidity.
            FillModelKind::Immediate => Some(remaining),
            FillModelKind::L1 => if available.mantissa == 0 {
                Some(DecimalView::zero())
            } else {
                Some(remaining.smaller(available))
            },
            FillModelKind::Queue => if available.mantissa == 0 {
                Some(DecimalView::zero())
            } else {
                match available.times(queue_factor(self.random_seed)) {
                    None => None,
                    Some(share) => Some(remaining.smaller(share)),
                }
            },
        }
    }

    pub open spec fn rate(self, is_maker: bool) -> DecimalView {
        if is_maker {
            self.maker_fee
        } else {
            self.taker_fee
        }
    }
}

/// Which third of the seeds a seed falls into, after its bits were mixed.
pub open spec fn queue_slot(seed: u64) -> u64 {
    (((seed << 17u64) | (seed >> 47u64)) ^ seed.wrapping_mul(0x9E37_79B9)) % 3
}

/// The share of the displayed size that is ahead of nobody: a quarter, a half
/// or three quarters.
pub open spec fn queue_factor(seed: u64) -> DecimalView {
    if queue_slot(seed) == 0 {
        DecimalView::of(25, 2)
    } else if queue_slot(seed) == 1 {
        DecimalView::of(5, 1)
    } else {
        DecimalView::of(75, 2)
    }
}

/// L1/Queue respect liquidity; Immediate for unit tests / fast backtest.
pub open spec fn liquidity_counts(kind: FillModelKind) -> bool {
    kind == FillModelKind::L1 || kind == FillModelKind::Queue
}

pub fn respects_liquidity(kind: FillModelKind) -> (r: bool)
    ensures
        r == liquidity_counts(kind),
{
    matches!(kind, FillModelKind::L1 | FillModelKind::Queue)
}

impl FillModel {
    fn of_kind(kind: FillModelKind, random_seed: u64) -> (r: Self)
        ensures
            r@ == ModelView::of_kind(kind, random_seed),
    {
        FillModel {
            kind,
            slippage: Decimal::zero(),
            latency_ms: 0,
            random_seed,
            maker_fee: Decimal::new(2, 4),
            taker_fee: Decimal::new(5, 4),
        }
    }

    pub fn immediate() -> (r: Self)
        ensures
            r@ == ModelView::of_kind(FillModelKind::Immediate, 42),
    {
        FillModel::of_kind(FillModelKind::Immediate, 42)
    }

    pub fn l1() -> (r: Self)
        ensures
            r@ == ModelView::of_kind(FillModelKind::L1, 42),
    {
        FillModel::of_kind(FillModelKind::L1, 42)
    }

    pub fn queue(seed: u64) -> (r: Self)
        ensures
            r@ == ModelView::of_kind(FillModelKind::Queue, seed),
    {
        FillModel::of_kind(FillModelKind::Queue, seed)
    }

    /// How much of `available` an order with `remaining` left gets.
    pub fn clip_qty(&self, remaining: Decimal, available: Decimal) -> (r: Option<Decimal>)
        ensures
            views::opt_view(r) == self@.clip(remaining@, available@),
    {
        match self.kind {
            FillModelKind::Immediate => Some(remaining),
            FillModelKind::L1 => if available.is_zero() {
                Some(Decimal::zero())
            } else {
                Some(remaining.min(available))
            },
            FillModelKind::Queue => {
                if available.is_zero() {
                    return Some(Decimal::zero());
                }
                let seed = self.random_seed;
                let slot: u64 = (((seed << 17u64) | (seed >> 47u64)) ^ seed.wrapping_mul(
                    0x9E37_79B9,
                )) % 3;
                let factor = match slot {
                    0 => Decimal::new(25, 2),
                    1 => Decimal::new(5, 1),
                    _ => Decimal::new(75, 2),
                };
                let share = available.checked_mul(factor)?;
                Some(remaining.min(share))
            },
        }
    }
}

impl Default for FillModel {
    fn default() -> (r: Self)
        ensures
            r@ == ModelView::of_kind(FillModelKind::Immediate, 42),
    {
        FillModel::immediate()
    }
}

impl TopView {
    /// The price that the side would trade at, as the other side shows it.
    pub open spec fn touch(self, side: OrderSide) -> DecimalView {
        match side {
            OrderSide::Buy => self.ask_price,
            OrderSide::Sell => self.bid_price,
        }
    }

    /// What a market order goes by: the touch, or the mid where there is none;
    /// the outer option says whether it is in range.
    pub open spec fn market_price(self, side: OrderSide) -> Option<Option<DecimalView>> {
        if self.touch(side).positive() {
            Some(Some(self.touch(side)))
        } else {
            self.mid()
        }
    }

    /// What the other side shows.
    pub open spec fn displayed(self, side: OrderSide) -> DecimalView {
        match side {
            OrderSide::Buy => self.ask_qty,
            OrderSide::Sell => self.bid_qty,
        }
    }

    /// Whether an order at `px` meets the other side.
    pub open spec fn crosses(self, side: OrderSide, px: DecimalView) -> bool {
        self.touch(side).positive() && match side {
            OrderSide::Buy => self.ask_price.le(px),
            OrderSide::Sell => px.le(self.bid_price),
        }
    }

    /// The price of a trade with an order at `px`: the better one.
    pub open spec fn trade_price(self, side: OrderSide, px: DecimalView) -> DecimalView {
        match side {
            OrderSide::Buy => self.ask_price.smaller(px),
            OrderSide::Sell => self.bid_price.larger(px),
        }
    }
}

/// Whether an order at `px` meets the other side.
fn crosses(top: &BookTop, side: OrderSide, px: Decimal) -> (r: bool)
    ensures
        r == top@.crosses(side, px@),
{
    proof {
        decimal::lemma_sign_of_units(top.ask_price@);
        decimal::lemma_sign_of_units(top.bid_price@);
    }
    match side {
        OrderSide::Buy => top.ask_price > Decimal::zero() && px >= top.ask_price,
        OrderSide::Sell => top.bid_price > Decimal::zero() && px <= top.bid_price,
    }
}

fn trade_price(top: &BookTop, side: OrderSide, px: Decimal) -> (r: Decimal)
    ensures
        r@ == top@.trade_price(side, px@),
{
    match side {
        OrderSide::Buy => top.ask_price.min(px),
        OrderSide::Sell => top.bid_price.max(px),
    }
}

/// What a market order goes by; `None` when that is out of range.
fn market_price(top: &BookTop, side: OrderSide) -> (r: Option<Option<Decimal>>)
    ensures
        match r {
            None => top@.market_price(side) is None,
            Some(p) => top@.market_price(side) == Some(views::opt_view(p)),
        },
{
    proof {
        decimal::lemma_sign_of_units(top.ask_price@);
        decimal::lemma_sign_of_units(top.bid_price@);
    }
    let touch = match side {
        OrderSide::Buy => top.ask_price,
        OrderSide::Sell => top.bid_price,
    };
    if touch > Decimal::zero() {
        Some(Some(touch))
    } else {
        top.try_mid()
    }
}

/// The venue's name for an order.
pub open spec fn paper_id(id: Seq<char>) -> Seq<char> {
    "paper_"@ + id
}

/// A fill without its random id.
pub open spec fn anonymous(f: FillView) -> FillView {
    FillView { id: Seq::empty(), ..f }
}

/// Fills without their random ids.
pub open spec fn anonymous_all(fills: Seq<FillView>) -> Seq<FillView> {
    Seq::new(fills.len(), |i: int| anonymous(fills[i]))
}

/// The new average price of an order, `qty` more at `price`.
pub open spec fn average(
    o: OrderView,
    price: DecimalView,
    qty: DecimalView,
    filled: DecimalView,
) -> Option<DecimalView> {
    let before = match o.avg_fill_price {
        Some(p) => p,
        None => DecimalView::zero(),
    };
    if filled.mantissa == 0 {
        Some(price)
    } else {
        match (before.times(o.filled_quantity), price.times(qty)) {
            (Some(a), Some(b)) => match a.plus(b) {
                None => None,
                Some(s) => s.over(filled),
            },
            _ => None,
        }
    }
}

impl ModelView {
    /// The fee for a fill.
    pub open spec fn fee(
        self,
        price: DecimalView,
        qty: DecimalView,
        is_maker: bool,
    ) -> Option<DecimalView> {
        match price.times(qty) {
            None => None,
            Some(n) => n.times(self.rate(is_maker)),
        }
    }

    /// The order with `qty` more filled at `price`; nothing when a number on
    /// the way is out of range.
    pub open spec fn filled_order(
        self,
        o: OrderView,
        price: DecimalView,
        qty: DecimalView,
        now: TimestampMs,
    ) -> Option<OrderView> {
        match o.filled_quantity.plus(qty) {
            None => None,
            Some(filled) => match (average(o, price, qty, filled), o.quantity.minus(filled)) {
                (Some(avg), Some(left)) => {
                    let to = if left.mantissa <= 0 {
                        OrderStatus::Filled
                    } else {
                        OrderStatus::PartiallyFilled
                    };
                    let with = OrderView {
                        filled_quantity: filled,
                        avg_fill_price: Some(avg),
                        updated_at: now,
                        venue_order_id: Some(paper_id(o.id)),
                        ..o
                    };
                    Some(
                        if with.may_become(to) {
                            with.with_status(to, now)
                        } else {
                            with
                        },
                    )
                },
                _ => None,
            },
        }
    }

    /// The fill of `qty` at `price`, without its random id.
    pub open spec fn fill_of(
        self,
        o: OrderView,
        price: DecimalView,
        qty: DecimalView,
        is_maker: bool,
        now: TimestampMs,
    ) -> FillView {
        FillView {
            id: Seq::empty(),
            account_id: o.account_id,
            instrument_id: o.instrument_id,
            order_id: o.id,
            venue_order_id: Some(paper_id(o.id)),
            trade_id: "pt_"@ + text::int_text(now as int),
            side: o.side,
            position_side: o.position_side,
            price,
            quantity: qty,
            fee: FeeView {
                asset: "USDT"@,
                amount: self.fee(price, qty, is_maker)->0,
                side: FeeSide::Quote,
                is_maker,
                rate: Some(self.rate(is_maker)),
            },
            is_maker,
            occurred_at: now,
        }
    }

    /// Whether the numbers of a fill are in range.
    pub open spec fn can_fill(
        self,
        o: OrderView,
        price: DecimalView,
        qty: DecimalView,
        is_maker: bool,
    ) -> bool {
        self.fee(price, qty, is_maker) is Some && self.filled_order(o, price, qty, 0) is Some
    }
}

/// What an order trades at once: a price and a quantity, if anything; the
/// outer option says whether the numbers on the way are in range.
pub type Trade = Option<Option<(DecimalView, DecimalView)>>;

impl ModelView {
    /// What a market order trades at once: the touch, or the mid where there is
    /// none, moved by the slippage.
    pub open spec fn market_trade(self, o: OrderView, top: Option<TopView>) -> Trade {
        match top {
            None => Some(None),
            Some(t) => {
                match t.market_price(o.side) {
                    None => None,
                    Some(None) => Some(None),
                    Some(Some(px)) => match px.times(self.slippage) {
                        None => None,
                        Some(slip) => {
                            let at = match o.side {
                                OrderSide::Buy => px.plus(slip),
                                OrderSide::Sell => px.minus(slip),
                            };
                            match (at, o.remaining()) {
                                (Some(at), Some(left)) => self.sized(at, left, t.displayed(o.side)),
                                _ => None,
                            }
                        },
                    },
                }
            },
        }
    }

    /// What a limit order trades of `available` on the other side.
    pub open spec fn limit_trade(self, o: OrderView, t: TopView, available: DecimalView) -> Trade {
        match o.price {
            Some(px) => if !t.crosses(o.side, px) {
                Some(None)
            } else {
                match o.remaining() {
                    None => None,
                    Some(left) => self.sized(t.trade_price(o.side, px), left, available),
                }
            },
            None => Some(None),
        }
    }

    /// A trade at `price` of what the model gives of `available`, if that is
    /// more than nothing.
    pub open spec fn sized(
        self,
        price: DecimalView,
        left: DecimalView,
        available: DecimalView,
    ) -> Trade {
        match self.clip(left, available) {
            None => None,
            Some(qty) => if qty.mantissa <= 0 {
                Some(None)
            } else {
                Some(Some((price, qty)))
            },
        }
    }

    /// What an order trades at once. Post-only orders never take liquidity, and
    /// stop orders are not supported.
    pub open spec fn immediate_trade(self, o: OrderView, top: Option<TopView>) -> Trade {
        match o.order_type {
            OrderType::Stop | OrderType::PostOnly => Some(None),
            OrderType::Market => self.market_trade(o, top),
            OrderType::Limit => match top {
                Some(t) => self.limit_trade(o, t, t.displayed(o.side)),
                None => Some(None),
            },
        }
    }

    /// Max quantity fillable right now against L1 (used by FOK checks).
    pub open spec fn fillable(self, o: OrderView, top: Option<TopView>) -> Option<DecimalView> {
        match top {
            None => if o.order_type == OrderType::Market && self.kind
                == FillModelKind::Immediate {
                o.remaining()
            } else {
                Some(DecimalView::zero())
            },
            Some(t) => {
                let meets = match o.order_type {
                    OrderType::Stop => false,
                    OrderType::Market => true,
                    _ => match o.price {
                        Some(px) => t.crosses(o.side, px),
                        None => false,
                    },
                };
                if !meets {
                    Some(DecimalView::zero())
                } else {
                    match o.remaining() {
                        None => None,
                        Some(left) => self.clip(left, t.displayed(o.side)),
                    }
                }
            },
        }
    }
}

/// What lies on the engine's desk: orders by id, quotes and rules by
/// instrument, and the fills that nobody has taken yet.
pub struct PaperDesk {
    orders: Table<Order>,
    book: Table<BookTop>,
    instruments: Table<Instrument>,
    pending_fills: Vec<Fill>,
}

/// What a [`PaperDesk`] holds.
#[verifier::ext_equal]
pub struct DeskView {
    pub orders: Seq<(Seq<char>, OrderView)>,
    pub book: Seq<(Seq<char>, TopView)>,
    pub instruments: Seq<(Seq<char>, InstrumentView)>,
    pub pending: Seq<FillView>,
}

impl View for PaperDesk {
    type V = DeskView;

    closed spec fn view(&self) -> DeskView {
        DeskView {
            orders: self.orders@,
            book: self.book@,
            instruments: self.instruments@,
            pending: views::seq_view(self.pending_fills@),
        }
    }
}

/// The local paper matching engine.
pub struct PaperEngine {
    pub fill_model: FillModel,
    pub desk: PaperDesk,
}

/// What a [`PaperEngine`] holds: orders by id, quotes and rules by instrument,
/// and the fills that nobody has taken yet.
#[verifier::ext_equal]
pub struct PaperView {
    pub model: ModelView,
    pub orders: Seq<(Seq<char>, OrderView)>,
    pub book: Seq<(Seq<char>, TopView)>,
    pub instruments: Seq<(Seq<char>, InstrumentView)>,
    pub pending: Seq<FillView>,
}

impl View for PaperEngine {
    type V = PaperView;

    open spec fn view(&self) -> PaperView {
        PaperView {
            model: self.fill_model@,
            orders: self.desk@.orders,
            book: self.desk@.book,
            instruments: self.desk@.instruments,
            pending: self.desk@.pending,
        }
    }
}

pub open spec fn paper_order_not_found(id: Seq<char>) -> ErrorView {
    ErrorView::InvalidOrder("paper order "@ + id + " not found"@)
}

/// Whether a client order id is not empty and not too long, in bytes.
pub open spec fn client_order_id_valid(id: Seq<char>) -> bool {
    id.len() > 0 && encode_utf8(id).len() <= 36
}

/// What a placed order comes to: how it stands, and what it traded.
pub struct Placement {
    pub order: OrderView,
    pub trade: Option<(DecimalView, DecimalView)>,
}

impl PaperView {
    pub open spec fn top(self, instrument: Seq<char>) -> Option<TopView> {
        table::lookup(self.book, instrument)
    }

    /// The engine with one more instrument known.
    pub open spec fn with_instrument(self, i: InstrumentView) -> PaperView {
        PaperView { instruments: table::put(self.instruments, i.id, i), ..self }
    }

    /// What an order is worth by its own price, or for a market order by the
    /// price it goes by, if there is one; the outer option says whether it is in
    /// range.
    pub open spec fn worth(self, o: OrderView) -> Option<Option<DecimalView>> {
        if o.order_type != OrderType::Market {
            domain::notional_of(o.price, o.quantity)
        } else {
            match self.top(o.instrument_id) {
                None => Some(None),
                Some(t) => match t.market_price(o.side) {
                    None => None,
                    Some(p) => domain::notional_of(p, o.quantity),
                },
            }
        }
    }

    /// What an order breaks of the rules of its instrument, if anything; nothing
    /// at all when a number on the way is out of range. A market order has no
    /// price of its own. An instrument that is not known has no rules, and a stop
    /// order is turned down in any case.
    pub open spec fn breach(self, o: OrderView) -> Option<Option<Seq<char>>> {
        match table::lookup(self.instruments, o.instrument_id) {
            None => Some(None),
            Some(i) => if o.order_type == OrderType::Stop {
                Some(None)
            } else if o.order_type != OrderType::Market && (o.price matches Some(px)
                && !i.price_in_range(px)) {
                None
            } else if o.order_type != OrderType::Market && (o.price matches Some(px)
                && !i.price_valid(px)) {
                Some(Some("price violates tick size"@))
            } else if !i.qty_in_range(o.quantity) {
                None
            } else if !i.qty_valid(o.quantity) {
                Some(Some("quantity violates step/min/max"@))
            } else if i.min_notional is None {
                Some(None)
            } else {
                match self.worth(o) {
                    None => None,
                    Some(Some(n)) if !i.notional_valid(n) => Some(Some("below min notional"@)),
                    Some(_) => Some(None),
                }
            },
        }
    }

    /// Whether an unfinished order among the first `n` has the client order id.
    pub open spec fn duplicate(self, clid: Seq<char>, n: int) -> bool {
        exists|i: int|
            0 <= i < n && (#[trigger] self.orders[i]).1.client_order_id == clid
                && !self.orders[i].1.status.terminal()
    }

    /// The order as it arrives at `now`.
    pub open spec fn arrived(self, o: OrderView, now: TimestampMs) -> OrderView {
        OrderView {
            status: OrderStatus::Submitted,
            venue_order_id: Some(paper_id(o.id)),
            updated_at: now,
            ..o
        }
    }

    /// Whether a fill-or-kill order cannot be filled as a whole; nothing when a
    /// number on the way is out of range.
    pub open spec fn kills(self, o: OrderView) -> Option<bool> {
        if o.time_in_force != TimeInForce::Fok {
            Some(false)
        } else {
            match (o.remaining(), self.model.fillable(o, self.top(o.instrument_id))) {
                (Some(need), Some(fillable)) => Some(
                    liquidity_counts(self.model.kind) && fillable.lt(need),
                ),
                _ => None,
            }
        }
    }

    /// How an order stands once it has traded what it could at once.
    pub open spec fn settled(
        self,
        o: OrderView,
        now: TimestampMs,
    ) -> OrderView {
        if o.time_in_force == TimeInForce::Ioc {
            if o.filled_quantity.lt(o.quantity) {
                let c = if o.may_become(OrderStatus::Cancelled) {
                    o.with_status(OrderStatus::Cancelled, now)
                } else {
                    o
                };
                OrderView {
                    reject_reason: if c.reject_reason is None {
                        Some("ioc remainder cancelled"@)
                    } else {
                        c.reject_reason
                    },
                    ..c
                }
            } else {
                o
            }
        } else if o.status != OrderStatus::Submitted || o.filled_quantity.positive() {
            o
        } else if o.order_type == OrderType::Market {
            OrderView {
                status: OrderStatus::Rejected,
                reject_reason: Some("no market reference price / liquidity"@),
                ..o
            }
        } else {
            OrderView { status: OrderStatus::Acknowledged, ..o }
        }
    }

    /// What comes of an order with a new client order id at `now`; nothing when
    /// a number on the way is out of range.
    pub open spec fn placement(self, order: OrderView, now: TimestampMs) -> Option<Placement> {
        let o = self.arrived(order, now);
        let top = self.top(o.instrument_id);
        if self.breach(order) is None {
            None
        } else if order.order_type == OrderType::Stop {
            Some(
                Placement {
                    order: OrderView {
                        status: OrderStatus::Rejected,
                        reject_reason: Some("stop orders not supported in paper MVP"@),
                        ..order
                    },
                    trade: None,
                },
            )
        } else if o.order_type == OrderType::PostOnly {
            let crossing = match (top, o.price) {
                (Some(t), Some(px)) => t.crosses(o.side, px),
                _ => false,
            };
            Some(
                Placement {
                    order: if crossing {
                        OrderView {
                            status: OrderStatus::Rejected,
                            reject_reason: Some("post_only would cross"@),
                            ..o
                        }
                    } else {
                        OrderView { status: OrderStatus::Acknowledged, ..o }
                    },
                    trade: None,
                },
            )
        } else {
            match self.kills(o) {
                None => None,
                Some(true) => Some(
                    Placement {
                        order: OrderView {
                            status: OrderStatus::Cancelled,
                            reject_reason: Some("fok: insufficient liquidity"@),
                            ..o
                        },
                        trade: None,
                    },
                ),
                Some(false) => if top matches Some(t) && t.mid() is None {
                    None
                } else {
                    match self.model.immediate_trade(o, top) {
                        None => None,
                        Some(None) => Some(
                            Placement { order: self.settled(o, now), trade: None },
                        ),
                        Some(Some(trade)) => if !self.model.can_fill(o, trade.0, trade.1, false) {
                            None
                        } else {
                            Some(
                                Placement {
                                    order: self.settled(
                                        self.model.filled_order(o, trade.0, trade.1, now)->0,
                                        now,
                                    ),
                                    trade: Some(trade),
                                },
                            )
                        },
                    }
                },
            }
        }
    }

    /// Why an order is not taken at all.
    pub open spec fn refusal(self, order: OrderView) -> Option<ErrorView> {
        if !client_order_id_valid(order.client_order_id) {
            Some(ErrorView::InvalidOrder("client_order_id rejected"@))
        } else if self.duplicate(order.client_order_id, self.orders.len() as int) {
            Some(
                ErrorView::InvalidOrder(
                    "duplicate client_order_id "@ + order.client_order_id,
                ),
            )
        } else {
            match self.breach(order) {
                Some(Some(reason)) => Some(ErrorView::InvalidOrder(reason)),
                _ => None,
            }
        }
    }

    /// The engine with the order as it stands, and its fill if there is one.
    pub open spec fn with_order(self, o: OrderView, fill: Option<FillView>) -> PaperView {
        PaperView {
            orders: table::put(self.orders, o.id, o),
            pending: match fill {
                Some(f) => self.pending.push(f),
                None => self.pending,
            },
            ..self
        }
    }
}

/// Whether a resting order waits for a trade in the instrument. Post-only
/// orders are resting limit orders.
pub open spec fn resting(o: OrderView, instrument: Seq<char>) -> bool {
    &&& o.instrument_id == instrument
    &&& o.status == OrderStatus::Acknowledged || o.status == OrderStatus::PartiallyFilled
    &&& o.order_type == OrderType::Limit || o.order_type == OrderType::PostOnly
}

/// How far a round of matching has come: what is left of the displayed sizes,
/// how the orders stand, and the fills without their random ids.
#[verifier::ext_equal]
pub struct Matching {
    pub bid_left: DecimalView,
    pub ask_left: DecimalView,
    pub orders: Seq<(Seq<char>, OrderView)>,
    pub fills: Seq<FillView>,
}

impl Matching {
    /// What is left for an order of the given side.
    pub open spec fn left(self, side: OrderSide) -> DecimalView {
        match side {
            OrderSide::Buy => self.ask_left,
            OrderSide::Sell => self.bid_left,
        }
    }

    /// What is left once `qty` more is taken, never less than nothing.
    pub open spec fn left_after(self, side: OrderSide, qty: DecimalView) -> Option<DecimalView> {
        match self.left(side).minus(qty) {
            None => None,
            Some(l) => Some(l.larger(DecimalView::zero())),
        }
    }
}

impl ModelView {
    /// One round of matching over the first `n` orders; nothing when a number
    /// on the way is out of range.
    pub open spec fn matching(
        self,
        top: TopView,
        instrument: Seq<char>,
        orders: Seq<(Seq<char>, OrderView)>,
        n: int,
        now: TimestampMs,
    ) -> Option<Matching>
        decreases n,
    {
        if n <= 0 {
            Some(
                Matching {
                    bid_left: top.bid_qty,
                    ask_left: top.ask_qty,
                    orders,
                    fills: Seq::empty(),
                },
            )
        } else {
            match self.matching(top, instrument, orders, n - 1, now) {
                None => None,
                Some(m) => self.match_one(m, top, instrument, orders[n - 1], n - 1, now),
            }
        }
    }

    /// One step of matching: the order at `i`. Resting fills are maker.
    pub open spec fn match_one(
        self,
        m: Matching,
        top: TopView,
        instrument: Seq<char>,
        entry: (Seq<char>, OrderView),
        i: int,
        now: TimestampMs,
    ) -> Option<Matching> {
        let o = entry.1;
        if !resting(o, instrument) {
            Some(m)
        } else {
            match self.limit_trade(o, top, m.left(o.side)) {
                None => None,
                Some(None) => Some(m),
                Some(Some(t)) => match m.left_after(o.side, t.1) {
                    None => None,
                    Some(l) => if !self.can_fill(o, t.0, t.1, true) {
                        None
                    } else {
                        Some(
                            Matching {
                                bid_left: if o.side == OrderSide::Sell {
                                    l
                                } else {
                                    m.bid_left
                                },
                                ask_left: if o.side == OrderSide::Buy {
                                    l
                                } else {
                                    m.ask_left
                                },
                                orders: m.orders.update(
                                    i,
                                    (entry.0, self.filled_order(o, t.0, t.1, now)->0),
                                ),
                                fills: m.fills.push(self.fill_of(o, t.0, t.1, true, now)),
                            },
                        )
                    },
                },
            }
        }
    }
}

impl PaperView {
    /// The round of matching that a quote starts; nothing when a number on the
    /// way is out of range.
    pub open spec fn matched(
        self,
        instrument: Seq<char>,
        top: TopView,
        now: TimestampMs,
    ) -> Option<Matching> {
        self.model.matching(top, instrument, self.orders, self.orders.len() as int, now)
    }

    /// The engine after a quote: the quote is kept, the orders stand as the
    /// matching left them, and the fills wait to be taken.
    pub open spec fn with_quote(
        self,
        instrument: Seq<char>,
        top: TopView,
        now: TimestampMs,
        fills: Seq<FillView>,
    ) -> PaperView {
        PaperView {
            book: table::put(self.book, instrument, top),
            orders: self.matched(instrument, top, now)->0.orders,
            pending: self.pending + fills,
            ..self
        }
    }
}

/// Whether every fill has an id of its own kind.
pub open spec fn fill_ids_ok(fills: Seq<FillView>) -> bool {
    forall|i: int| 0 <= i < fills.len() ==> fill_id_ok((#[trigger] fills[i]).id)
}

/// A fill id: the prefix and random digits.
pub open spec fn fill_id_ok(id: Seq<char>) -> bool {
    exists|t: Seq<char>| #[trigger] ids::is_token(t) && id == "fill_"@ + t
}

/// Some orders replaced, one after the other.
pub open spec fn patched(
    orders: Seq<(Seq<char>, OrderView)>,
    changes: Seq<(usize, Order)>,
) -> Seq<(Seq<char>, OrderView)>
    decreases changes.len(),
{
    if changes.len() == 0 {
        orders
    } else {
        let before = patched(orders, changes.drop_last());
        let i = changes.last().0 as int;
        before.update(i, (orders[i].0, changes.last().1@))
    }
}

proof fn lemma_patched_keys(
    orders: Seq<(Seq<char>, OrderView)>,
    changes: Seq<(usize, Order)>,
)
    requires
        forall|i: int| 0 <= i < changes.len() ==> (#[trigger] changes[i]).0 < orders.len(),
    ensures
        patched(orders, changes).len() == orders.len(),
        forall|i: int|
            0 <= i < orders.len() ==> (#[trigger] patched(orders, changes)[i]).0 == orders[i].0,
    decreases changes.len(),
{
    if changes.len() > 0 {
        assert forall|i: int| 0 <= i < changes.len() - 1 implies (#[trigger] changes.drop_last()[i]).0
            < orders.len() by {
            assert(changes[i].0 < orders.len());
        }
        lemma_patched_keys(orders, changes.drop_last());
        assert(changes[changes.len() - 1].0 < orders.len());
    }
}

proof fn lemma_matching_stays_out(
    model: ModelView,
    top: TopView,
    instrument: Seq<char>,
    orders: Seq<(Seq<char>, OrderView)>,
    m: int,
    n: int,
    now: TimestampMs,
)
    requires
        m <= n,
        model.matching(top, instrument, orders, m, now) is None,
    ensures
        model.matching(top, instrument, orders, n, now) is None,
    decreases n,
{
    if m < n {
        lemma_matching_stays_out(model, top, instrument, orders, m, n - 1, now);
    }
}

fn copy_top(t: Option<&BookTop>) -> (r: Option<BookTop>)
    ensures
        match t {
            Some(x) => r == Some(*x),
            None => r is None,
        },
{
    match t {
        Some(x) => Some(x.clone()),
        None => None,
    }
}

impl FillModel {
    /// Fills `qty` of the order at `price`; `None`, and no change, when a number
    /// on the way is out of range.
    fn apply_fill(
        &self,
        order: &mut Order,
        price: Decimal,
        qty: Decimal,
        is_maker: bool,
        now: TimestampMs,
    ) -> (r: Option<Fill>)
        ensures
            r is Some <==> self@.can_fill(old(order)@, price@, qty@, is_maker),
            r is None ==> *final(order) == *old(order),
            r matches Some(f) ==> {
                &&& final(order)@ == self@.filled_order(old(order)@, price@, qty@, now)->0
                &&& anonymous(f@) == self@.fill_of(old(order)@, price@, qty@, is_maker, now)
                &&& fill_id_ok(f@.id)
            },
    {
        let notional = price.checked_mul(qty)?;
        let rate = if is_maker {
            self.maker_fee
        } else {
            self.taker_fee
        };
        let fee_amt = notional.checked_mul(rate)?;
        let filled = order.filled_quantity.checked_add(qty)?;
        let avg = if filled.is_zero() {
            price
        } else {
            let prev_avg = match order.avg_fill_price {
                Some(p) => p,
                None => Decimal::zero(),
            };
            let before = prev_avg.checked_mul(order.filled_quantity)?;
            let sum = before.checked_add(notional)?;
            sum.checked_div(filled)?
        };
        let left = order.quantity.checked_sub(filled)?;
        let ghost start = order@;
        order.filled_quantity = filled;
        order.avg_fill_price = Some(avg);
        order.updated_at = now;
        order.venue_order_id = Some(join2("paper_", order.id.as_str()));
        proof {
            decimal::lemma_sign_of_units(left@);
        }
        let new_status = if left <= Decimal::zero() {
            OrderStatus::Filled
        } else {
            OrderStatus::PartiallyFilled
        };
        let _ = order.apply_status(new_status, now);
        let id = FillId::new();
        let stamp = i64_text(now);
        let fill = Fill {
            id,
            account_id: order.account_id.clone(),
            instrument_id: order.instrument_id.clone(),
            order_id: order.id.clone(),
            venue_order_id: copy_text(&order.venue_order_id),
            trade_id: join2("pt_", stamp.as_str()),
            side: order.side,
            position_side: order.position_side,
            price,
            quantity: qty,
            fee: Fee {
                asset: "USDT".to_owned(),
                amount: fee_amt,
                side: FeeSide::Quote,
                is_maker,
                rate: Some(rate),
            },
            is_maker,
            occurred_at: now,
        };
        assert(anonymous(fill@) =~= self@.fill_of(start, price@, qty@, is_maker, now));
        Some(fill)
    }

    /// A trade at `price` of what the model gives of `available`.
    fn size_trade(
        &self,
        price: Decimal,
        left: Decimal,
        available: Decimal,
    ) -> (r: Option<Option<(Decimal, Decimal)>>)
        ensures
            trade_view(r) == self@.sized(price@, left@, available@),
    {
        let qty = self.clip_qty(left, available)?;
        proof {
            decimal::lemma_sign_of_units(qty@);
        }
        if qty <= Decimal::zero() {
            Some(None)
        } else {
            Some(Some((price, qty)))
        }
    }

    fn limit_trade(
        &self,
        o: &Order,
        top: &BookTop,
        available: Decimal,
    ) -> (r: Option<Option<(Decimal, Decimal)>>)
        ensures
            trade_view(r) == self@.limit_trade(o@, top@, available@),
    {
        match o.price {
            None => Some(None),
            Some(px) => {
                if !crosses(top, o.side, px) {
                    return Some(None);
                }
                let left = o.try_remaining()?;
                self.size_trade(trade_price(top, o.side, px), left, available)
            },
        }
    }

    fn market_trade(
        &self,
        o: &Order,
        top: &Option<BookTop>,
    ) -> (r: Option<Option<(Decimal, Decimal)>>)
        ensures
            trade_view(r) == self@.market_trade(o@, views::opt_view(*top)),
    {
        let t = match top {
            Some(t) => t,
            None => return Some(None),
        };
        let px = match market_price(t, o.side)? {
            Some(px) => px,
            None => return Some(None),
        };
        let slip = px.checked_mul(self.slippage)?;
        let at = match o.side {
            OrderSide::Buy => px.checked_add(slip)?,
            OrderSide::Sell => px.checked_sub(slip)?,
        };
        let left = o.try_remaining()?;
        let available = match o.side {
            OrderSide::Buy => t.ask_qty,
            OrderSide::Sell => t.bid_qty,
        };
        self.size_trade(at, left, available)
    }

    /// What an order trades at once.
    fn trade_now(
        &self,
        o: &Order,
        top: &Option<BookTop>,
    ) -> (r: Option<Option<(Decimal, Decimal)>>)
        ensures
            trade_view(r) == self@.immediate_trade(o@, views::opt_view(*top)),
    {
        match o.order_type {
            OrderType::Stop | OrderType::PostOnly => Some(None),
            OrderType::Market => self.market_trade(o, top),
            OrderType::Limit => match top {
                None => Some(None),
                Some(t) => {
                    let available = match o.side {
                        OrderSide::Buy => t.ask_qty,
                        OrderSide::Sell => t.bid_qty,
                    };
                    self.limit_trade(o, t, available)
                },
            },
        }
    }

    /// Max quantity fillable right now against L1 (used by FOK checks).
    pub fn fillable_now(&self, o: &Order, top: &Option<BookTop>) -> (r: Option<Decimal>)
        ensures
            views::opt_view(r) == self@.fillable(o@, views::opt_view(*top)),
    {
        let t = match top {
            Some(t) => t,
            None => return if o.order_type == OrderType::Market && self.kind
                == FillModelKind::Immediate {
                o.try_remaining()
            } else {
                Some(Decimal::zero())
            },
        };
        let meets = match o.order_type {
            OrderType::Stop => false,
            OrderType::Market => true,
            _ => match o.price {
                Some(px) => crosses(t, o.side, px),
                None => false,
            },
        };
        if !meets {
            return Some(Decimal::zero());
        }
        let available = match o.side {
            OrderSide::Buy => t.ask_qty,
            OrderSide::Sell => t.bid_qty,
        };
        let left = o.try_remaining()?;
        self.clip_qty(left, available)
    }
}

/// A trade by its views.
pub open spec fn trade_view(t: Option<Option<(Decimal, Decimal)>>) -> Trade {
    match t {
        None => None,
        Some(None) => Some(None),
        Some(Some(x)) => Some(Some((x.0@, x.1@))),
    }
}

impl PaperEngine {
    pub fn new(fill_model: FillModel) -> (r: Self)
        ensures
            r@ == (PaperView {
                model: fill_model@,
                orders: Seq::empty(),
                book: Seq::empty(),
                instruments: Seq::empty(),
                pending: Seq::empty(),
            }),
    {
        let r = PaperEngine {
            fill_model,
            desk: PaperDesk {
                orders: Table::new(),
                book: Table::new(),
                instruments: Table::new(),
                pending_fills: Vec::new(),
            },
        };
        assert(r@.pending =~= Seq::empty());
        r
    }

    /// Lets the engine know an instrument, by whose tick, step, minimum quantity
    /// and minimum notional orders are held from now on.
    pub fn register_instrument(&mut self, instrument: Instrument)
        ensures
            final(self)@ == old(self)@.with_instrument(instrument@),
    {
        self.desk.instruments.insert(instrument.id.as_str().to_owned(), instrument);
    }

    /// Drain fills produced since last call (for portfolio / event bus).
    pub fn take_fills(&mut self) -> (r: Vec<Fill>)
        ensures
            views::seq_view(r@) == old(self)@.pending,
            final(self)@ == (PaperView { pending: Seq::empty(), ..old(self)@ }),
    {
        let mut r: Vec<Fill> = Vec::new();
        core::mem::swap(&mut r, &mut self.desk.pending_fills);
        assert(self@.pending =~= Seq::empty());
        r
    }

    fn not_found(order_id: &OrderId) -> (r: TuxError)
        ensures
            r@ == paper_order_not_found(order_id@),
    {
        TuxError::InvalidOrder(join3("paper order ", order_id.as_str(), " not found"))
    }

    /// Sync lookup used when a fill is applied.
    pub fn query_order_blocking(&self, order_id: &OrderId) -> (r: Result<Order>)
        ensures
            match table::lookup(self@.orders, order_id@) {
                Some(o) => r matches Ok(x) && x@ == o,
                None => r matches Err(e) && e@ == paper_order_not_found(order_id@),
            },
    {
        match self.desk.orders.get(order_id.as_str()) {
            Some(o) => Ok(o.clone()),
            None => Err(PaperEngine::not_found(order_id)),
        }
    }

    /// Re-seat an order after restart so it can still match or cancel.
    pub fn restore_order(&mut self, order: Order)
        ensures
            final(self)@ == old(self)@.with_order(order@, None),
    {
        self.desk.orders.insert(order.id.as_str().to_owned(), order);
    }

    /// One round of matching at `now`, without any change yet: the orders that
    /// change and the fills.
    fn match_resting(
        &self,
        instrument: &InstrumentId,
        top: &BookTop,
        now: TimestampMs,
    ) -> (r: Option<(Vec<(usize, Order)>, Vec<Fill>)>)
        ensures
            match r {
                None => self@.matched(instrument@, top@, now) is None,
                Some(x) => {
                    &&& self@.matched(instrument@, top@, now) matches Some(m)
                    &&& m.orders == patched(self@.orders, x.0@)
                    &&& m.fills == anonymous_all(views::seq_view(x.1@))
                    &&& fill_ids_ok(views::seq_view(x.1@))
                    &&& forall|i: int|
                        0 <= i < x.0@.len() ==> (#[trigger] x.0@[i]).0 < self@.orders.len()
                },
            },
    {
        let ghost model = self@.model;
        let ghost all = self@.orders;
        let ghost total = all.len() as int;
        let mut changes: Vec<(usize, Order)> = Vec::new();
        let mut fills: Vec<Fill> = Vec::new();
        // Consume displayed L1 size across multiple orders (no double-spend).
        let mut bid_left = top.bid_qty;
        let mut ask_left = top.ask_qty;
        let mut i: usize = 0;
        assert(anonymous_all(views::seq_view(fills@)) =~= Seq::empty());
        while i < self.desk.orders.len()
            invariant
                model == self@.model,
                all == self@.orders,
                total == all.len(),
                i <= all.len(),
                model.matching(top@, instrument@, all, i as int, now) == Some(
                    Matching {
                        bid_left: bid_left@,
                        ask_left: ask_left@,
                        orders: patched(all, changes@),
                        fills: anonymous_all(views::seq_view(fills@)),
                    },
                ),
                fill_ids_ok(views::seq_view(fills@)),
                forall|j: int| 0 <= j < changes@.len() ==> (#[trigger] changes@[j]).0 < all.len(),
            decreases all.len() - i,
        {
            let o = self.desk.orders.value_at(i);
            let ghost entry = all[i as int];
            let ghost m = model.matching(top@, instrument@, all, i as int, now)->0;
            let waits = o.instrument_id == *instrument && matches!(
                o.status,
                OrderStatus::Acknowledged | OrderStatus::PartiallyFilled
            ) && matches!(o.order_type, OrderType::Limit | OrderType::PostOnly);
            assert(waits == resting(o@, instrument@));
            if waits {
                let available = match o.side {
                    OrderSide::Buy => ask_left,
                    OrderSide::Sell => bid_left,
                };
                let trade = match self.fill_model.limit_trade(o, top, available) {
                    Some(t) => t,
                    None => {
                        proof {
                            lemma_matching_stays_out(
                                model,
                                top@,
                                instrument@,
                                all,
                                i + 1,
                                total,
                                now,
                            );
                        }
                        return None;
                    },
                };
                if let Some((price, qty)) = trade {
                    let rest = match available.checked_sub(qty) {
                        Some(l) => l.max(Decimal::zero()),
                        None => {
                            proof {
                                lemma_matching_stays_out(
                                    model,
                                    top@,
                                    instrument@,
                                    all,
                                    i + 1,
                                    total,
                                    now,
                                );
                            }
                            return None;
                        },
                    };
                    let mut changed = o.clone();
                    let fill = match self.fill_model.apply_fill(
                        &mut changed,
                        price,
                        qty,
                        true,
                        now,
                    ) {
                        Some(f) => f,
                        None => {
                            proof {
                                lemma_matching_stays_out(
                                    model,
                                    top@,
                                    instrument@,
                                    all,
                                    i + 1,
                                    total,
                                    now,
                                );
                            }
                            return None;
                        },
                    };
                    match o.side {
                        OrderSide::Buy => {
                            ask_left = rest;
                        },
                        OrderSide::Sell => {
                            bid_left = rest;
                        },
                    }
                    let ghost old_changes = changes@;
                    let ghost old_fills = views::seq_view(fills@);
                    proof {
                        views::lemma_seq_view_push(fills@, fill);
                    }
                    fills.push(fill);
                    changes.push((i, changed));
                    proof {
                        assert(changes@.drop_last() =~= old_changes);
                        assert(anonymous_all(old_fills.push(fill@)) =~= anonymous_all(
                            old_fills,
                        ).push(anonymous(fill@)));
                        assert forall|j: int| 0 <= j < old_fills.push(fill@).len() implies fill_id_ok(
                            (#[trigger] old_fills.push(fill@)[j]).id,
                        ) by {
                            if j < old_fills.len() {
                                assert(fill_id_ok(old_fills[j].id));
                            }
                        }
                    }
                }
            }
            i = i + 1;
        }
        Some((changes, fills))
    }

    /// Takes a quote at `now` and matches resting orders; `None`, and no change,
    /// when a number on the way is out of range.
    pub fn try_on_book_top_at(
        &mut self,
        instrument: &InstrumentId,
        top: BookTop,
        now: TimestampMs,
    ) -> (r: Option<Vec<Fill>>)
        ensures
            match r {
                None => old(self)@.matched(instrument@, top@, now) is None && final(self)@
                    == old(self)@,
                Some(fills) => {
                    &&& old(self)@.matched(instrument@, top@, now) matches Some(m)
                    &&& anonymous_all(views::seq_view(fills@)) == m.fills
                    &&& fill_ids_ok(views::seq_view(fills@))
                    &&& final(self)@ == old(self)@.with_quote(
                        instrument@,
                        top@,
                        now,
                        views::seq_view(fills@),
                    )
                },
            },
    {
        let (changes, fills) = self.match_resting(instrument, &top, now)?;
        let ghost start = self@;
        let ghost shown = top@;
        self.desk.book.insert(instrument.as_str().to_owned(), top);
        let mut k: usize = 0;
        while k < changes.len()
            invariant
                k <= changes@.len(),
                forall|j: int|
                    0 <= j < changes@.len() ==> (#[trigger] changes@[j]).0 < start.orders.len(),
                self@ == (PaperView {
                    book: table::put(start.book, instrument@, shown),
                    orders: patched(start.orders, changes@.take(k as int)),
                    ..start
                }),
            decreases changes@.len() - k,
        {
            proof {
                assert forall|j: int| 0 <= j < k implies (#[trigger] changes@.take(k as int)[j]).0
                    < start.orders.len() by {
                    assert(changes@[j].0 < start.orders.len());
                }
                lemma_patched_keys(start.orders, changes@.take(k as int));
                assert(changes@.take(k + 1).drop_last() =~= changes@.take(k as int));
                assert(changes@.take(k + 1).last() == changes@[k as int]);
                assert(changes@[k as int].0 < start.orders.len());
            }
            self.desk.orders.replace_at(changes[k].0, changes[k].1.clone());
            k = k + 1;
        }
        assert(changes@.take(k as int) =~= changes@);
        let mut j: usize = 0;
        let ghost before = self@;
        let ghost views_of = views::seq_view(fills@);
        assert(before.pending + views_of.take(0) =~= before.pending);
        while j < fills.len()
            invariant
                j <= fills@.len(),
                views_of == views::seq_view(fills@),
                self@ == (PaperView { pending: before.pending + views_of.take(j as int), ..before }),
            decreases fills@.len() - j,
        {
            let f = fills[j].clone();
            proof {
                views::lemma_seq_view_push(self.desk.pending_fills@, f);
                assert(before.pending + views_of.take(j + 1) =~= (before.pending + views_of.take(
                    j as int,
                )).push(f@));
            }
            self.desk.pending_fills.push(f);
            j = j + 1;
        }
        assert(views_of.take(j as int) =~= views_of);
        Some(fills)
    }
}

impl PaperView {
    /// What an order comes to at `now`: the engine before and after, and the
    /// order as it stands.
    pub open spec fn places(
        self,
        order: OrderView,
        now: TimestampMs,
        placed: OrderView,
        after: PaperView,
    ) -> bool {
        self.placement(order, now) matches Some(p) && {
            &&& placed == p.order
            &&& match p.trade {
                None => after == self.with_order(placed, None),
                Some(t) => exists|f: FillView|
                    {
                        &&& #[trigger] anonymous(f) == self.model.fill_of(
                            self.arrived(order, now),
                            t.0,
                            t.1,
                            false,
                            now,
                        )
                        &&& fill_id_ok(f.id)
                        &&& after == self.with_order(placed, Some(f))
                    },
            }
        }
    }

    /// Whether an order can be cancelled.
    pub open spec fn cancellable(o: OrderView) -> bool {
        ||| o.status == OrderStatus::Acknowledged
        ||| o.status == OrderStatus::PartiallyFilled
        ||| o.status == OrderStatus::Submitted
    }
}

impl PaperEngine {
    /// Feed market data so resting orders can match and market orders can price;
    /// `None`, and no change, when a number on the way is out of range.
    pub fn try_on_book_top(
        &mut self,
        instrument: &InstrumentId,
        top: BookTop,
    ) -> (r: Option<Vec<Fill>>)
        ensures
            exists|now: TimestampMs|
                ids::clock_gives(now) && match r {
                    None => (#[trigger] old(self)@.matched(instrument@, top@, now)) is None
                        && final(self)@ == old(self)@,
                    Some(fills) => {
                        &&& old(self)@.matched(instrument@, top@, now) matches Some(m)
                        &&& anonymous_all(views::seq_view(fills@)) == m.fills
                        &&& fill_ids_ok(views::seq_view(fills@))
                        &&& final(self)@ == old(self)@.with_quote(
                            instrument@,
                            top@,
                            now,
                            views::seq_view(fills@),
                        )
                    },
                },
    {
        let ghost shown = top@;
        let now = now_ms();
        let r = self.try_on_book_top_at(instrument, top, now);
        assert(r is None == old(self)@.matched(instrument@, shown, now) is None);
        r
    }

    /// Feed market data so resting orders can match and market orders can price.
    pub fn on_book_top(&mut self, instrument: &InstrumentId, top: BookTop) -> (r: Vec<Fill>)
        requires
            forall|now: TimestampMs|
                ids::clock_gives(now) ==> (#[trigger] old(self)@.matched(
                    instrument@,
                    top@,
                    now,
                )) is Some,
        ensures
            exists|now: TimestampMs|
                {
                    &&& ids::clock_gives(now)
                    &&& (#[trigger] old(self)@.matched(instrument@, top@, now)) matches Some(m)
                    &&& anonymous_all(views::seq_view(r@)) == m.fills
                    &&& fill_ids_ok(views::seq_view(r@))
                    &&& final(self)@ == old(self)@.with_quote(
                        instrument@,
                        top@,
                        now,
                        views::seq_view(r@),
                    )
                },
    {
        self.try_on_book_top(instrument, top).unwrap()
    }

    /// Whether an unfinished order has the client order id.
    fn has_duplicate(&self, clid: &ClientOrderId) -> (r: bool)
        ensures
            r == self@.duplicate(clid@, self@.orders.len() as int),
    {
        let mut i: usize = 0;
        while i < self.desk.orders.len()
            invariant
                i <= self@.orders.len(),
                !self@.duplicate(clid@, i as int),
            decreases self@.orders.len() - i,
        {
            let o = self.desk.orders.value_at(i);
            if o.client_order_id == *clid && !o.status.is_terminal() {
                assert(self@.orders[i as int].1.client_order_id == clid@);
                return true;
            }
            assert forall|j: int| 0 <= j < i + 1 implies !((#[trigger] self@.orders[j]).1.client_order_id
                == clid@ && !self@.orders[j].1.status.terminal()) by {
                if j < i {
                    assert(!self@.duplicate(clid@, i as int));
                }
            }
            i = i + 1;
        }
        false
    }

    /// What an order is worth, if there is a price for it.
    fn worth(&self, o: &Order) -> (r: Option<Option<Decimal>>)
        ensures
            match r {
                None => self@.worth(o@) is None,
                Some(n) => self@.worth(o@) == Some(views::opt_view(n)),
            },
    {
        let price = if o.order_type != OrderType::Market {
            o.price
        } else {
            match self.desk.book.get(o.instrument_id.as_str()) {
                None => None,
                Some(t) => market_price(t, o.side)?,
            }
        };
        match price {
            None => Some(None),
            Some(p) => Some(Some(p.checked_mul(o.quantity)?)),
        }
    }

    /// What an order breaks of the rules of its instrument.
    fn breach(&self, o: &Order) -> (r: Option<Option<&'static str>>)
        ensures
            match r {
                None => self@.breach(o@) is None,
                Some(None) => self@.breach(o@) == Some(None::<Seq<char>>),
                Some(Some(reason)) => self@.breach(o@) == Some(Some(reason@)),
            },
    {
        let i = match self.desk.instruments.get(o.instrument_id.as_str()) {
            None => return Some(None),
            Some(i) => i,
        };
        if o.order_type == OrderType::Stop {
            return Some(None);
        }
        if o.order_type != OrderType::Market {
            if let Some(px) = o.price {
                if !i.try_validate_price(px)? {
                    return Some(Some("price violates tick size"));
                }
            }
        }
        if !i.try_validate_qty(o.quantity)? {
            return Some(Some("quantity violates step/min/max"));
        }
        if i.min_notional.is_none() {
            return Some(None);
        }
        match self.worth(o)? {
            None => Some(None),
            Some(n) => if i.validate_notional(n) {
                Some(None)
            } else {
                Some(Some("below min notional"))
            },
        }
    }

    /// How an order stands once it has traded what it could at once.
    fn settle(&self, order: &mut Order, now: TimestampMs)
        ensures
            final(order)@ == self@.settled(old(order)@, now),
    {
        proof {
            decimal::lemma_sign_of_units(order.filled_quantity@);
        }
        // IOC: fill what we can now, cancel remainder. FOK was handled before.
        if order.time_in_force == TimeInForce::Ioc {
            if order.filled_quantity < order.quantity {
                let _ = order.apply_status(OrderStatus::Cancelled, now);
                if order.reject_reason.is_none() {
                    order.reject_reason = Some("ioc remainder cancelled".to_owned());
                }
            }
        } else if order.status == OrderStatus::Submitted {
            if order.filled_quantity > Decimal::zero() {
            } else if order.order_type == OrderType::Market {
                order.status = OrderStatus::Rejected;
                order.reject_reason = Some("no market reference price / liquidity".to_owned());
            } else {
                order.status = OrderStatus::Acknowledged;
            }
        }
    }

    /// What an order would come to at `now`, and its fill if it would trade;
    /// `None` when a number on the way is out of range.
    fn plan(&self, order: &Order, now: TimestampMs) -> (r: Option<Result<(Order, Option<Fill>)>>)
        ensures
            match self@.refusal(order@) {
                Some(e) => r matches Some(Err(x)) && x@ == e,
                None => match r {
                    None => self@.placement(order@, now) is None,
                    Some(Err(_)) => false,
                    Some(Ok(x)) => self@.placement(order@, now) matches Some(p) && {
                        &&& x.0@ == p.order
                        &&& match (p.trade, x.1) {
                            (None, None) => true,
                            (Some(t), Some(f)) => {
                                &&& anonymous(f@) == self@.model.fill_of(
                                    self@.arrived(order@, now),
                                    t.0,
                                    t.1,
                                    false,
                                    now,
                                )
                                &&& fill_id_ok(f@.id)
                            },
                            _ => false,
                        }
                    },
                },
            },
    {
        if !self.validate_client_order_id(&order.client_order_id) {
            return Some(Err(TuxError::InvalidOrder("client_order_id rejected".to_owned())));
        }
        // Detect duplicate client_order_id (restart safety).
        if self.has_duplicate(&order.client_order_id) {
            return Some(
                Err(
                    TuxError::InvalidOrder(
                        join2("duplicate client_order_id ", order.client_order_id.as_str()),
                    ),
                ),
            );
        }
        if let Some(reason) = self.breach(order)? {
            return Some(Err(TuxError::InvalidOrder(reason.to_owned())));
        }
        let mut o = order.clone();
        // Stop trigger is not implemented — reject rather than fake a fill.
        if o.order_type == OrderType::Stop {
            o.status = OrderStatus::Rejected;
            o.reject_reason = Some("stop orders not supported in paper MVP".to_owned());
            return Some(Ok((o, None)));
        }
        o.status = OrderStatus::Submitted;
        o.venue_order_id = Some(join2("paper_", o.id.as_str()));
        o.updated_at = now;
        let ghost arrived = o@;
        assert(arrived == self@.arrived(order@, now));

        let top = copy_top(self.desk.book.get(o.instrument_id.as_str()));
        let ghost shown = views::opt_view(top);
        assert(shown == self@.top(arrived.instrument_id));

        // Post-only: reject if it would cross; else rest as maker.
        if o.order_type == OrderType::PostOnly {
            let crossing = match (&top, o.price) {
                (Some(t), Some(px)) => crosses(t, o.side, px),
                _ => false,
            };
            if crossing {
                o.status = OrderStatus::Rejected;
                o.reject_reason = Some("post_only would cross".to_owned());
            } else {
                o.status = OrderStatus::Acknowledged;
            }
            return Some(Ok((o, None)));
        }
        // FOK: all-or-none against current liquidity.
        if o.time_in_force == TimeInForce::Fok {
            let need = o.try_remaining()?;
            let fillable = self.fill_model.fillable_now(&o, &top)?;
            if respects_liquidity(self.fill_model.kind) && fillable < need {
                o.status = OrderStatus::Cancelled;
                o.reject_reason = Some("fok: insufficient liquidity".to_owned());
                return Some(Ok((o, None)));
            }
        }
        if let Some(t) = &top {
            t.try_mid()?;
        }
        match self.fill_model.trade_now(&o, &top)? {
            None => {
                self.settle(&mut o, now);
                Some(Ok((o, None)))
            },
            Some((price, qty)) => {
                let fill = self.fill_model.apply_fill(&mut o, price, qty, false, now)?;
                self.settle(&mut o, now);
                Some(Ok((o, Some(fill))))
            },
        }
    }

    /// Whether the engine can take the order without leaving the range of
    /// numbers.
    pub fn takes(&self, order: &Order) -> (r: bool)
        ensures
            r == self.can_place(order@),
    {
        self.plan(order, 0).is_some()
    }

    /// Places an order at `now`; `None`, and no change, when a number on the way
    /// is out of range.
    pub fn try_place_order_at(
        &mut self,
        order: &Order,
        now: TimestampMs,
    ) -> (r: Option<Result<Order>>)
        ensures
            match old(self)@.refusal(order@) {
                Some(e) => final(self)@ == old(self)@ && (r matches Some(Err(x)) && x@ == e),
                None => match r {
                    None => final(self)@ == old(self)@ && old(self)@.placement(order@, now) is None,
                    Some(Err(_)) => false,
                    Some(Ok(x)) => old(self)@.places(order@, now, x@, final(self)@),
                },
            },
    {
        let (o, fill) = match self.plan(order, now)? {
            Ok(planned) => planned,
            Err(e) => return Some(Err(e)),
        };
        self.desk.orders.insert(o.id.as_str().to_owned(), o.clone());
        if let Some(f) = fill {
            proof {
                views::lemma_seq_view_push(self.desk.pending_fills@, f);
            }
            self.desk.pending_fills.push(f);
            assert(self@ =~= old(self)@.with_order(o@, Some(f@)));
        }
        Some(Ok(o))
    }

    /// Cancels an order at `now`: an open order is cancelled, a finished one
    /// stays as it is.
    pub fn cancel_order_at(&mut self, order_id: &OrderId, now: TimestampMs) -> (r: Result<Order>)
        ensures
            match table::lookup(old(self)@.orders, order_id@) {
                None => final(self)@ == old(self)@ && (r matches Err(e) && e@
                    == paper_order_not_found(order_id@)),
                Some(o) => if PaperView::cancellable(o) {
                    &&& r matches Ok(x) && x@ == o.with_status(OrderStatus::Cancelled, now)
                    &&& final(self)@ == (PaperView {
                        orders: table::put(
                            old(self)@.orders,
                            order_id@,
                            o.with_status(OrderStatus::Cancelled, now),
                        ),
                        ..old(self)@
                    })
                } else if o.status.terminal() {
                    final(self)@ == old(self)@ && (r matches Ok(x) && x@ == o)
                } else {
                    final(self)@ == old(self)@ && (r matches Err(e) && e@
                        == ErrorView::InvalidOrder("cannot cancel order in "@ + o.status.text()))
                },
            },
    {
        let mut o = match self.desk.orders.get(order_id.as_str()) {
            Some(o) => o.clone(),
            None => return Err(PaperEngine::not_found(order_id)),
        };
        match o.status {
            OrderStatus::Acknowledged | OrderStatus::PartiallyFilled | OrderStatus::Submitted => {
                let done = o.apply_status(OrderStatus::Cancelled, now);
                assert(done is Ok);
                self.desk.orders.insert(order_id.as_str().to_owned(), o.clone());
                Ok(o)
            },
            s => if s.is_terminal() {
                Ok(o)
            } else {
                Err(TuxError::InvalidOrder(join2("cannot cancel order in ", s.as_str())))
            },
        }
    }
}

impl ExecutionPort for PaperEngine {
    open spec fn can_place(&self, order: OrderView) -> bool {
        self@.refusal(order) is Some || self@.placement(order, 0) is Some
    }

    open spec fn may_place(
        before: Self,
        order: OrderView,
        after: Self,
        answer: Result<Order>,
    ) -> bool {
        match before@.refusal(order) {
            Some(e) => after@ == before@ && (answer matches Err(x) && x@ == e),
            None => answer matches Ok(x) && exists|now: TimestampMs|
                ids::clock_gives(now) && #[trigger] before@.places(order, now, x@, after@),
        }
    }

    open spec fn may_cancel(
        before: Self,
        order_id: Seq<char>,
        after: Self,
        answer: Result<Order>,
    ) -> bool {
        match table::lookup(before@.orders, order_id) {
            None => after@ == before@ && (answer matches Err(e) && e@ == paper_order_not_found(
                order_id,
            )),
            Some(o) => if PaperView::cancellable(o) {
                exists|now: TimestampMs|
                    {
                        &&& ids::clock_gives(now)
                        &&& answer matches Ok(x) && x@ == #[trigger] o.with_status(
                            OrderStatus::Cancelled,
                            now,
                        )
                        &&& after@ == (PaperView {
                            orders: table::put(
                                before@.orders,
                                order_id,
                                o.with_status(OrderStatus::Cancelled, now),
                            ),
                            ..before@
                        })
                    }
            } else if o.status.terminal() {
                after@ == before@ && (answer matches Ok(x) && x@ == o)
            } else {
                after@ == before@ && (answer matches Err(e) && e@ == ErrorView::InvalidOrder(
                    "cannot cancel order in "@ + o.status.text(),
                ))
            },
        }
    }

    open spec fn may_report(&self, order_id: Seq<char>, answer: Result<Order>) -> bool {
        match table::lookup(self@.orders, order_id) {
            Some(o) => answer matches Ok(x) && x@ == o,
            None => answer matches Err(e) && e@ == paper_order_not_found(order_id),
        }
    }

    open spec fn may_judge(&self, id: Seq<char>, valid: bool) -> bool {
        valid == client_order_id_valid(id)
    }

    fn place_order(&mut self, order: &Order) -> (r: Result<Order>) {
        let now = now_ms();
        proof {
            law_placement_range_is_timeless(self@, order@, now, 0);
        }
        self.try_place_order_at(order, now).unwrap()
    }

    fn cancel_order(&mut self, order_id: &OrderId) -> (r: Result<Order>) {
        self.cancel_order_at(order_id, now_ms())
    }

    fn query_order(&self, order_id: &OrderId) -> (r: Result<Order>) {
        self.query_order_blocking(order_id)
    }

    fn validate_client_order_id(&self, id: &ClientOrderId) -> (r: bool) {
        let s = id.as_str();
        !s.is_empty() && s.as_bytes().len() <= 36
    }
}

/// Whether the numbers of a placement are in range does not depend on the time.
pub proof fn law_placement_range_is_timeless(
    e: PaperView,
    order: OrderView,
    now: TimestampMs,
    then: TimestampMs,
)
    ensures
        e.placement(order, now) is Some <==> e.placement(order, then) is Some,
{
    let a = e.arrived(order, now);
    let b = e.arrived(order, then);
    assert(e.breach(a) == e.breach(b));
    assert(a.remaining() == b.remaining());
    let top = e.top(a.instrument_id);
    assert(e.model.fillable(a, top) == e.model.fillable(b, top));
    assert(e.kills(a) == e.kills(b));
    assert(e.model.immediate_trade(a, top) == e.model.immediate_trade(b, top));
    if let Some(Some(t)) = e.model.immediate_trade(a, top) {
        assert(average(a, t.0, t.1, a.filled_quantity.plus(t.1)->0) == average(
            b,
            t.0,
            t.1,
            a.filled_quantity.plus(t.1)->0,
        ));
        assert(e.model.can_fill(a, t.0, t.1, false) == e.model.can_fill(b, t.0, t.1, false));
    }
}

/// Whether the engine can take a submitted order does not depend on the time at
/// which it was submitted.
pub proof fn lemma_sending_time_does_not_count(
    e: PaperView,
    order: OrderView,
    sent: TimestampMs,
    then: TimestampMs,
)
    ensures
        ({
            let a = order.with_status(OrderStatus::Submitted, sent);
            let b = order.with_status(OrderStatus::Submitted, then);
            &&& e.refusal(a) == e.refusal(b)
            &&& e.placement(a, 0) is Some <==> e.placement(b, 0) is Some
        }),
{
    let a = order.with_status(OrderStatus::Submitted, sent);
    let b = order.with_status(OrderStatus::Submitted, then);
    assert(e.breach(a) == e.breach(b));
    assert(e.arrived(a, 0) == e.arrived(b, 0));
}

/// Whatever trades is more than nothing and no more than what the order has
/// left, and under a model that respects liquidity no more than its share of
/// what is on offer.
pub proof fn law_trade_is_bounded(
    model: ModelView,
    price: DecimalView,
    left: DecimalView,
    available: DecimalView,
    qty: DecimalView,
)
    requires
        model.sized(price, left, available) == Some(Some((price, qty))),
    ensures
        qty.positive(),
        qty.le(left),
        model.kind == FillModelKind::L1 ==> qty.le(available),
        model.kind == FillModelKind::Queue ==> (available.times(
            queue_factor(model.random_seed),
        ) matches Some(share) && qty.le(share)),
{
    decimal::lemma_sign_of_units(qty);
}

/// A fill never takes an order above its quantity: where the sums need no
/// rounding, what is filled grows by the traded quantity and stays within the
/// order.
pub proof fn law_no_overfill(
    model: ModelView,
    o: OrderView,
    price: DecimalView,
    qty: DecimalView,
    now: TimestampMs,
)
    requires
        o.quantity.wf(),
        o.filled_quantity.wf(),
        qty.wf(),
        qty.positive(),
        o.remaining() matches Some(left) && qty.le(left),
        o.quantity.subtracts_exactly(o.filled_quantity),
        o.filled_quantity.adds_exactly(qty),
        model.filled_order(o, price, qty, now) is Some,
    ensures
        ({
            let after = model.filled_order(o, price, qty, now)->0;
            &&& after.filled_quantity.units() == o.filled_quantity.units() + qty.units()
            &&& after.filled_quantity.le(o.quantity)
            &&& after.quantity == o.quantity
        }),
{
    decimal::lemma_exact_difference(o.quantity, o.filled_quantity);
    decimal::lemma_exact_sum(o.filled_quantity, qty);
}

/// A number minus itself is zero.
proof fn lemma_minus_itself(a: DecimalView)
    requires
        a.wf(),
    ensures
        a.minus(a) matches Some(z) && z.mantissa == 0,
{
    if a.mantissa != 0 {
        let s = a.common_scale(a);
        assert(decimal::pow10(0) == 1);
        assert(a.at_scale(s) == a.mantissa) by (nonlinear_arith)
            requires
                a.at_scale(s) == a.mantissa * decimal::pow10((s - a.scale) as nat),
                s == a.scale,
                decimal::pow10(0) == 1,
        ;
        assert(a.neg().at_scale(s) == -a.mantissa) by (nonlinear_arith)
            requires
                a.neg().at_scale(s) == a.neg().mantissa * decimal::pow10(
                    (s - a.neg().scale) as nat,
                ),
                a.neg().mantissa == -a.mantissa,
                a.neg().scale == a.scale,
                s == a.scale,
                decimal::pow10(0) == 1,
        ;
        assert(a.common_scale(a.neg()) == s);
        assert(a.aligned(a.neg()));
    }
}

/// Fill-or-kill is all or none: under a model that respects liquidity a fresh
/// order is filled as a whole or not at all, and a limit order that is not
/// filled is cancelled.
pub proof fn law_fok_all_or_none(e: PaperView, order: OrderView, now: TimestampMs, p: Placement)
    requires
        order.time_in_force == TimeInForce::Fok,
        order.order_type == OrderType::Limit || order.order_type == OrderType::Market,
        order.filled_quantity.mantissa == 0,
        order.quantity.wf(),
        order.quantity.positive(),
        liquidity_counts(e.model.kind),
        e.placement(order, now) == Some(p),
    ensures
        match p.trade {
            Some(t) => {
                &&& t.1 == order.quantity
                &&& p.order.filled_quantity == order.quantity
                &&& p.order.status == OrderStatus::Filled
            },
            None => {
                &&& p.order.filled_quantity == order.filled_quantity
                &&& p.order.status.terminal()
                &&& order.order_type == OrderType::Limit ==> p.order.status
                    == OrderStatus::Cancelled
            },
        },
{
    let o = e.arrived(order, now);
    let top = e.top(o.instrument_id);
    assert(o.remaining() == Some(order.quantity));
    lemma_minus_itself(order.quantity);
    decimal::lemma_sign_of_units(order.quantity);
    decimal::lemma_sign_of_units(DecimalView::zero());
    if e.kills(o) == Some(false) {
        let t = top->0;
        let fillable = e.model.fillable(o, top)->0;
        decimal::lemma_sign_of_units(fillable);
        assert(top is Some);
        assert(fillable == e.model.clip(order.quantity, t.displayed(o.side))->0);
        assert(fillable == order.quantity);
        if let Some(Some(trade)) = e.model.immediate_trade(o, top) {
            assert(trade.1 == order.quantity);
            let after = e.model.filled_order(o, trade.0, trade.1, now)->0;
            assert(after.filled_quantity == order.quantity);
            assert(after.status == OrderStatus::Filled);
        }
    }
}

/// An immediate-or-cancel order never rests: whatever part of it is not filled
/// at once is cancelled. Stated where what is left needs no rounding.
pub proof fn law_ioc_never_rests(e: PaperView, order: OrderView, now: TimestampMs, p: Placement)
    requires
        order.time_in_force == TimeInForce::Ioc,
        order.order_type == OrderType::Limit || order.order_type == OrderType::Market,
        order.quantity.wf(),
        p.order.filled_quantity.wf(),
        order.quantity.subtracts_exactly(p.order.filled_quantity),
        e.placement(order, now) == Some(p),
        p.order.filled_quantity.lt(order.quantity),
    ensures
        p.order.status == OrderStatus::Cancelled,
{
    decimal::lemma_exact_difference(order.quantity, p.order.filled_quantity);
    decimal::lemma_sign_of_units(order.quantity.exact_difference(p.order.filled_quantity));
}

/// A post-only order never takes liquidity: it does not trade when it is
/// placed, it is refused when it would cross and rests otherwise.
pub proof fn law_post_only_takes_nothing(
    e: PaperView,
    order: OrderView,
    now: TimestampMs,
    p: Placement,
)
    requires
        order.order_type == OrderType::PostOnly,
        e.placement(order, now) == Some(p),
    ensures
        p.trade is None,
        p.order.filled_quantity == order.filled_quantity,
        p.order.status == OrderStatus::Rejected <==> (e.top(order.instrument_id) matches Some(t)
            && (order.price matches Some(px) && t.crosses(order.side, px))),
        p.order.status == OrderStatus::Rejected || p.order.status == OrderStatus::Acknowledged,
{
}

/// Tick, step, minimum quantity and minimum notional are enforced: an order in a
/// known instrument that is not refused keeps to all of them.
pub proof fn law_rules_are_enforced(
    e: PaperView,
    order: OrderView,
    now: TimestampMs,
    i: InstrumentView,
)
    requires
        table::lookup(e.instruments, order.instrument_id) == Some(i),
        order.order_type != OrderType::Stop,
        e.refusal(order) is None,
        e.placement(order, now) is Some,
    ensures
        order.order_type != OrderType::Market ==> (order.price matches Some(px) ==> i.price_valid(
            px,
        )),
        i.qty_valid(order.quantity),
        i.min_notional is Some ==> (e.worth(order) matches Some(w) && (w matches Some(n)
            ==> i.notional_valid(n))),
{
}

/// An order that breaks a rule of its instrument is refused: it is neither kept
/// nor filled.
pub proof fn law_breach_is_refused(e: PaperView, order: OrderView)
    requires
        e.breach(order) matches Some(b) && b is Some,
    ensures
        e.refusal(order) is Some,
{
}

/// An instrument that was registered is known, and no other one is affected.
pub proof fn law_registered_is_known(e: PaperView, i: InstrumentView, other: Seq<char>)
    ensures
        table::lookup(e.with_instrument(i).instruments, i.id) == Some(i),
        other != i.id ==> table::lookup(e.with_instrument(i).instruments, other) == table::lookup(
            e.instruments,
            other,
        ),
{
    table::law_put(e.instruments, i.id, i, other);
}

/// A stop order is rejected rather than filled.
pub proof fn law_stop_is_rejected(e: PaperView, order: OrderView, now: TimestampMs)
    requires
        order.order_type == OrderType::Stop,
    ensures
        e.placement(order, now) matches Some(p) && p.trade is None && p.order.status
            == OrderStatus::Rejected,
{
}

/// A placed order can be queried as it stands, and no other order is affected.
pub proof fn law_placed_is_found(
    e: PaperView,
    order: OrderView,
    now: TimestampMs,
    placed: OrderView,
    after: PaperView,
    other: Seq<char>,
)
    requires
        e.places(order, now, placed, after),
    ensures
        placed.id == order.id,
        table::lookup(after.orders, order.id) == Some(placed),
        other != order.id ==> table::lookup(after.orders, other) == table::lookup(e.orders, other),
        after.book == e.book,
        after.model == e.model,
        after.instruments == e.instruments,
{
    table::law_put(e.orders, placed.id, placed, other);
}

/// An order that was re-seated can be queried as it is, and no other order is
/// affected.
pub proof fn law_restored_is_found(e: PaperView, order: OrderView, other: Seq<char>)
    ensures
        table::lookup(e.with_order(order, None).orders, order.id) == Some(order),
        other != order.id ==> table::lookup(e.with_order(order, None).orders, other)
            == table::lookup(e.orders, other),
        e.with_order(order, None).pending == e.pending,
{
    table::law_put(e.orders, order.id, order, other);
}

/// A round of matching touches nothing but the resting orders of the
/// instrument: every other order stands as it did, no order changes its id, and
/// all fills are maker fills in the instrument.
pub proof fn law_matching_is_local(
    model: ModelView,
    top: TopView,
    instrument: Seq<char>,
    orders: Seq<(Seq<char>, OrderView)>,
    n: int,
    now: TimestampMs,
)
    requires
        0 <= n <= orders.len(),
        model.matching(top, instrument, orders, n, now) is Some,
    ensures
        ({
            let m = model.matching(top, instrument, orders, n, now)->0;
            &&& m.orders.len() == orders.len()
            &&& forall|i: int|
                0 <= i < orders.len() ==> {
                    &&& (#[trigger] m.orders[i]).0 == orders[i].0
                    &&& m.orders[i].1.id == orders[i].1.id
                    &&& i >= n || !resting(orders[i].1, instrument) ==> m.orders[i] == orders[i]
                }
            &&& forall|i: int|
                0 <= i < m.fills.len() ==> (#[trigger] m.fills[i]).is_maker
                    && m.fills[i].instrument_id == instrument
        }),
    decreases n,
{
    if n > 0 {
        law_matching_is_local(model, top, instrument, orders, n - 1, now);
    }
}

/// Neither placing an order nor a round of matching changes what an order asks
/// for.
pub proof fn law_terms_are_kept(
    e: PaperView,
    order: OrderView,
    instrument: Seq<char>,
    top: TopView,
    now: TimestampMs,
    i: int,
)
    ensures
        e.placement(order, now) matches Some(p) ==> p.order.same_terms(order),
        e.matched(instrument, top, now) is Some && 0 <= i < e.orders.len() ==> e.matched(
            instrument,
            top,
            now,
        )->0.orders[i].1.same_terms(e.orders[i].1),
{
    if e.matched(instrument, top, now) is Some && 0 <= i < e.orders.len() {
        lemma_matching_keeps_terms(
            e.model,
            top,
            instrument,
            e.orders,
            e.orders.len() as int,
            now,
            i,
        );
    }
}

proof fn lemma_matching_keeps_terms(
    model: ModelView,
    top: TopView,
    instrument: Seq<char>,
    orders: Seq<(Seq<char>, OrderView)>,
    n: int,
    now: TimestampMs,
    i: int,
)
    requires
        0 <= n <= orders.len(),
        0 <= i < orders.len(),
        model.matching(top, instrument, orders, n, now) is Some,
    ensures
        ({
            let m = model.matching(top, instrument, orders, n, now)->0;
            m.orders.len() == orders.len() && m.orders[i].1.same_terms(orders[i].1)
        }),
    decreases n,
{
    if n > 0 {
        lemma_matching_keeps_terms(model, top, instrument, orders, n - 1, now, i);
    }
}

/// What the fills of one side take together, in smallest steps.
pub open spec fn taken(fills: Seq<FillView>, side: OrderSide) -> int
    decreases fills.len(),
{
    if fills.len() == 0 {
        0
    } else if fills.last().side == side {
        taken(fills.drop_last(), side) + fills.last().quantity.units()
    } else {
        taken(fills.drop_last(), side)
    }
}

/// Whether the sizes that a round of matching works with need no rounding.
pub open spec fn sizes_exact(
    model: ModelView,
    top: TopView,
    instrument: Seq<char>,
    orders: Seq<(Seq<char>, OrderView)>,
    n: int,
    now: TimestampMs,
) -> bool {
    forall|k: int|
        0 <= k < n ==> ((#[trigger] model.matching(top, instrument, orders, k, now)) matches Some(m)
            ==> {
            let o = orders[k].1;
            let left = m.left(o.side);
            &&& left.wf()
            &&& left.multiplies_exactly(queue_factor(model.random_seed))
            &&& model.limit_trade(o, top, left) matches Some(Some(t)) ==> t.1.wf()
                && left.subtracts_exactly(t.1)
        })
}

/// A share of a positive size is no more than the size.
proof fn lemma_share_is_smaller(left: DecimalView, seed: u64)
    requires
        left.wf(),
        left.positive(),
        left.multiplies_exactly(queue_factor(seed)),
    ensures
        left.times(queue_factor(seed)) matches Some(share) && share.le(left),
{
    let f = queue_factor(seed);
    let share = left.exact_product(f);
    let m = left.mantissa;
    let p = decimal::pow10((decimal::MAX_SCALE - share.scale) as nat) as int;
    let whole = decimal::pow10((decimal::MAX_SCALE - left.scale) as nat) as int;
    decimal::lemma_pow10_adds(f.scale, (decimal::MAX_SCALE - share.scale) as nat);
    decimal::lemma_pow10_positive((decimal::MAX_SCALE - share.scale) as nat);
    assert(f.scale + (decimal::MAX_SCALE - share.scale) as nat == (decimal::MAX_SCALE
        - left.scale) as nat);
    reveal_with_fuel(decimal::pow10, 3);
    assert(decimal::pow10(1) == 10 && decimal::pow10(2) == 100);
    let c = decimal::pow10(f.scale) as int;
    assert((m * f.mantissa) * p <= m * whole) by (nonlinear_arith)
        requires
            m > 0,
            p >= 1,
            whole == c * p,
            0 < f.mantissa <= c,
    ;
}

/// One quote fills no more than the size that it displays: under a model that
/// respects liquidity, what resting orders of one side take together and what
/// is left of the size add up to the size. Stated where the sizes need no
/// rounding.
pub proof fn law_displayed_size_is_shared(
    model: ModelView,
    top: TopView,
    instrument: Seq<char>,
    orders: Seq<(Seq<char>, OrderView)>,
    n: int,
    now: TimestampMs,
    side: OrderSide,
)
    requires
        0 <= n <= orders.len(),
        liquidity_counts(model.kind),
        model.matching(top, instrument, orders, n, now) is Some,
        sizes_exact(model, top, instrument, orders, n, now),
    ensures
        ({
            let m = model.matching(top, instrument, orders, n, now)->0;
            &&& taken(m.fills, side) + m.left(side).units() == top.displayed(side).units()
            &&& DecimalView::zero().le(top.displayed(side)) ==> DecimalView::zero().le(
                m.left(side),
            )
            &&& DecimalView::zero().le(top.displayed(side)) ==> taken(m.fills, side)
                <= top.displayed(side).units()
        }),
    decreases n,
{
    decimal::lemma_sign_of_units(DecimalView::zero());
    if n > 0 {
        let m = model.matching(top, instrument, orders, n - 1, now)->0;
        assert forall|k: int| 0 <= k < n - 1 implies ((#[trigger] model.matching(
            top,
            instrument,
            orders,
            k,
            now,
        )) matches Some(x) ==> {
            let o = orders[k].1;
            let left = x.left(o.side);
            &&& left.wf()
            &&& left.multiplies_exactly(queue_factor(model.random_seed))
            &&& model.limit_trade(o, top, left) matches Some(Some(t)) ==> t.1.wf()
                && left.subtracts_exactly(t.1)
        }) by {}
        assert(model.matching(top, instrument, orders, n - 1, now) is Some);
        law_displayed_size_is_shared(model, top, instrument, orders, n - 1, now, side);
        let o = orders[n - 1].1;
        let left = m.left(o.side);
        if let Some(Some(t)) = model.limit_trade(o, top, left) {
            let remaining = o.remaining()->0;
            assert(model.sized(t.0, remaining, left) == Some(Some(t)));
            law_trade_is_bounded(model, t.0, remaining, left, t.1);
            decimal::lemma_sign_of_units(t.1);
            decimal::lemma_sign_of_units(left);
            if model.kind == FillModelKind::Queue {
                let share = left.times(queue_factor(model.random_seed))->0;
                decimal::lemma_sign_of_units(share);
                lemma_share_sign(left, model.random_seed);
                lemma_share_is_smaller(left, model.random_seed);
            }
            assert(t.1.le(left));
            decimal::lemma_exact_difference(left, t.1);
            if resting(o, instrument) {
                let fill = model.fill_of(o, t.0, t.1, true, now);
                assert(m.fills.push(fill).drop_last() =~= m.fills);
                assert(m.fills.push(fill).last() == fill);
            }
        }
    }
}

/// A positive share is a share of a positive size.
proof fn lemma_share_sign(left: DecimalView, seed: u64)
    requires
        left.multiplies_exactly(queue_factor(seed)),
        left.mantissa != 0,
    ensures
        left.times(queue_factor(seed)) matches Some(share) && (share.positive()
            ==> left.positive()),
{
    let f = queue_factor(seed);
    assert(left.mantissa * f.mantissa > 0 ==> left.mantissa > 0) by (nonlinear_arith)
        requires
            f.mantissa > 0,
    ;
}

/// Whether `qty` is what a model gives an order with `left` to go of a size of
/// `size`: all of it when displayed sizes do not count, else the smaller of the
/// two, or of the order's part and its share of the size.
pub open spec fn is_given(
    model: ModelView,
    left: DecimalView,
    size: DecimalView,
    qty: DecimalView,
) -> bool {
    match model.kind {
        FillModelKind::Immediate => qty == left,
        FillModelKind::L1 => size.units() > 0 && qty == (if size.units() < left.units() {
            size
        } else {
            left
        }),
        FillModelKind::Queue => size.units() > 0 && (size.times(
            queue_factor(model.random_seed),
        ) matches Some(share) && share.units() > 0 && qty == (if share.units() < left.units() {
            share
        } else {
            left
        })),
    }
}

proof fn lemma_given(
    model: ModelView,
    price: DecimalView,
    left: DecimalView,
    size: DecimalView,
    qty: DecimalView,
)
    requires
        left.units() > 0,
        is_given(model, left, size, qty),
    ensures
        model.sized(price, left, size) == Some(Some((price, qty))),
        model.clip(left, size) == Some(qty),
        0 < qty.units() <= left.units(),
{
    decimal::lemma_sign_of_units(left);
    decimal::lemma_sign_of_units(size);
    decimal::lemma_sign_of_units(qty);
}

proof fn lemma_later_rounds(
    model: ModelView,
    top: TopView,
    instrument: Seq<char>,
    orders: Seq<(Seq<char>, OrderView)>,
    k: int,
    n: int,
    now: TimestampMs,
)
    requires
        0 <= k <= n <= orders.len(),
        model.matching(top, instrument, orders, n, now) is Some,
    ensures
        model.matching(top, instrument, orders, k, now) is Some,
        ({
            let a = model.matching(top, instrument, orders, k, now)->0;
            let b = model.matching(top, instrument, orders, n, now)->0;
            &&& a.fills.len() <= b.fills.len()
            &&& forall|j: int| 0 <= j < a.fills.len() ==> #[trigger] b.fills[j] == a.fills[j]
            &&& a.orders.len() == orders.len()
            &&& b.orders.len() == orders.len()
            &&& forall|i: int| 0 <= i < k ==> #[trigger] b.orders[i] == a.orders[i]
        }),
    decreases n,
{
    law_matching_is_local(model, top, instrument, orders, n, now);
    if k < n {
        lemma_later_rounds(model, top, instrument, orders, k, n - 1, now);
    }
}

/// A quote fills every order that waits for it: a limit or post-only order of
/// the instrument, bought or sold, that is acknowledged or partially filled, has
/// something left and whose price meets the other side, gets what the model
/// gives it of the size that is there at its turn. It trades at the quoted price
/// as a maker, and its filled quantity grows by the traded one. Stated where that
/// sum needs no rounding.
pub proof fn law_waiting_order_is_filled(
    e: PaperView,
    instrument: Seq<char>,
    top: TopView,
    now: TimestampMs,
    i: int,
    price: DecimalView,
    left: DecimalView,
    qty: DecimalView,
)
    requires
        e.matched(instrument, top, now) is Some,
        0 <= i < e.orders.len(),
        e.orders[i].1.instrument_id == instrument,
        e.orders[i].1.order_type == OrderType::Limit || e.orders[i].1.order_type
            == OrderType::PostOnly,
        e.orders[i].1.status == OrderStatus::Acknowledged || e.orders[i].1.status
            == OrderStatus::PartiallyFilled,
        e.orders[i].1.price == Some(price),
        match e.orders[i].1.side {
            OrderSide::Buy => 0 < top.ask_price.units() <= price.units(),
            OrderSide::Sell => 0 < top.bid_price.units() && price.units() <= top.bid_price.units(),
        },
        e.orders[i].1.quantity.minus(e.orders[i].1.filled_quantity) == Some(left),
        left.units() > 0,
        match e.orders[i].1.side {
            OrderSide::Buy => is_given(
                e.model,
                left,
                e.model.matching(top, instrument, e.orders, i, now)->0.ask_left,
                qty,
            ),
            OrderSide::Sell => is_given(
                e.model,
                left,
                e.model.matching(top, instrument, e.orders, i, now)->0.bid_left,
                qty,
            ),
        },
    ensures
        ({
            let o = e.orders[i].1;
            let m = e.matched(instrument, top, now)->0;
            &&& exists|j: int|
                {
                    &&& 0 <= j < m.fills.len()
                    &&& (#[trigger] m.fills[j]).order_id == o.id
                    &&& m.fills[j].side == o.side
                    &&& m.fills[j].is_maker
                    &&& m.fills[j].quantity == qty
                    &&& m.fills[j].quantity.units() > 0
                    &&& o.side == OrderSide::Buy ==> m.fills[j].price == top.ask_price
                    &&& o.side == OrderSide::Sell ==> m.fills[j].price == top.bid_price
                }
            &&& qty.wf() && o.filled_quantity.wf() && o.filled_quantity.adds_exactly(qty) ==> {
                &&& m.orders[i].1.filled_quantity.units() == o.filled_quantity.units()
                    + qty.units()
                &&& m.orders[i].1.filled_quantity.units() > o.filled_quantity.units()
            }
        }),
{
    let o = e.orders[i].1;
    let n = e.orders.len() as int;
    let model = e.model;
    lemma_later_rounds(model, top, instrument, e.orders, i, n, now);
    lemma_later_rounds(model, top, instrument, e.orders, i + 1, n, now);
    let a = model.matching(top, instrument, e.orders, i, now)->0;
    let b = model.matching(top, instrument, e.orders, i + 1, now)->0;
    decimal::lemma_sign_of_units(top.ask_price);
    decimal::lemma_sign_of_units(top.bid_price);
    let at = match o.side {
        OrderSide::Buy => top.ask_price,
        OrderSide::Sell => top.bid_price,
    };
    lemma_given(model, at, left, a.left(o.side), qty);
    assert(model.limit_trade(o, top, a.left(o.side)) == Some(Some((at, qty))));
    let fill = model.fill_of(o, at, qty, true, now);
    assert(b.fills == a.fills.push(fill));
    let j = a.fills.len() as int;
    assert(b.fills[j] == fill);
    assert(e.matched(instrument, top, now)->0.fills[j] == fill);
    if qty.wf() && o.filled_quantity.wf() && o.filled_quantity.adds_exactly(qty) {
        decimal::lemma_exact_sum(o.filled_quantity, qty);
    }
}

/// No order that waits is passed over: one of either side whose price meets the
/// quote gets a fill of more than nothing, where displayed sizes do not count or
/// some of the other side's size is left at its turn.
pub proof fn law_no_waiting_order_is_passed_over(
    e: PaperView,
    instrument: Seq<char>,
    top: TopView,
    now: TimestampMs,
    i: int,
    price: DecimalView,
    left: DecimalView,
)
    requires
        e.matched(instrument, top, now) is Some,
        0 <= i < e.orders.len(),
        e.orders[i].1.instrument_id == instrument,
        e.orders[i].1.order_type == OrderType::Limit || e.orders[i].1.order_type
            == OrderType::PostOnly,
        e.orders[i].1.status == OrderStatus::Acknowledged || e.orders[i].1.status
            == OrderStatus::PartiallyFilled,
        e.orders[i].1.price == Some(price),
        e.orders[i].1.quantity.minus(e.orders[i].1.filled_quantity) == Some(left),
        left.units() > 0,
        e.orders[i].1.side == OrderSide::Buy ==> 0 < top.ask_price.units() <= price.units(),
        e.orders[i].1.side == OrderSide::Sell ==> 0 < top.bid_price.units() && price.units()
            <= top.bid_price.units(),
        e.model.kind != FillModelKind::Queue,
        e.model.kind == FillModelKind::L1 && e.orders[i].1.side == OrderSide::Buy
            ==> e.model.matching(top, instrument, e.orders, i, now)->0.ask_left.units() > 0,
        e.model.kind == FillModelKind::L1 && e.orders[i].1.side == OrderSide::Sell
            ==> e.model.matching(top, instrument, e.orders, i, now)->0.bid_left.units() > 0,
    ensures
        ({
            let o = e.orders[i].1;
            let m = e.matched(instrument, top, now)->0;
            exists|j: int|
                {
                    &&& 0 <= j < m.fills.len()
                    &&& (#[trigger] m.fills[j]).order_id == o.id
                    &&& m.fills[j].side == o.side
                    &&& m.fills[j].quantity.units() > 0
                }
        }),
{
    let m = e.model.matching(top, instrument, e.orders, i, now)->0;
    let size = match e.orders[i].1.side {
        OrderSide::Buy => m.ask_left,
        OrderSide::Sell => m.bid_left,
    };
    let qty = if e.model.kind == FillModelKind::L1 && size.units() < left.units() {
        size
    } else {
        left
    };
    law_waiting_order_is_filled(e, instrument, top, now, i, price, left, qty);
}

/// The first of the waiting orders of a side finds the whole displayed size, and
/// orders that do not wait leave it as it is: orders of another instrument, type
/// or state, of the other side, or with a price that does not meet the quote.
pub proof fn law_first_in_line_finds_all(
    model: ModelView,
    top: TopView,
    instrument: Seq<char>,
    orders: Seq<(Seq<char>, OrderView)>,
    n: int,
    now: TimestampMs,
    side: OrderSide,
)
    requires
        0 <= n <= orders.len(),
        model.matching(top, instrument, orders, n, now) is Some,
        forall|k: int|
            0 <= k < n ==> {
                ||| (#[trigger] orders[k]).1.side != side
                ||| orders[k].1.instrument_id != instrument
                ||| orders[k].1.order_type == OrderType::Market
                ||| orders[k].1.order_type == OrderType::Stop
                ||| orders[k].1.status != OrderStatus::Acknowledged && orders[k].1.status
                    != OrderStatus::PartiallyFilled
                ||| orders[k].1.price is None
                ||| side == OrderSide::Buy && (top.ask_price.units() <= 0 || (
                orders[k].1.price->0).units() < top.ask_price.units())
                ||| side == OrderSide::Sell && (top.bid_price.units() <= 0 || (
                orders[k].1.price->0).units() > top.bid_price.units())
            },
    ensures
        side == OrderSide::Buy ==> model.matching(top, instrument, orders, n, now)->0.ask_left
            == top.ask_qty,
        side == OrderSide::Sell ==> model.matching(top, instrument, orders, n, now)->0.bid_left
            == top.bid_qty,
    decreases n,
{
    if n > 0 {
        law_first_in_line_finds_all(model, top, instrument, orders, n - 1, now, side);
        decimal::lemma_sign_of_units(top.ask_price);
        decimal::lemma_sign_of_units(top.bid_price);
        let o = orders[n - 1].1;
        let m = model.matching(top, instrument, orders, n - 1, now)->0;
        if o.side == side && resting(o, instrument) {
            assert(model.limit_trade(o, top, m.left(side)) == Some(
                None::<(DecimalView, DecimalView)>,
            ));
        }
    }
}

/// Every fill of a quote belongs to an order that waited for it: of the
/// instrument, a limit or post-only order, acknowledged or partially filled,
/// whose price meets the quote. It is for some of what the order has left, at
/// the quoted price, and so never worse than the order's own. All other orders
/// stay as they are.
pub proof fn law_only_waiting_orders_are_filled(
    model: ModelView,
    top: TopView,
    instrument: Seq<char>,
    orders: Seq<(Seq<char>, OrderView)>,
    n: int,
    now: TimestampMs,
    j: int,
    i: int,
)
    requires
        0 <= n <= orders.len(),
        model.matching(top, instrument, orders, n, now) is Some,
        0 <= j < model.matching(top, instrument, orders, n, now)->0.fills.len(),
        0 <= i < n,
    ensures
        exists|k: int|
            {
                let f = model.matching(top, instrument, orders, n, now)->0.fills[j];
                let o = (#[trigger] orders[k]).1;
                &&& 0 <= k < n
                &&& f.order_id == o.id
                &&& f.account_id == o.account_id
                &&& f.instrument_id == instrument
                &&& f.side == o.side
                &&& f.occurred_at == now
                &&& o.instrument_id == instrument
                &&& o.order_type == OrderType::Limit || o.order_type == OrderType::PostOnly
                &&& o.status == OrderStatus::Acknowledged || o.status
                    == OrderStatus::PartiallyFilled
                &&& o.price is Some
                &&& o.quantity.minus(o.filled_quantity) is Some
                &&& 0 < f.quantity.units() <= (o.quantity.minus(o.filled_quantity)->0).units()
                &&& o.side == OrderSide::Buy ==> f.price == top.ask_price && 0 < f.price.units()
                    <= (o.price->0).units()
                &&& o.side == OrderSide::Sell ==> f.price == top.bid_price && 0 < f.price.units()
                    && (o.price->0).units() <= f.price.units()
            },
        ({
            let o = orders[i].1;
            let after = model.matching(top, instrument, orders, n, now)->0.orders[i].1;
            ||| after == o
            ||| {
                &&& o.instrument_id == instrument
                &&& o.order_type == OrderType::Limit || o.order_type == OrderType::PostOnly
                &&& o.status == OrderStatus::Acknowledged || o.status
                    == OrderStatus::PartiallyFilled
                &&& o.price is Some
                &&& o.side == OrderSide::Buy ==> 0 < top.ask_price.units() <= (o.price->0).units()
                &&& o.side == OrderSide::Sell ==> 0 < top.bid_price.units() && (o.price->0).units()
                    <= top.bid_price.units()
            }
        }),
    decreases n,
{
    let a = model.matching(top, instrument, orders, n - 1, now)->0;
    let b = model.matching(top, instrument, orders, n, now)->0;
    lemma_later_rounds(model, top, instrument, orders, n - 1, n, now);
    law_matching_is_local(model, top, instrument, orders, n - 1, now);
    decimal::lemma_sign_of_units(top.ask_price);
    decimal::lemma_sign_of_units(top.bid_price);
    let o = orders[n - 1].1;
    if i < n - 1 {
        if a.fills.len() > 0 {
            law_only_waiting_orders_are_filled(model, top, instrument, orders, n - 1, now, 0, i);
        } else {
            lemma_unfilled_is_unchanged(model, top, instrument, orders, n - 1, now, i);
        }
    }
    if j < a.fills.len() {
        if i < n - 1 {
            law_only_waiting_orders_are_filled(model, top, instrument, orders, n - 1, now, j, i);
        } else {
            if n - 1 > 0 {
                law_only_waiting_orders_are_filled(
                    model,
                    top,
                    instrument,
                    orders,
                    n - 1,
                    now,
                    j,
                    0,
                );
            }
        }
    } else {
        let t = model.limit_trade(o, top, a.left(o.side))->0->0;
        law_trade_is_bounded(model, t.0, o.remaining()->0, a.left(o.side), t.1);
        decimal::lemma_sign_of_units(t.1);
        assert(b.fills == a.fills.push(model.fill_of(o, t.0, t.1, true, now)));
        assert(orders[n - 1].1 == o);
    }
}

proof fn lemma_unfilled_is_unchanged(
    model: ModelView,
    top: TopView,
    instrument: Seq<char>,
    orders: Seq<(Seq<char>, OrderView)>,
    n: int,
    now: TimestampMs,
    i: int,
)
    requires
        0 <= i < n <= orders.len(),
        model.matching(top, instrument, orders, n, now) is Some,
        model.matching(top, instrument, orders, n, now)->0.fills.len() == 0,
    ensures
        model.matching(top, instrument, orders, n, now)->0.orders == orders,
    decreases n,
{
    if i < n - 1 {
        lemma_later_rounds(model, top, instrument, orders, n - 1, n, now);
        lemma_unfilled_is_unchanged(model, top, instrument, orders, n - 1, now, i);
    } else if n > 1 {
        lemma_later_rounds(model, top, instrument, orders, n - 1, n, now);
        lemma_unfilled_is_unchanged(model, top, instrument, orders, n - 1, now, 0);
    }
}

/// A quote is kept for its instrument and no other quote changes; its fills join
/// those that wait, in order; the model and the rules stay.
pub proof fn law_quote_is_kept(
    e: PaperView,
    instrument: Seq<char>,
    top: TopView,
    now: TimestampMs,
    fills: Seq<FillView>,
    other: Seq<char>,
)
    ensures
        table::lookup(e.with_quote(instrument, top, now, fills).book, instrument) == Some(top),
        other != instrument ==> table::lookup(
            e.with_quote(instrument, top, now, fills).book,
            other,
        ) == table::lookup(e.book, other),
        e.with_quote(instrument, top, now, fills).pending == e.pending + fills,
        e.matched(instrument, top, now) matches Some(m) ==> e.with_quote(
            instrument,
            top,
            now,
            fills,
        ).orders == m.orders,
        e.with_quote(instrument, top, now, fills).model == e.model,
        e.with_quote(instrument, top, now, fills).instruments == e.instruments,
{
    table::law_put(e.book, instrument, top, other);
}

/// Whatever an order trades when it is placed, market orders too, is more than
/// nothing and no more than it has left. Under a model that respects liquidity
/// there is a quote for its instrument, and a purchase takes no more than the
/// displayed ask size and a sale no more than the displayed bid size: all of it
/// at best, or the order's share of it in the queue.
pub proof fn law_placed_trade_is_within_the_display(
    e: PaperView,
    order: OrderView,
    now: TimestampMs,
    p: Placement,
    t: (DecimalView, DecimalView),
)
    requires
        e.placement(order, now) == Some(p),
        p.trade == Some(t),
    ensures
        t.1.units() > 0,
        order.quantity.minus(order.filled_quantity) matches Some(left) && t.1.units()
            <= left.units(),
        table::lookup(e.book, order.instrument_id) is Some,
        ({
            let top = table::lookup(e.book, order.instrument_id)->0;
            let size = match order.side {
                OrderSide::Buy => top.ask_qty,
                OrderSide::Sell => top.bid_qty,
            };
            &&& e.model.kind == FillModelKind::L1 ==> t.1.units() <= size.units()
            &&& e.model.kind == FillModelKind::Queue ==> (size.times(
                queue_factor(e.model.random_seed),
            ) matches Some(share) && t.1.units() <= share.units())
            &&& e.model.kind == FillModelKind::Queue && size.wf() && size.multiplies_exactly(
                queue_factor(e.model.random_seed),
            ) ==> t.1.units() <= size.units() && 4 * t.1.units() <= 3 * size.units()
        }),
{
    let o = e.arrived(order, now);
    let top = table::lookup(e.book, order.instrument_id)->0;
    let left = o.remaining()->0;
    let size = top.displayed(o.side);
    assert(e.model.sized(t.0, left, size) == Some(Some(t)));
    law_trade_is_bounded(e.model, t.0, left, size, t.1);
    decimal::lemma_sign_of_units(t.1);
    decimal::lemma_sign_of_units(size);
    if e.model.kind == FillModelKind::Queue && size.wf() && size.multiplies_exactly(
        queue_factor(e.model.random_seed),
    ) {
        law_queue_share(size, e.model.random_seed, queue_slot(e.model.random_seed));
    }
}

/// In the queue an order gets a quarter, a half or three quarters of the
/// displayed size, as its seed decides.
pub proof fn law_queue_share(size: DecimalView, seed: u64, slot: u64)
    requires
        size.wf(),
        size.multiplies_exactly(queue_factor(seed)),
        slot == (((seed << 17u64) | (seed >> 47u64)) ^ seed.wrapping_mul(2654435769)) % 3,
    ensures
        size.times(queue_factor(seed)) is Some,
        slot == 0 ==> 4 * (size.times(queue_factor(seed))->0).units() == size.units(),
        slot == 1 ==> 2 * (size.times(queue_factor(seed))->0).units() == size.units(),
        slot == 2 ==> 4 * (size.times(queue_factor(seed))->0).units() == 3 * size.units(),
        slot < 3,
{
    let f = queue_factor(seed);
    let share = size.times(f)->0;
    decimal::law_product_is_exact(size, f);
    let p28 = decimal::pow10(28) as int;
    let p26 = decimal::pow10(26) as int;
    let p27 = decimal::pow10(27) as int;
    decimal::lemma_pow10_adds(2, 26);
    decimal::lemma_pow10_adds(1, 27);
    decimal::lemma_pow10_positive(26);
    decimal::lemma_pow10_positive(27);
    reveal_with_fuel(decimal::pow10, 3);
    assert(decimal::pow10(1) == 10 && decimal::pow10(2) == 100);
    let (x, y) = (share.units(), size.units());
    if queue_slot(seed) == 0 {
        assert(f.units() == 25 * p26);
        assert(4 * x == y) by (nonlinear_arith)
            requires
                x * p28 == y * (25 * p26),
                p28 == 100 * p26,
                p26 >= 1,
        ;
    } else if queue_slot(seed) == 1 {
        assert(f.units() == 5 * p27);
        assert(2 * x == y) by (nonlinear_arith)
            requires
                x * p28 == y * (5 * p27),
                p28 == 10 * p27,
                p27 >= 1,
        ;
    } else {
        assert(f.units() == 75 * p26);
        assert(4 * x == 3 * y) by (nonlinear_arith)
            requires
                x * p28 == y * (75 * p26),
                p28 == 100 * p26,
                p26 >= 1,
        ;
    }
}

/// A market order, or a limit order whose price meets the quote, trades at once
/// what the model gives it of the displayed size, if it may trade a part or the
/// size covers it. A limit order trades at the quoted price; a market order
/// trades there too, moved against it by the slippage. Stated where the
/// slippage needs no rounding.
pub proof fn law_meeting_order_trades_at_once(
    e: PaperView,
    order: OrderView,
    now: TimestampMs,
    p: Placement,
    top: TopView,
    left: DecimalView,
    qty: DecimalView,
)
    requires
        e.placement(order, now) == Some(p),
        table::lookup(e.book, order.instrument_id) == Some(top),
        order.quantity.minus(order.filled_quantity) == Some(left),
        left.units() > 0,
        match order.side {
            OrderSide::Buy => top.ask_price.units() > 0 && is_given(
                e.model,
                left,
                top.ask_qty,
                qty,
            ),
            OrderSide::Sell => top.bid_price.units() > 0 && is_given(
                e.model,
                left,
                top.bid_qty,
                qty,
            ),
        },
        order.time_in_force != TimeInForce::Fok || qty == left || e.model.kind
            == FillModelKind::Immediate,
        order.order_type == OrderType::Market || order.order_type == OrderType::Limit && (
        order.price matches Some(px) && match order.side {
            OrderSide::Buy => top.ask_price.units() <= px.units(),
            OrderSide::Sell => px.units() <= top.bid_price.units(),
        }),
    ensures
        p.trade is Some,
        (p.trade->0).1 == qty,
        order.order_type == OrderType::Limit && order.side == OrderSide::Buy ==> (p.trade->0).0
            == top.ask_price,
        order.order_type == OrderType::Limit && order.side == OrderSide::Sell ==> (p.trade->0).0
            == top.bid_price,
        order.order_type == OrderType::Market && e.model.slippage.units() == 0 && order.side
            == OrderSide::Buy ==> (p.trade->0).0.units() == top.ask_price.units(),
        order.order_type == OrderType::Market && e.model.slippage.units() == 0 && order.side
            == OrderSide::Sell ==> (p.trade->0).0.units() == top.bid_price.units(),
        order.order_type == OrderType::Market && order.side == OrderSide::Buy && slips_exactly(
            top.ask_price,
            e.model.slippage,
        ) ==> (p.trade->0).0.units() * decimal::pow10(28) == top.ask_price.units() * (
        decimal::pow10(28) + e.model.slippage.units()),
        order.order_type == OrderType::Market && order.side == OrderSide::Sell && slips_exactly(
            top.bid_price,
            e.model.slippage,
        ) ==> (p.trade->0).0.units() * decimal::pow10(28) == top.bid_price.units() * (
        decimal::pow10(28) - e.model.slippage.units()),
{
    let o = e.arrived(order, now);
    let at = match order.side {
        OrderSide::Buy => top.ask_price,
        OrderSide::Sell => top.bid_price,
    };
    decimal::lemma_sign_of_units(top.ask_price);
    decimal::lemma_sign_of_units(top.bid_price);
    decimal::lemma_sign_of_units(e.model.slippage);
    decimal::lemma_sign_of_units(DecimalView::zero());
    assert(o.remaining() == Some(left));
    lemma_given(e.model, at, left, top.displayed(o.side), qty);
    assert(top.market_price(o.side) == Some(Some(at)));
    assert(e.kills(o) == Some(false));
    if order.order_type == OrderType::Market {
        let slip = at.times(e.model.slippage)->0;
        let moved = match o.side {
            OrderSide::Buy => at.plus(slip),
            OrderSide::Sell => at.minus(slip),
        };
        lemma_given(e.model, moved->0, left, top.displayed(o.side), qty);
        if e.model.slippage.mantissa == 0 {
            assert(slip == DecimalView::zero());
        }
        if slips_exactly(at, e.model.slippage) {
            decimal::law_product_is_exact(at, e.model.slippage);
            decimal::lemma_exact_sum(at, slip);
            decimal::lemma_exact_difference(at, slip);
            let (a, s, one) = (at.units(), slip.units(), decimal::pow10(28) as int);
            let f = e.model.slippage.units();
            assert((a + s) * one == a * (one + f) && (a - s) * one == a * (one - f))
                by (nonlinear_arith)
                requires
                    s * one == a * f,
            ;
        }
    }
}

/// Whether a price can be moved by a fraction of itself without rounding.
pub open spec fn slips_exactly(price: DecimalView, slippage: DecimalView) -> bool {
    &&& price.wf()
    &&& slippage.wf()
    &&& price.multiplies_exactly(slippage)
    &&& price.adds_exactly(price.exact_product(slippage))
    &&& price.subtracts_exactly(price.exact_product(slippage))
}

/// A limit order whose price does not meet the quote, or that has no quote to
/// meet, does not trade when it is placed. It waits, unless it may not: then it
/// is cancelled.
pub proof fn law_distant_order_waits(e: PaperView, order: OrderView, now: TimestampMs, p: Placement)
    requires
        e.placement(order, now) == Some(p),
        order.order_type == OrderType::Limit,
        order.filled_quantity.units() == 0,
        order.quantity.units() > 0,
        table::lookup(e.book, order.instrument_id) is None || order.price is None || (match order.side {
            OrderSide::Buy => table::lookup(e.book, order.instrument_id)->0.ask_price.units() <= 0
                || (order.price->0).units() < table::lookup(
                e.book,
                order.instrument_id,
            )->0.ask_price.units(),
            OrderSide::Sell => table::lookup(e.book, order.instrument_id)->0.bid_price.units() <= 0
                || (order.price->0).units() > table::lookup(
                e.book,
                order.instrument_id,
            )->0.bid_price.units(),
        }),
    ensures
        p.trade is None,
        p.order.filled_quantity == order.filled_quantity,
        order.time_in_force == TimeInForce::Ioc ==> p.order.status == OrderStatus::Cancelled,
        order.time_in_force != TimeInForce::Ioc && order.time_in_force != TimeInForce::Fok
            ==> p.order.status == OrderStatus::Acknowledged,
        order.time_in_force == TimeInForce::Fok && e.model.kind == FillModelKind::Immediate
            ==> p.order.status == OrderStatus::Acknowledged,
        order.time_in_force == TimeInForce::Fok && e.model.kind != FillModelKind::Immediate
            ==> p.order.status == OrderStatus::Cancelled,
{
    let o = e.arrived(order, now);
    decimal::lemma_sign_of_units(order.filled_quantity);
    decimal::lemma_sign_of_units(DecimalView::zero());
    if let Some(t) = e.top(order.instrument_id) {
        decimal::lemma_sign_of_units(t.ask_price);
        decimal::lemma_sign_of_units(t.bid_price);
    }
    decimal::lemma_sign_of_units(order.quantity);
    assert(e.model.immediate_trade(o, e.top(order.instrument_id)) == Some(
        None::<(DecimalView, DecimalView)>,
    ));
}

/// A market order that trades nothing when it is placed does not wait: it is
/// cancelled or rejected.
pub proof fn law_market_order_never_waits(
    e: PaperView,
    order: OrderView,
    now: TimestampMs,
    p: Placement,
)
    requires
        e.placement(order, now) == Some(p),
        order.order_type == OrderType::Market,
        order.filled_quantity.units() == 0,
        order.quantity.units() > 0,
        p.trade is None,
    ensures
        p.order.status == OrderStatus::Cancelled || p.order.status == OrderStatus::Rejected,
        p.order.filled_quantity == order.filled_quantity,
{
    decimal::lemma_sign_of_units(order.filled_quantity);
    decimal::lemma_sign_of_units(order.quantity);
}

/// A post-only order waits, unless its price meets the quote: then it is
/// rejected.
pub proof fn law_post_only_meets_nothing(
    e: PaperView,
    order: OrderView,
    now: TimestampMs,
    p: Placement,
)
    requires
        e.placement(order, now) == Some(p),
        order.order_type == OrderType::PostOnly,
    ensures
        p.trade is None,
        p.order.status == OrderStatus::Acknowledged || p.order.status == OrderStatus::Rejected,
        p.order.status == OrderStatus::Rejected <==> (table::lookup(
            e.book,
            order.instrument_id,
        ) matches Some(top) && (order.price matches Some(px) && match order.side {
            OrderSide::Buy => 0 < top.ask_price.units() <= px.units(),
            OrderSide::Sell => 0 < top.bid_price.units() && px.units() <= top.bid_price.units(),
        })),
{
    if let Some(t) = e.top(order.instrument_id) {
        decimal::lemma_sign_of_units(t.ask_price);
        decimal::lemma_sign_of_units(t.bid_price);
    }
}

/// What a placed order traded is on it: its filled quantity grows by it, and it
/// is filled when nothing is left, partially filled when it may wait for more,
/// and cancelled when it may not. Without a trade its filled quantity stays.
/// Stated where the sums need no rounding.
pub proof fn law_placed_trade_is_on_the_order(
    e: PaperView,
    order: OrderView,
    now: TimestampMs,
    p: Placement,
    t: (DecimalView, DecimalView),
)
    requires
        e.placement(order, now) == Some(p),
        p.trade == Some(t),
        t.1.wf(),
        order.quantity.wf(),
        order.filled_quantity.wf(),
        order.filled_quantity.adds_exactly(t.1),
        order.quantity.subtracts_exactly(order.filled_quantity.exact_sum(t.1)),
        order.filled_quantity.units() >= 0,
    ensures
        p.order.filled_quantity.units() == order.filled_quantity.units() + t.1.units(),
        p.order.status == OrderStatus::Filled <==> order.quantity.units()
            <= order.filled_quantity.units() + t.1.units(),
        p.order.status == OrderStatus::PartiallyFilled <==> order.quantity.units()
            > order.filled_quantity.units() + t.1.units() && order.time_in_force
            != TimeInForce::Ioc,
        p.order.status == OrderStatus::Cancelled <==> order.quantity.units()
            > order.filled_quantity.units() + t.1.units() && order.time_in_force
            == TimeInForce::Ioc,
{
    let o = e.arrived(order, now);
    let filled = order.filled_quantity.exact_sum(t.1);
    law_placed_trade_is_within_the_display(e, order, now, p, t);
    decimal::lemma_exact_sum(order.filled_quantity, t.1);
    decimal::lemma_exact_difference(order.quantity, filled);
    decimal::lemma_sign_of_units(order.quantity.exact_difference(filled));
    decimal::lemma_sign_of_units(filled);
    let after = e.model.filled_order(o, t.0, t.1, now)->0;
    assert(after.filled_quantity == filled);
    assert(p.order == e.settled(after, now));
}

/// An order's average price times its filled quantity is what was paid for it:
/// what it had paid before, and the price of the new fill times its quantity.
/// Stated where the numbers need no rounding.
pub proof fn law_average_is_what_was_paid(
    model: ModelView,
    o: OrderView,
    price: DecimalView,
    qty: DecimalView,
    now: TimestampMs,
    before: DecimalView,
)
    requires
        model.filled_order(o, price, qty, now) is Some,
        o.avg_fill_price is Some ==> before == o.avg_fill_price->0,
        o.avg_fill_price is None ==> before == DecimalView::zero(),
        before.wf(),
        price.wf(),
        qty.wf(),
        o.filled_quantity.wf(),
        o.filled_quantity.adds_exactly(qty),
        before.multiplies_exactly(o.filled_quantity),
        price.multiplies_exactly(qty),
        before.exact_product(o.filled_quantity).adds_exactly(price.exact_product(qty)),
        before.exact_product(o.filled_quantity).exact_sum(
            price.exact_product(qty),
        ).divides_exactly(o.filled_quantity.exact_sum(qty)),
        o.filled_quantity.units() + qty.units() != 0,
    ensures
        ({
            let after = model.filled_order(o, price, qty, now)->0;
            &&& after.filled_quantity.units() == o.filled_quantity.units() + qty.units()
            &&& after.avg_fill_price is Some
            &&& (after.avg_fill_price->0).units() * after.filled_quantity.units() == before.units()
                * o.filled_quantity.units() + price.units() * qty.units()
            &&& after.updated_at == now
            &&& after.venue_order_id == Some("paper_"@ + o.id)
        }),
{
    let filled = o.filled_quantity.exact_sum(qty);
    let a = before.exact_product(o.filled_quantity);
    let b = price.exact_product(qty);
    let s = a.exact_sum(b);
    decimal::lemma_exact_sum(o.filled_quantity, qty);
    decimal::law_product_is_exact(before, o.filled_quantity);
    decimal::law_product_is_exact(price, qty);
    decimal::lemma_exact_sum(a, b);
    decimal::law_quotient_is_exact(s, filled);
    decimal::lemma_sign_of_units(filled);
    let one = decimal::pow10(28) as int;
    assert((a.units() + b.units()) * one == a.units() * one + b.units() * one) by (nonlinear_arith);
}

/// A fill says what was traded, for whom and when, and its fee is its price
/// times its quantity times the rate: the maker's for a maker, the taker's for a
/// taker. Stated where the products need no rounding.
pub proof fn law_fee_is_a_share_of_the_notional(
    model: ModelView,
    o: OrderView,
    price: DecimalView,
    qty: DecimalView,
    is_maker: bool,
    now: TimestampMs,
    rate: DecimalView,
)
    requires
        price.wf(),
        qty.wf(),
        rate.wf(),
        is_maker ==> rate == model.maker_fee,
        !is_maker ==> rate == model.taker_fee,
        price.multiplies_exactly(qty),
        price.exact_product(qty).multiplies_exactly(rate),
    ensures
        ({
            let f = model.fill_of(o, price, qty, is_maker, now);
            let one = decimal::pow10(28);
            &&& f.fee.amount.units() * (one * one) == price.units() * qty.units() * rate.units()
            &&& f.fee.rate == Some(rate)
            &&& f.fee.asset == "USDT"@ && f.fee.side == FeeSide::Quote
            &&& f.trade_id == "pt_"@ + text::int_text(now as int)
            &&& f.fee.is_maker == is_maker
            &&& f.is_maker == is_maker
            &&& f.price == price
            &&& f.quantity == qty
            &&& f.side == o.side
            &&& f.position_side == o.position_side
            &&& f.order_id == o.id
            &&& f.venue_order_id == Some("paper_"@ + o.id)
            &&& f.account_id == o.account_id
            &&& f.instrument_id == o.instrument_id
            &&& f.occurred_at == now
        }),
{
    let n = price.exact_product(qty);
    decimal::law_product_is_exact(price, qty);
    decimal::law_product_is_exact(n, rate);
    let one = decimal::pow10(28) as int;
    let amount = n.times(rate)->0;
    let (x, y, r) = (amount.units(), n.units(), rate.units());
    let pq = price.units() * qty.units();
    assert(x * (one * one) == pq * r) by (nonlinear_arith)
        requires
            x * one == y * r,
            y * one == pq,
    ;
}

/// The fill of a placed order waits to be taken, as a taker's fill of what was
/// traded; an order that did not trade adds no fill.
pub proof fn law_placed_fill_waits(
    e: PaperView,
    order: OrderView,
    now: TimestampMs,
    placed: OrderView,
    after: PaperView,
    p: Placement,
)
    requires
        e.places(order, now, placed, after),
        e.placement(order, now) == Some(p),
    ensures
        placed == p.order,
        p.trade is None ==> after.pending == e.pending,
        p.trade matches Some(t) ==> {
            &&& after.pending.len() == e.pending.len() + 1
            &&& after.pending.drop_last() == e.pending
            &&& after.pending.last().order_id == order.id
            &&& after.pending.last().account_id == order.account_id
            &&& after.pending.last().instrument_id == order.instrument_id
            &&& after.pending.last().side == order.side
            &&& after.pending.last().price == t.0
            &&& after.pending.last().quantity == t.1
            &&& !after.pending.last().is_maker
            &&& after.pending.last().occurred_at == now
        },
{
    if let Some(t) = p.trade {
        let o = e.arrived(order, now);
        let f = choose|f: FillView|
            {
                &&& #[trigger] anonymous(f) == e.model.fill_of(o, t.0, t.1, false, now)
                &&& fill_id_ok(f.id)
                &&& after == e.with_order(placed, Some(f))
            };
        assert(after.pending == e.pending.push(f));
        assert(after.pending.drop_last() =~= e.pending);
        assert(anonymous(f).order_id == f.order_id);
    }
}

/// An order is refused exactly when its client order id is empty, too long or
/// that of an order at work, or when it breaks a rule of its instrument: a price
/// off the tick grid, a quantity off the step grid or too small, or a notional
/// that is too small. A market order's own price does not count, and a stop
/// order or an unknown instrument breaks no rule. Stated where the numbers on
/// the way are in range.
pub proof fn law_refusal_has_a_cause(e: PaperView, order: OrderView)
    requires
        e.breach(order) is Some,
    ensures
        e.refusal(order) is Some <==> {
            ||| order.client_order_id.len() == 0
            ||| encode_utf8(order.client_order_id).len() > 36
            ||| exists|i: int|
                0 <= i < e.orders.len() && (#[trigger] e.orders[i]).1.client_order_id
                    == order.client_order_id && !e.orders[i].1.status.terminal()
            ||| order.order_type != OrderType::Stop && (table::lookup(
                e.instruments,
                order.instrument_id,
            ) matches Some(x) && {
                ||| order.order_type != OrderType::Market && (order.price matches Some(px)
                    && !x.price_valid(px))
                ||| !x.qty_valid(order.quantity)
                ||| x.min_notional matches Some(min) && (e.worth(order) matches Some(Some(n))
                    && n.units() < min.units())
            })
        },
{
}

/// By the rules of its instrument a market order is worth its quantity at the
/// price that it goes by, and any other order its quantity at its own price;
/// without such a price its worth is unknown.
pub proof fn law_paper_worth(e: PaperView, o: OrderView)
    ensures
        o.order_type != OrderType::Market && o.price is Some ==> domain::is_product(
            e.worth(o),
            o.price->0,
            o.quantity,
        ),
        o.order_type != OrderType::Market && o.price is None ==> e.worth(o) == Some(
            None::<DecimalView>,
        ),
        o.order_type == OrderType::Market && table::lookup(e.book, o.instrument_id) is None
            ==> e.worth(o) == Some(None::<DecimalView>),
        o.order_type == OrderType::Market ==> (table::lookup(
            e.book,
            o.instrument_id,
        ) matches Some(top) ==> {
            &&& o.side == OrderSide::Buy && top.ask_price.units() > 0 ==> domain::is_product(
                e.worth(o),
                top.ask_price,
                o.quantity,
            )
            &&& o.side == OrderSide::Sell && top.bid_price.units() > 0 ==> domain::is_product(
                e.worth(o),
                top.bid_price,
                o.quantity,
            )
        }),
{
    if o.price is Some {
        domain::lemma_is_product(o.price->0, o.quantity);
    }
    if let Some(top) = e.top(o.instrument_id) {
        domain::lemma_is_product(top.ask_price, o.quantity);
        domain::lemma_is_product(top.bid_price, o.quantity);
        decimal::lemma_sign_of_units(top.ask_price);
        decimal::lemma_sign_of_units(top.bid_price);
    }
}

/// What could be filled at once is what the model gives an order whose price
/// meets the quote, market orders always, and nothing for any other.
pub proof fn law_fillable_is_what_is_given(
    model: ModelView,
    o: OrderView,
    top: TopView,
    left: DecimalView,
    qty: DecimalView,
)
    requires
        o.quantity.minus(o.filled_quantity) == Some(left),
        left.units() > 0,
        match o.side {
            OrderSide::Buy => top.ask_price.units() > 0 && is_given(model, left, top.ask_qty, qty),
            OrderSide::Sell => top.bid_price.units() > 0 && is_given(model, left, top.bid_qty, qty),
        },
    ensures
        o.order_type == OrderType::Market ==> model.fillable(o, Some(top)) == Some(qty),
        o.order_type == OrderType::Limit && (o.price matches Some(px) && match o.side {
            OrderSide::Buy => top.ask_price.units() <= px.units(),
            OrderSide::Sell => px.units() <= top.bid_price.units(),
        }) ==> model.fillable(o, Some(top)) == Some(qty),
        o.order_type == OrderType::Limit && (o.price matches Some(px) ==> match o.side {
            OrderSide::Buy => top.ask_price.units() > px.units(),
            OrderSide::Sell => px.units() > top.bid_price.units(),
        }) ==> (model.fillable(o, Some(top)) matches Some(x) && x.units() == 0),
        o.order_type == OrderType::Stop ==> (model.fillable(o, Some(top)) matches Some(x)
            && x.units() == 0),
{
    decimal::lemma_sign_of_units(top.ask_price);
    decimal::lemma_sign_of_units(top.bid_price);
    decimal::lemma_sign_of_units(DecimalView::zero());
    lemma_given(model, top.ask_price, left, top.displayed(o.side), qty);
}

/// An order can be cancelled exactly when its cancellation may still be asked
/// for.
pub proof fn law_cancellable_is_at_work(o: OrderView)
    ensures
        PaperView::cancellable(o) <==> o.status.successors().contains(OrderStatus::CancelPending),
        PaperView::cancellable(o) ==> o.status.successors().contains(OrderStatus::Cancelled),
{
}

/// A placed order goes by the venue's name for it and by the time of its arrival,
/// and one that comes to nothing says why: a stop order, a post-only order that
/// would cross, a fill-or-kill order without the size it needs, the rest of an
/// immediate-or-cancel order, and a market order without a price.
pub proof fn law_placed_order_says_why(
    e: PaperView,
    order: OrderView,
    now: TimestampMs,
    p: Placement,
)
    requires
        e.placement(order, now) == Some(p),
        order.reject_reason is None,
    ensures
        order.order_type != OrderType::Stop ==> p.order.venue_order_id == Some("paper_"@ + order.id)
            && p.order.updated_at == now,
        order.order_type == OrderType::Stop ==> p.order.reject_reason == Some(
            "stop orders not supported in paper MVP"@,
        ) && p.order.updated_at == order.updated_at,
        order.order_type == OrderType::PostOnly && p.order.status == OrderStatus::Rejected
            ==> p.order.reject_reason == Some("post_only would cross"@),
        p.order.status == OrderStatus::Rejected && order.order_type == OrderType::Market
            ==> p.order.reject_reason == Some("no market reference price / liquidity"@),
        p.order.status == OrderStatus::Cancelled && order.time_in_force == TimeInForce::Fok
            ==> p.order.reject_reason == Some("fok: insufficient liquidity"@),
        p.order.status == OrderStatus::Cancelled && order.time_in_force == TimeInForce::Ioc
            && order.order_type != OrderType::Stop && order.order_type != OrderType::PostOnly
            ==> p.order.reject_reason == Some("ioc remainder cancelled"@),
        p.order.status == OrderStatus::Acknowledged || p.order.status == OrderStatus::Filled
            || p.order.status == OrderStatus::PartiallyFilled ==> p.order.reject_reason is None
            || order.time_in_force == TimeInForce::Ioc,
{
}

/// A market order does not trade without a quote, nor where the other side shows
/// no positive price.
pub proof fn law_market_order_needs_a_price(
    e: PaperView,
    order: OrderView,
    now: TimestampMs,
    p: Placement,
)
    requires
        e.placement(order, now) == Some(p),
        order.order_type == OrderType::Market,
        table::lookup(e.book, order.instrument_id) matches Some(top) ==> match order.side {
            OrderSide::Buy => top.ask_price.units() <= 0,
            OrderSide::Sell => top.bid_price.units() <= 0,
        },
    ensures
        p.trade is None,
{
    if let Some(t) = table::lookup(e.book, order.instrument_id) {
        decimal::lemma_sign_of_units(t.ask_price);
        decimal::lemma_sign_of_units(t.bid_price);
        assert(t.mid() == Some(None::<DecimalView>));
    }
}

/// Without a quote nothing could be filled at once, but all of a market order
/// where displayed sizes do not count.
pub proof fn law_fillable_without_a_quote(model: ModelView, o: OrderView, left: DecimalView)
    requires
        o.quantity.minus(o.filled_quantity) == Some(left),
    ensures
        o.order_type == OrderType::Market && model.kind == FillModelKind::Immediate
            ==> model.fillable(o, None) == Some(left),
        o.order_type != OrderType::Market || model.kind != FillModelKind::Immediate ==> (
        model.fillable(o, None) matches Some(x) && x.units() == 0),
{
    decimal::lemma_sign_of_units(DecimalView::zero());
}

/// Where displayed sizes do not count an order gets all that it has left; else
/// never more than that nor more than the size, and nothing of no size.
pub proof fn law_clip_is_within_both(
    model: ModelView,
    left: DecimalView,
    size: DecimalView,
    qty: DecimalView,
)
    requires
        model.clip(left, size) == Some(qty),
    ensures
        model.kind == FillModelKind::Immediate ==> qty == left,
        model.kind != FillModelKind::Immediate && size.units() == 0 ==> qty.units() == 0,
        model.kind == FillModelKind::L1 && size.units() != 0 ==> qty.units() <= left.units()
            && qty.units() <= size.units() && (qty == left || qty == size),
        model.kind == FillModelKind::Queue && size.units() != 0 ==> (size.times(
            queue_factor(model.random_seed),
        ) matches Some(share) && qty.units() <= left.units() && qty.units() <= share.units() && (qty
            == left || qty == share)),
        liquidity_counts(model.kind) <==> model.kind != FillModelKind::Immediate,
{
    decimal::lemma_sign_of_units(size);
    decimal::lemma_sign_of_units(DecimalView::zero());
}

/// Unless it is told otherwise a model takes two basis points from makers and
/// five from takers and has neither slippage nor latency, whatever its kind and
/// its seed.
pub proof fn law_usual_fees(kind: FillModelKind, seed: u64)
    ensures
        ({
            let m = ModelView::of_kind(kind, seed);
            let point = decimal::pow10(24) as int;
            &&& m.kind == kind && m.random_seed == seed
            &&& m.maker_fee.units() == 2 * point && m.taker_fee.units() == 5 * point
            &&& m.slippage.units() == 0 && m.latency_ms == 0
        }),
{
    decimal::lemma_sign_of_units(DecimalView::zero());
    assert(DecimalView::of(2, 4).units() == 2 * decimal::pow10(24));
    assert(DecimalView::of(5, 4).units() == 5 * decimal::pow10(24));
}

/// A fill without its random id is otherwise the fill.
pub proof fn law_only_the_id_is_left_out(f: FillView)
    ensures
        (FillView { id: f.id, ..anonymous(f) }) == f,
{
}

/// Whether the numbers of a fill are in range: its notional, its fee, and what
/// the order has filled, has left and has paid on average with it.
pub open spec fn fill_in_range(
    o: OrderView,
    price: DecimalView,
    qty: DecimalView,
    rate: DecimalView,
) -> bool {
    let before = match o.avg_fill_price {
        Some(p) => p,
        None => DecimalView::zero(),
    };
    &&& price.times(qty) matches Some(n) && n.times(rate) is Some && (before.times(
        o.filled_quantity,
    ) matches Some(paid) && (paid.plus(n) matches Some(all) && (o.filled_quantity.plus(
        qty,
    ) matches Some(filled) && o.quantity.minus(filled) is Some && (filled.mantissa == 0
        || all.over(filled) is Some))))
}

/// An order without rules to keep always comes to something: a stop or post-only
/// order, one without a quote, one that does not meet the quote, and one that
/// does, if the numbers of its fill are in range.
pub proof fn law_order_comes_to_something(
    e: PaperView,
    order: OrderView,
    now: TimestampMs,
    left: DecimalView,
    qty: DecimalView,
)
    requires
        table::lookup(e.instruments, order.instrument_id) is None,
        order.quantity.minus(order.filled_quantity) == Some(left),
        left.units() > 0,
        table::lookup(e.book, order.instrument_id) matches Some(top) ==> {
            &&& top.mid() is Some
            &&& order.side == OrderSide::Buy ==> is_given(e.model, left, top.ask_qty, qty)
            &&& order.side == OrderSide::Sell ==> is_given(e.model, left, top.bid_qty, qty)
            &&& order.order_type == OrderType::Limit && order.side == OrderSide::Buy
                ==> fill_in_range(order, top.ask_price, qty, e.model.taker_fee)
            &&& order.order_type == OrderType::Limit && order.side == OrderSide::Sell
                ==> fill_in_range(order, top.bid_price, qty, e.model.taker_fee)
            &&& order.order_type == OrderType::Market && order.side == OrderSide::Buy ==> (
            top.ask_price.times(e.model.slippage) matches Some(slip) && (top.ask_price.plus(
                slip,
            ) matches Some(at) && fill_in_range(order, at, qty, e.model.taker_fee)))
            &&& order.order_type == OrderType::Market && order.side == OrderSide::Sell ==> (
            top.bid_price.times(e.model.slippage) matches Some(slip) && (top.bid_price.minus(
                slip,
            ) matches Some(at) && fill_in_range(order, at, qty, e.model.taker_fee)))
        },
    ensures
        e.placement(order, now) is Some,
{
    let o = e.arrived(order, now);
    assert(o.remaining() == Some(left));
    if let Some(t) = table::lookup(e.book, order.instrument_id) {
        lemma_given(e.model, t.ask_price, left, t.displayed(o.side), qty);
        lemma_given(e.model, t.bid_price, left, t.displayed(o.side), qty);
        decimal::lemma_sign_of_units(t.ask_price);
        decimal::lemma_sign_of_units(t.bid_price);
        if o.order_type == OrderType::Market {
            let px = t.touch(o.side);
            let slip = px.times(e.model.slippage)->0;
            let at = match o.side {
                OrderSide::Buy => px.plus(slip),
                OrderSide::Sell => px.minus(slip),
            };
            lemma_given(e.model, at->0, left, t.displayed(o.side), qty);
            if fill_in_range(order, at->0, qty, e.model.taker_fee) {
                assert(e.model.can_fill(o, at->0, qty, false));
            }
        }
        if o.order_type == OrderType::Limit {
            let px = t.touch(o.side);
            if fill_in_range(order, px, qty, e.model.taker_fee) {
                assert(e.model.can_fill(o, px, qty, false));
            }
        }
    }
}

/// A round of matching that has come to an order goes on past it: the order does
/// not wait for the quote, or the numbers of its fill are in range.
pub proof fn law_matching_goes_on(
    model: ModelView,
    top: TopView,
    instrument: Seq<char>,
    orders: Seq<(Seq<char>, OrderView)>,
    n: int,
    now: TimestampMs,
    left: DecimalView,
    qty: DecimalView,
)
    requires
        0 <= n < orders.len(),
        model.matching(top, instrument, orders, n, now) is Some,
        orders[n].1.quantity.minus(orders[n].1.filled_quantity) == Some(left),
        left.units() > 0,
        ({
            let o = orders[n].1;
            let m = model.matching(top, instrument, orders, n, now)->0;
            ||| o.instrument_id != instrument
            ||| o.order_type == OrderType::Market || o.order_type == OrderType::Stop
            ||| o.status != OrderStatus::Acknowledged && o.status != OrderStatus::PartiallyFilled
            ||| o.price is None
            ||| o.side == OrderSide::Buy && (top.ask_price.units() <= 0 || (o.price->0).units()
                < top.ask_price.units())
            ||| o.side == OrderSide::Sell && (top.bid_price.units() <= 0 || (o.price->0).units()
                > top.bid_price.units())
            ||| o.side == OrderSide::Buy && is_given(model, left, m.ask_left, qty)
                && m.ask_left.minus(qty) is Some && fill_in_range(
                o,
                top.ask_price,
                qty,
                model.maker_fee,
            )
            ||| o.side == OrderSide::Sell && is_given(model, left, m.bid_left, qty)
                && m.bid_left.minus(qty) is Some && fill_in_range(
                o,
                top.bid_price,
                qty,
                model.maker_fee,
            )
        }),
    ensures
        model.matching(top, instrument, orders, n + 1, now) is Some,
{
    let o = orders[n].1;
    let m = model.matching(top, instrument, orders, n, now)->0;
    decimal::lemma_sign_of_units(top.ask_price);
    decimal::lemma_sign_of_units(top.bid_price);
    let at = top.touch(o.side);
    if is_given(model, left, m.left(o.side), qty) {
        lemma_given(model, at, left, m.left(o.side), qty);
        if fill_in_range(o, at, qty, model.maker_fee) {
            assert(model.can_fill(o, at, qty, true));
        }
    }
    assert(o.remaining() == Some(left));
}

} // verus!

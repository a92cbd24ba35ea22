//! OMS + order state machine + router.

use vstd::prelude::*;
use vstd::string::*;
use vstd::utf8::*;

use crate::decimal::{pow10, Decimal, DecimalView};
use crate::domain::{ExecutionPort, IntentView, Order, OrderIntent, OrderStatus, OrderView};
use crate::error::{ErrorView, Result, TuxError};
use crate::ids::{
    now_ms, ClientOrderId, Environment, MarketContext, OrderId, StrategyInstanceId, TimestampMs,
    Venue, CLOCK_RANGE_MS,
};
use crate::ids;
use crate::sim::PaperEngine;
use crate::sim;
use crate::table::Table;
use crate::table;
use crate::text::{i64_text, join3, join4, u32_hex};
use crate::text;
use crate::views;

verus! {

pub struct OrderStateMachine;

/// Why a step from one state to another is refused.
pub open spec fn transition_error(from: OrderStatus, to: OrderStatus) -> ErrorView {
    ErrorView::IllegalOrderTransition { from: from.text(), to: to.text() }
}

fn transition_refused(from: OrderStatus, to: OrderStatus) -> (r: TuxError)
    ensures
        r@ == transition_error(from, to),
{
    TuxError::IllegalOrderTransition { from: from.as_str().to_owned(), to: to.as_str().to_owned() }
}

impl OrderStateMachine {
    /// Takes the order to state `to` at `now`.
    pub fn transition_at(order: &mut Order, to: OrderStatus, now: TimestampMs) -> (r: Result<()>)
        ensures
            r is Ok <==> old(order)@.may_become(to),
            r is Ok ==> final(order)@ == old(order)@.with_status(to, now),
            r matches Err(e) ==> *final(order) == *old(order) && e@ == transition_error(
                old(order)@.status,
                to,
            ),
    {
        let from = order.status;
        match order.apply_status(to, now) {
            Ok(()) => Ok(()),
            Err(_) => Err(transition_refused(from, to)),
        }
    }

    pub fn transition(order: &mut Order, to: OrderStatus) -> (r: Result<()>)
        ensures
            r is Ok <==> old(order)@.may_become(to),
            r is Ok ==> exists|now: TimestampMs|
                ids::clock_gives(now) && final(order)@ == #[trigger] old(order)@.with_status(
                    to,
                    now,
                ),
            r matches Err(e) ==> *final(order) == *old(order) && e@ == transition_error(
                old(order)@.status,
                to,
            ),
    {
        OrderStateMachine::transition_at(order, to, now_ms())
    }

    /// Notes at `now` that the venue's answer is not known, and why. The reason
    /// is kept even where the state cannot change.
    pub fn mark_unknown_at(order: &mut Order, reason: &str, now: TimestampMs) -> (r: Result<()>)
        ensures
            r is Ok <==> old(order)@.may_become(OrderStatus::Unknown),
            r is Ok ==> final(order)@ == old(order)@.unknown(reason@, now),
            r matches Err(e) ==> final(order)@ == old(order)@.with_reason(reason@) && e@
                == transition_error(old(order)@.status, OrderStatus::Unknown),
    {
        order.reject_reason = Some(reason.to_owned());
        OrderStateMachine::transition_at(order, OrderStatus::Unknown, now)
    }

    pub fn mark_unknown(order: &mut Order, reason: &str) -> (r: Result<()>)
        ensures
            r is Ok <==> old(order)@.may_become(OrderStatus::Unknown),
            r is Ok ==> exists|now: TimestampMs|
                ids::clock_gives(now) && final(order)@ == #[trigger] old(order)@.unknown(
                    reason@,
                    now,
                ),
            r matches Err(e) ==> final(order)@ == old(order)@.with_reason(reason@) && e@
                == transition_error(old(order)@.status, OrderStatus::Unknown),
    {
        OrderStateMachine::mark_unknown_at(order, reason, now_ms())
    }
}

impl OrderView {
    pub open spec fn with_reason(self, reason: Seq<char>) -> OrderView {
        OrderView { reject_reason: Some(reason), ..self }
    }

    /// The order in unknown state since `now`.
    pub open spec fn unknown(self, reason: Seq<char>, now: TimestampMs) -> OrderView {
        self.with_reason(reason).with_status(OrderStatus::Unknown, now)
    }
}

/// How many bytes of a strategy instance id go into a client order id.
pub const SHORT_ID_BYTES: usize = 6;

/// The start of the last bytes of a text.
pub open spec fn short_start(bytes: Seq<u8>) -> int {
    if bytes.len() > SHORT_ID_BYTES {
        bytes.len() - SHORT_ID_BYTES
    } else {
        0
    }
}

/// Whether the last bytes of a text are whole characters.
pub open spec fn can_shorten(s: Seq<char>) -> bool {
    is_char_boundary(encode_utf8(s), short_start(encode_utf8(s)))
}

/// The last bytes of a text.
pub open spec fn shortened(s: Seq<char>) -> Seq<char> {
    let bytes = encode_utf8(s);
    decode_utf8(bytes.subrange(short_start(bytes), bytes.len() as int))
}

/// The last digits of a time, with the sign of the time.
pub open spec fn short_time(now: TimestampMs) -> int {
    if now >= 0 {
        now as int % 10_000_000_000
    } else {
        -((-now) % 10_000_000_000)
    }
}

/// A client order id made of a time, a strategy instance and a part of a
/// second.
pub open spec fn client_order_id(
    instance: Seq<char>,
    now: TimestampMs,
    nanos: u32,
) -> Seq<char> {
    "t"@ + text::int_text(short_time(now)) + shortened(instance) + text::hex_text(
        (nanos % 0xffff) as nat,
        4,
    )
}

/// Whether an id is one of the instance at a time that the clock may give.
pub open spec fn made_now(instance: Seq<char>, id: Seq<char>) -> bool {
    exists|now: TimestampMs, nanos: u32|
        ids::clock_gives(now) && id == #[trigger] client_order_id(instance, now, nanos)
}

/// Calls `chrono::Utc::now` and `DateTime::timestamp_subsec_nanos`: how far the
/// present second has gone. Nothing is promised of the number.
#[verifier::external_body]
fn clock_nanos() -> (r: u32)
{
    chrono::Utc::now().timestamp_subsec_nanos()
}

proof fn lemma_encode_is_longer(chars: Seq<char>)
    ensures
        encode_utf8(chars).len() >= chars.len(),
    decreases chars.len(),
{
    if chars.len() > 0 {
        lemma_encode_is_longer(chars.drop_first());
    }
}

/// The client order id at a given time.
pub fn client_order_id_at(
    instance_id: &StrategyInstanceId,
    now: TimestampMs,
    nanos: u32,
) -> (r: ClientOrderId)
    requires
        can_shorten(instance_id@),
        -CLOCK_RANGE_MS <= now <= CLOCK_RANGE_MS,
    ensures
        r@ == client_order_id(instance_id@, now, nanos),
        r@.len() <= 22,
        now >= 0 ==> r@.len() <= 21,
{
    let s = instance_id.as_str();
    let n = s.as_bytes().len();
    let start: usize = if n > SHORT_ID_BYTES {
        n - SHORT_ID_BYTES
    } else {
        0
    };
    let (_, short) = s.split_at(start);
    proof {
        encode_utf8_decode_utf8(short@);
        lemma_encode_is_longer(short@);
        assert(short@ == shortened(instance_id@));
    }
    let digits: i64 = if now >= 0 {
        now % 10_000_000_000
    } else {
        -((-now) % 10_000_000_000)
    };
    let time = i64_text(digits);
    let fraction = u32_hex(nanos % 0xffff, 4);
    proof {
        text::lemma_hex_text_len((nanos % 0xffff) as nat, 4);
        reveal_with_fuel(pow10, 11);
        text::lemma_nat_text_len(
            (if digits >= 0 {
                digits as int
            } else {
                -digits
            }) as nat,
            10,
        );
        reveal_strlit("t");
    }
    ClientOrderId::from(join4("t", time.as_str(), short, fraction.as_str()))
}

/// A client order id, where the strategy instance id can be shortened.
pub fn try_generate_client_order_id(instance_id: &StrategyInstanceId) -> (r: Option<ClientOrderId>)
    ensures
        r is Some <==> can_shorten(instance_id@),
        r matches Some(id) ==> id@.len() <= 21 && made_now(instance_id@, id@),
{
    let s = instance_id.as_str();
    let n = s.as_bytes().len();
    let start: usize = if n > SHORT_ID_BYTES {
        n - SHORT_ID_BYTES
    } else {
        0
    };
    if s.is_char_boundary(start) {
        Some(generate_client_order_id(instance_id))
    } else {
        None
    }
}

/// A client order id of this moment, within venue length limits.
pub fn generate_client_order_id(instance_id: &StrategyInstanceId) -> (r: ClientOrderId)
    requires
        can_shorten(instance_id@),
    ensures
        made_now(instance_id@, r@),
        r@.len() <= 21,
{
    client_order_id_at(instance_id, now_ms(), clock_nanos())
}

/// Two client order ids differ, of one instance or of two whose shortened ids are
/// equally long, unless they were made at the same time, up to the last ten
/// digits, in the same part of a second and for the same shortened id.
pub proof fn law_client_order_ids_differ(
    instance: Seq<char>,
    now: TimestampMs,
    nanos: u32,
    other: Seq<char>,
    then: TimestampMs,
    then_nanos: u32,
)
    requires
        shortened(instance).len() == shortened(other).len(),
        ({
            ||| short_time(now) != short_time(then)
            ||| shortened(instance) != shortened(other)
            ||| nanos % 0xffff != then_nanos % 0xffff
        }),
    ensures
        client_order_id(instance, now, nanos) != client_order_id(other, then, then_nanos),
{
    let a = client_order_id(instance, now, nanos);
    let b = client_order_id(other, then, then_nanos);
    let m = (nanos % 0xffff) as nat;
    let n = (then_nanos % 0xffff) as nat;
    text::lemma_hex_text_len(m, 4);
    text::lemma_hex_text_len(n, 4);
    reveal_strlit("t");
    if a == b {
        let end = a.len() - 4;
        assert(a.subrange(end, a.len() as int) =~= text::hex_text(m, 4));
        assert(b.subrange(end, a.len() as int) =~= text::hex_text(n, 4));
        let len = text::int_text(short_time(now)).len() as int;
        assert(a.subrange(1, 1 + len) =~= text::int_text(short_time(now)));
        assert(b.subrange(1, 1 + len) =~= text::int_text(short_time(then)));
        assert(a.subrange(1 + len, end) =~= shortened(instance));
        assert(b.subrange(1 + len, end) =~= shortened(other));
        text::lemma_int_text_injective(short_time(now), short_time(then));
        reveal(vstd::arithmetic::power::pow);
        reveal_with_fuel(vstd::arithmetic::power::pow, 5);
        text::lemma_hex_text_injective(m, n, 4);
    }
}

#[derive(Debug, Clone, Copy, PartialEq, Eq, Structural)]
pub enum Route {
    PaperMatching,
    Venue(Venue),
}

/// Routes by venue + product + environment. `split` always returns the whole
/// order (MVP has no TWAP); it never drops the order.
pub struct SmartOrderRouter;

impl SmartOrderRouter {
    pub fn route(ctx: &MarketContext) -> (r: Route)
        ensures
            r == (if ctx.simulated() {
                Route::PaperMatching
            } else {
                Route::Venue(ctx.venue)
            }),
    {
        match ctx.environment {
            Environment::ReplayBacktest | Environment::LocalPaper => Route::PaperMatching,
            Environment::ExchangeDemo | Environment::Live => Route::Venue(ctx.venue),
        }
    }

    /// MVP: single child equal to the parent. Future: TWAP/iceberg splits.
    pub fn split(order: &Order) -> (r: Vec<Order>)
        ensures
            views::seq_view(r@) == seq![order@],
    {
        let mut r: Vec<Order> = Vec::new();
        r.push(order.clone());
        assert(views::seq_view(r@) =~= seq![order@]);
        r
    }
}

/// All orders, and where to find them.
pub struct Oms {
    orders: Table<Order>,
    by_intent: Table<String>,
    by_clid: Table<String>,
}

/// What an [`Oms`] holds: orders by id, and order ids by intent and by client
/// order id.
#[verifier::ext_equal]
pub struct OmsView {
    pub orders: Seq<(Seq<char>, OrderView)>,
    pub by_intent: Seq<(Seq<char>, Seq<char>)>,
    pub by_clid: Seq<(Seq<char>, Seq<char>)>,
}

impl View for Oms {
    type V = OmsView;

    closed spec fn view(&self) -> OmsView {
        OmsView {
            orders: self.orders@,
            by_intent: self.by_intent@,
            by_clid: self.by_clid@,
        }
    }
}

/// Whether two optional prices have the same value.
pub open spec fn same_price(a: Option<DecimalView>, b: Option<DecimalView>) -> bool {
    match (a, b) {
        (Some(x), Some(y)) => x.same(y),
        (None, None) => true,
        _ => false,
    }
}

fn prices_equal(a: Option<Decimal>, b: Option<Decimal>) -> (r: bool)
    ensures
        r == same_price(views::opt_view(a), views::opt_view(b)),
{
    match (a, b) {
        (Some(x), Some(y)) => x == y,
        (None, None) => true,
        _ => false,
    }
}

/// The order that an intent asks for, approved by risk.
pub open spec fn order_of(intent: IntentView, id: Seq<char>, now: TimestampMs) -> OrderView {
    OrderView {
        id,
        intent_id: Some(intent.id),
        client_order_id: intent.client_order_id,
        venue_order_id: None,
        account_id: intent.account_id,
        strategy_instance_id: Some(intent.strategy_instance_id),
        instrument_id: intent.instrument_id,
        side: intent.side,
        order_type: intent.order_type,
        time_in_force: intent.time_in_force,
        status: OrderStatus::RiskApproved,
        price: intent.price,
        quantity: intent.quantity,
        filled_quantity: DecimalView::zero(),
        avg_fill_price: None,
        reduce_only: intent.reduce_only,
        position_side: intent.position_side,
        reject_reason: None,
        created_at: now,
        updated_at: now,
    }
}

pub open spec fn order_not_found(id: Seq<char>) -> ErrorView {
    ErrorView::InvalidOrder("order "@ + id + " not found"@)
}

impl OmsView {
    pub open spec fn nothing() -> OmsView {
        OmsView { orders: Seq::empty(), by_intent: Seq::empty(), by_clid: Seq::empty() }
    }

    pub open spec fn get(self, id: Seq<char>) -> Option<OrderView> {
        table::lookup(self.orders, id)
    }

    /// The order that an index leads to.
    pub open spec fn through(
        self,
        index: Seq<(Seq<char>, Seq<char>)>,
        key: Seq<char>,
    ) -> Option<OrderView> {
        match table::lookup(index, key) {
            Some(id) => self.get(id),
            None => None,
        }
    }

    /// With the order under its id, its intent and its client order id.
    pub open spec fn indexed(self, order: OrderView) -> OmsView {
        OmsView {
            orders: table::put(self.orders, order.id, order),
            by_intent: match order.intent_id {
                Some(intent) => table::put(self.by_intent, intent, order.id),
                None => self.by_intent,
            },
            by_clid: table::put(self.by_clid, order.client_order_id, order.id),
        }
    }

    /// With a submitted order as the venue answered it at `now`: the placed
    /// order, or the submitted one in unknown state with the error as its reason.
    pub open spec fn answered(
        self,
        order: OrderView,
        answer: Result<Order>,
        now: TimestampMs,
    ) -> OmsView {
        match answer {
            Ok(placed) => self.indexed(placed@),
            Err(e) => self.indexed(order.unknown(e@.text(), now)),
        }
    }

    /// With the order under its id, and the indexes as they are.
    pub open spec fn replaced(self, order: OrderView) -> OmsView {
        OmsView { orders: table::put(self.orders, order.id, order), ..self }
    }

    /// With the order that a cancellation brought back, if it did.
    pub open spec fn cancelled(self, answer: Result<Order>) -> OmsView {
        match answer {
            Ok(o) => self.replaced(o@),
            Err(_) => self,
        }
    }

    /// What there is already for an intent: the order of the same intent or the
    /// same client order id, or a conflict with it.
    pub open spec fn earlier(
        self,
        intent: IntentView,
    ) -> Option<core::result::Result<OrderView, ErrorView>> {
        match self.through(self.by_intent, intent.id) {
            Some(o) => if o.side == intent.side && o.quantity.same(intent.quantity) && same_price(
                o.price,
                intent.price,
            ) {
                Some(Ok(o))
            } else {
                Some(
                    Err(
                        ErrorView::InvalidOrder("intent "@ + intent.id + " payload conflict"@),
                    ),
                )
            },
            None => match self.through(self.by_clid, intent.client_order_id) {
                Some(o) => if o.side == intent.side && o.quantity.same(intent.quantity) {
                    Some(Ok(o))
                } else {
                    Some(
                        Err(
                            ErrorView::InvalidOrder(
                                "client_order_id "@ + intent.client_order_id
                                    + " payload conflict"@,
                            ),
                        ),
                    )
                },
                None => None,
            },
        }
    }

    /// The orders among the first `n`, in order.
    pub open spec fn listed(self, n: int) -> Seq<OrderView> {
        Seq::new(n as nat, |i: int| self.orders[i].1)
    }

    /// The active orders among the first `n`, in order.
    pub open spec fn active(self, n: int) -> Seq<OrderView>
        decreases n,
    {
        if n <= 0 {
            Seq::empty()
        } else if self.orders[n - 1].1.status.active() {
            self.active(n - 1).push(self.orders[n - 1].1)
        } else {
            self.active(n - 1)
        }
    }

    /// Orders stand under their own ids, each once, and every index entry leads
    /// to an order.
    pub open spec fn wf(self) -> bool {
        &&& table::distinct(self.orders)
        &&& forall|i: int| 0 <= i < self.orders.len() ==> (#[trigger] self.orders[i]).1.id
            == self.orders[i].0
        &&& forall|i: int|
            0 <= i < self.by_intent.len() ==> self.get((#[trigger] self.by_intent[i]).1) is Some
        &&& forall|i: int|
            0 <= i < self.by_clid.len() ==> self.get((#[trigger] self.by_clid[i]).1) is Some
    }
}

impl Oms {
    pub fn new() -> (r: Self)
        ensures
            r@ == OmsView::nothing(),
    {
        Oms { orders: Table::new(), by_intent: Table::new(), by_clid: Table::new() }
    }

    pub fn get(&self, id: &OrderId) -> (r: Option<&Order>)
        ensures
            match r {
                Some(o) => self@.get(id@) == Some(o@),
                None => self@.get(id@) is None,
            },
    {
        self.orders.get(id.as_str())
    }

    pub fn active_orders(&self) -> (r: Vec<&Order>)
        ensures
            views::seq_view(r@) == self@.active(self@.orders.len() as int),
    {
        let mut r: Vec<&Order> = Vec::new();
        let mut i: usize = 0;
        assert(views::seq_view(r@) =~= self@.active(0));
        while i < self.orders.len()
            invariant
                i <= self@.orders.len(),
                views::seq_view(r@) == self@.active(i as int),
            decreases self@.orders.len() - i,
        {
            let o = self.orders.value_at(i);
            if o.status.is_active() {
                proof {
                    views::lemma_seq_view_push(r@, o);
                }
                r.push(o);
            }
            i = i + 1;
        }
        r
    }

    pub fn all(&self) -> (r: Vec<&Order>)
        ensures
            views::seq_view(r@) == self@.listed(self@.orders.len() as int),
    {
        let mut r: Vec<&Order> = Vec::new();
        let mut i: usize = 0;
        while i < self.orders.len()
            invariant
                i <= self@.orders.len(),
                views::seq_view(r@) =~= self@.listed(i as int),
            decreases self@.orders.len() - i,
        {
            let o = self.orders.value_at(i);
            proof {
                views::lemma_seq_view_push(r@, o);
            }
            r.push(o);
            i = i + 1;
        }
        r
    }

    /// The order that an index leads to.
    fn find(&self, index: &Table<String>, key: &str) -> (r: Option<&Order>)
        ensures
            match r {
                Some(o) => self@.through(index@, key@) == Some(o@),
                None => self@.through(index@, key@) is None,
            },
    {
        match index.get(key) {
            Some(id) => self.orders.get(id.as_str()),
            None => None,
        }
    }

    /// Creates the order with a given id at `now`.
    pub fn create_from_intent_with(
        &mut self,
        intent: &OrderIntent,
        id: OrderId,
        now: TimestampMs,
    ) -> (r: Result<Order>)
        ensures
            match old(self)@.earlier(intent@) {
                Some(Ok(o)) => final(self)@ == old(self)@ && (r matches Ok(x) && x@ == o),
                Some(Err(e)) => final(self)@ == old(self)@ && (r matches Err(x) && x@ == e),
                None => (r matches Ok(x) && x@ == order_of(intent@, id@, now)) && final(self)@
                    == old(self)@.indexed(order_of(intent@, id@, now)),
            },
    {
        if let Some(o) = self.find(&self.by_intent, intent.id.as_str()) {
            if o.side != intent.side || o.quantity != intent.quantity || !prices_equal(
                o.price,
                intent.price,
            ) {
                return Err(
                    TuxError::InvalidOrder(
                        join3("intent ", intent.id.as_str(), " payload conflict"),
                    ),
                );
            }
            return Ok(o.clone());
        }
        if let Some(o) = self.find(&self.by_clid, intent.client_order_id.as_str()) {
            if o.side != intent.side || o.quantity != intent.quantity {
                return Err(
                    TuxError::InvalidOrder(
                        join3(
                            "client_order_id ",
                            intent.client_order_id.as_str(),
                            " payload conflict",
                        ),
                    ),
                );
            }
            return Ok(o.clone());
        }
        let mut order = Order {
            id,
            intent_id: Some(intent.id.clone()),
            client_order_id: intent.client_order_id.clone(),
            venue_order_id: None,
            account_id: intent.account_id.clone(),
            strategy_instance_id: Some(intent.strategy_instance_id.clone()),
            instrument_id: intent.instrument_id.clone(),
            side: intent.side,
            order_type: intent.order_type,
            time_in_force: intent.time_in_force,
            status: OrderStatus::Created,
            price: intent.price,
            quantity: intent.quantity,
            filled_quantity: Decimal::zero(),
            avg_fill_price: None,
            reduce_only: intent.reduce_only,
            position_side: intent.position_side,
            reject_reason: None,
            created_at: now,
            updated_at: now,
        };
        match OrderStateMachine::transition_at(&mut order, OrderStatus::RiskApproved, now) {
            Ok(()) => {},
            Err(e) => return Err(e),
        }
        self.index_order(&order);
        Ok(order)
    }

    /// Create local order from a risk-approved intent.
    /// Idempotent on intent id / client_order_id; keeps strategy-supplied clOrdId.
    pub fn create_from_intent(&mut self, intent: &OrderIntent) -> (r: Result<Order>)
        ensures
            match old(self)@.earlier(intent@) {
                Some(Ok(o)) => final(self)@ == old(self)@ && (r matches Ok(x) && x@ == o),
                Some(Err(e)) => final(self)@ == old(self)@ && (r matches Err(x) && x@ == e),
                None => exists|token: Seq<char>, now: TimestampMs|
                    #![trigger order_of(intent@, "ord_"@ + token, now)]
                    ids::is_token(token) && ids::clock_gives(now) && final(self)@ == old(
                        self,
                    )@.indexed(
                        order_of(intent@, "ord_"@ + token, now),
                    ) && (r matches Ok(x) && x@ == order_of(intent@, "ord_"@ + token, now)),
            },
    {
        let id = OrderId::new();
        let ghost token = choose|t: Seq<char>| #[trigger] ids::is_token(t) && id@ == "ord_"@ + t;
        let now = now_ms();
        let ghost made = order_of(intent@, "ord_"@ + token, now);
        self.create_from_intent_with(intent, id, now)
    }

    fn index_order(&mut self, order: &Order)
        ensures
            final(self)@ == old(self)@.indexed(order@),
    {
        self.orders.insert(order.id.as_str().to_owned(), order.clone());
        if let Some(iid) = &order.intent_id {
            self.by_intent.insert(iid.as_str().to_owned(), order.id.as_str().to_owned());
        }
        self.by_clid.insert(
            order.client_order_id.as_str().to_owned(),
            order.id.as_str().to_owned(),
        );
    }

    fn not_found(order_id: &OrderId) -> (r: TuxError)
        ensures
            r@ == order_not_found(order_id@),
    {
        TuxError::InvalidOrder(join3("order ", order_id.as_str(), " not found"))
    }

    /// The order as it goes to the venue, submitted at `now`.
    pub fn begin_submit(&self, order_id: &OrderId, now: TimestampMs) -> (r: Result<Order>)
        ensures
            match self@.get(order_id@) {
                None => r matches Err(e) && e@ == order_not_found(order_id@),
                Some(o) => if o.may_become(OrderStatus::Submitted) {
                    r matches Ok(x) && x@ == o.with_status(OrderStatus::Submitted, now)
                } else {
                    r matches Err(e) && e@ == transition_error(o.status, OrderStatus::Submitted)
                },
            },
    {
        let mut order = match self.orders.get(order_id.as_str()) {
            Some(o) => o.clone(),
            None => return Err(Oms::not_found(order_id)),
        };
        match OrderStateMachine::transition_at(&mut order, OrderStatus::Submitted, now) {
            Ok(()) => Ok(order),
            Err(e) => Err(e),
        }
    }

    /// Takes the venue's answer for a submitted order at `now`: keeps the placed
    /// order, or the submitted one in unknown state with the error as reason.
    pub fn complete_submit(
        &mut self,
        order: Order,
        answer: Result<Order>,
        now: TimestampMs,
    ) -> (r: Result<Order>)
        ensures
            answer is Ok || order@.may_become(OrderStatus::Unknown) ==> r == answer && final(self)@
                == old(self)@.answered(order@, answer, now),
            answer is Err && !order@.may_become(OrderStatus::Unknown) ==> (r matches Err(x) && x@
                == transition_error(order@.status, OrderStatus::Unknown)) && final(self)@ == old(
                self,
            )@,
    {
        match answer {
            Ok(placed) => {
                self.index_order(&placed);
                Ok(placed)
            },
            Err(e) => {
                let mut order = order;
                let reason = e.to_text();
                match OrderStateMachine::mark_unknown_at(&mut order, reason.as_str(), now) {
                    Ok(()) => {},
                    Err(x) => return Err(x),
                }
                self.index_order(&order);
                Err(e)
            },
        }
    }

    /// Submits an order to a port and keeps what came back.
    pub fn submit<P: ExecutionPort>(
        &mut self,
        order_id: &OrderId,
        port: &mut P,
    ) -> (r: Result<Order>)
        requires
            old(self)@.get(order_id@) matches Some(o) ==> o.may_become(OrderStatus::Submitted)
                ==> forall|now: TimestampMs|
                ids::clock_gives(now) ==> old(port).can_place(
                    #[trigger] o.with_status(OrderStatus::Submitted, now),
                ),
        ensures
            match old(self)@.get(order_id@) {
                None => final(self)@ == old(self)@ && *final(port) == *old(port) && (r matches Err(
                    e,
                ) && e@ == order_not_found(order_id@)),
                Some(o) => if !o.may_become(OrderStatus::Submitted) {
                    final(self)@ == old(self)@ && *final(port) == *old(port) && (r matches Err(e)
                        && e@ == transition_error(o.status, OrderStatus::Submitted))
                } else {
                    exists|sent: TimestampMs, now: TimestampMs|
                        {
                            &&& ids::clock_gives(sent) && ids::clock_gives(now)
                            &&& P::may_place(
                                *old(port),
                                o.with_status(OrderStatus::Submitted, sent),
                                *final(port),
                                r,
                            )
                            &&& final(self)@ == #[trigger] old(self)@.answered(
                                o.with_status(OrderStatus::Submitted, sent),
                                r,
                                now,
                            )
                        }
                },
            },
    {
        let sent = now_ms();
        let order = match self.begin_submit(order_id, sent) {
            Ok(o) => o,
            Err(e) => return Err(e),
        };
        let answer = port.place_order(&order);
        let now = now_ms();
        let ghost kept = self@.answered(order@, answer, now);
        self.complete_submit(order, answer, now)
    }

    /// Submits an order to the paper engine and keeps what came back; `None`, and
    /// no change, when the engine cannot take it without leaving the range of
    /// numbers.
    pub fn try_submit(
        &mut self,
        order_id: &OrderId,
        paper: &mut PaperEngine,
    ) -> (r: Option<Result<Order>>)
        ensures
            match old(self)@.get(order_id@) {
                None => final(self)@ == old(self)@ && *final(paper) == *old(paper) && (
                r matches Some(Err(e)) && e@ == order_not_found(order_id@)),
                Some(o) => if !o.may_become(OrderStatus::Submitted) {
                    final(self)@ == old(self)@ && *final(paper) == *old(paper) && (
                    r matches Some(Err(e)) && e@ == transition_error(
                        o.status,
                        OrderStatus::Submitted,
                    ))
                } else if !old(paper).can_place(o.with_status(OrderStatus::Submitted, 0)) {
                    r is None && final(self)@ == old(self)@ && *final(paper) == *old(paper)
                } else {
                    r matches Some(x) && exists|sent: TimestampMs, now: TimestampMs|
                        {
                            &&& ids::clock_gives(sent) && ids::clock_gives(now)
                            &&& PaperEngine::may_place(
                                *old(paper),
                                o.with_status(OrderStatus::Submitted, sent),
                                *final(paper),
                                x,
                            )
                            &&& final(self)@ == #[trigger] old(self)@.answered(
                                o.with_status(OrderStatus::Submitted, sent),
                                x,
                                now,
                            )
                        }
                },
            },
    {
        if let Some(o) = self.get(order_id) {
            let mut order = o.clone();
            if order.apply_status(OrderStatus::Submitted, 0).is_ok() && !paper.takes(&order) {
                return None;
            }
            proof {
                let e = paper@;
                assert forall|now: TimestampMs| o@.may_become(OrderStatus::Submitted) implies paper.can_place(
                    #[trigger] o@.with_status(OrderStatus::Submitted, now),
                ) by {
                    sim::lemma_sending_time_does_not_count(e, o@, now, 0);
                }
            }
        }
        Some(self.submit(order_id, paper))
    }

    /// Takes the venue's answer to a cancellation: keeps the cancelled order.
    pub fn complete_cancel(&mut self, answer: Result<Order>) -> (r: Result<Order>)
        ensures
            r == answer,
            final(self)@ == old(self)@.cancelled(answer),
    {
        match answer {
            Ok(cancelled) => {
                self.orders.insert(cancelled.id.as_str().to_owned(), cancelled.clone());
                Ok(cancelled)
            },
            Err(e) => Err(e),
        }
    }

    /// Cancels an order at a port and keeps what came back.
    pub fn cancel<P: ExecutionPort>(
        &mut self,
        order_id: &OrderId,
        port: &mut P,
    ) -> (r: Result<Order>)
        ensures
            P::may_cancel(*old(port), order_id@, *final(port), r),
            final(self)@ == old(self)@.cancelled(r),
    {
        let answer = port.cancel_order(order_id);
        self.complete_cancel(answer)
    }

    /// Takes an order to a state at `now`.
    pub fn apply_status_at(
        &mut self,
        order_id: &OrderId,
        status: OrderStatus,
        now: TimestampMs,
    ) -> (r: Result<()>)
        ensures
            match old(self)@.get(order_id@) {
                None => final(self)@ == old(self)@ && (r matches Err(e) && e@ == order_not_found(
                    order_id@,
                )),
                Some(o) => if o.may_become(status) {
                    r is Ok && final(self)@ == (OmsView {
                        orders: table::put(
                            old(self)@.orders,
                            order_id@,
                            o.with_status(status, now),
                        ),
                        ..old(self)@
                    })
                } else {
                    final(self)@ == old(self)@ && (r matches Err(e) && e@ == transition_error(
                        o.status,
                        status,
                    ))
                },
            },
    {
        let mut order = match self.orders.get(order_id.as_str()) {
            Some(o) => o.clone(),
            None => return Err(Oms::not_found(order_id)),
        };
        match OrderStateMachine::transition_at(&mut order, status, now) {
            Ok(()) => {},
            Err(e) => return Err(e),
        }
        self.orders.insert(order_id.as_str().to_owned(), order);
        Ok(())
    }

    pub fn apply_status(&mut self, order_id: &OrderId, status: OrderStatus) -> (r: Result<()>)
        ensures
            match old(self)@.get(order_id@) {
                None => final(self)@ == old(self)@ && (r matches Err(e) && e@ == order_not_found(
                    order_id@,
                )),
                Some(o) => if o.may_become(status) {
                    r is Ok && exists|now: TimestampMs|
                        ids::clock_gives(now) && final(self)@ == (OmsView {
                            orders: table::put(
                                old(self)@.orders,
                                order_id@,
                                #[trigger] o.with_status(status, now),
                            ),
                            ..old(self)@
                        })
                } else {
                    final(self)@ == old(self)@ && (r matches Err(e) && e@ == transition_error(
                        o.status,
                        status,
                    ))
                },
            },
    {
        self.apply_status_at(order_id, status, now_ms())
    }

    pub fn upsert(&mut self, order: Order)
        ensures
            final(self)@ == old(self)@.indexed(order@),
    {
        self.index_order(&order);
    }
}

impl Default for Oms {
    fn default() -> (r: Self)
        ensures
            r@ == OmsView::nothing(),
    {
        Oms::new()
    }
}

/// An order that was kept is found under its id, its intent and its client
/// order id, and no other order is affected.
pub proof fn law_indexed_is_found(o: OmsView, order: OrderView, other: Seq<char>)
    ensures
        o.indexed(order).get(order.id) == Some(order),
        order.intent_id matches Some(intent) ==> o.indexed(order).through(
            o.indexed(order).by_intent,
            intent,
        ) == Some(order),
        o.indexed(order).through(o.indexed(order).by_clid, order.client_order_id) == Some(order),
        other != order.id ==> o.indexed(order).get(other) == o.get(other),
{
    table::law_put(o.orders, order.id, order, other);
    if let Some(intent) = order.intent_id {
        table::law_put(o.by_intent, intent, order.id, other);
    }
    table::law_put(o.by_clid, order.client_order_id, order.id, other);
}

/// Creating an order is idempotent: the same intent again gives the same order
/// and changes nothing.
pub proof fn law_create_is_idempotent(
    o: OmsView,
    intent: IntentView,
    id: Seq<char>,
    now: TimestampMs,
)
    requires
        o.earlier(intent) is None,
    ensures
        o.indexed(order_of(intent, id, now)).earlier(intent) == Some(
            Ok::<OrderView, ErrorView>(order_of(intent, id, now)),
        ),
{
    law_indexed_is_found(o, order_of(intent, id, now), id);
}

/// An intent under a new id that repeats a client order id gets the order that
/// is there, or a conflict, but no second order.
pub proof fn law_client_order_id_is_unique(
    o: OmsView,
    intent: IntentView,
    again: IntentView,
    id: Seq<char>,
    now: TimestampMs,
)
    requires
        o.earlier(intent) is None,
        again.client_order_id == intent.client_order_id,
        again.id != intent.id,
        o.through(o.by_intent, again.id) is None,
        table::lookup(o.by_intent, again.id) is None,
    ensures
        match o.indexed(order_of(intent, id, now)).earlier(again) {
            Some(Ok(order)) => order == order_of(intent, id, now),
            Some(Err(e)) => e == ErrorView::InvalidOrder(
                "client_order_id "@ + intent.client_order_id + " payload conflict"@,
            ),
            None => false,
        },
{
    law_indexed_is_found(o, order_of(intent, id, now), id);
    table::law_put(o.by_intent, intent.id, id, again.id);
}

/// Orders stand under their own ids and no index entry leads nowhere, from the
/// start and after every order that is kept or replaced.
pub proof fn law_index_leads_to_orders(o: OmsView, order: OrderView)
    requires
        o.wf(),
    ensures
        OmsView::nothing().wf(),
        o.indexed(order).wf(),
        o.replaced(order).wf(),
        o.get(order.id) matches Some(x) ==> x.id == order.id,
{
    let after = o.indexed(order);
    table::law_put_keeps_distinct(o.orders, order.id, order);
    table::lemma_index_of(o.orders, order.id);
    assert forall|i: int| 0 <= i < after.by_intent.len() implies after.get(
        (#[trigger] after.by_intent[i]).1,
    ) is Some by {
        lemma_put_index_entry(o, order, o.by_intent, order.intent_id->0, i);
    }
    assert forall|i: int| 0 <= i < after.by_clid.len() implies after.get(
        (#[trigger] after.by_clid[i]).1,
    ) is Some by {
        lemma_put_index_entry(o, order, o.by_clid, order.client_order_id, i);
    }
    assert forall|i: int| 0 <= i < o.by_intent.len() implies o.replaced(order).get(
        (#[trigger] o.by_intent[i]).1,
    ) is Some by {
        lemma_put_index_entry(o, order, o.by_intent, order.client_order_id, i);
    }
    assert forall|i: int| 0 <= i < o.by_clid.len() implies o.replaced(order).get(
        (#[trigger] o.by_clid[i]).1,
    ) is Some by {
        lemma_put_index_entry(o, order, o.by_clid, order.client_order_id, i);
    }
}

proof fn lemma_put_index_entry(
    o: OmsView,
    order: OrderView,
    index: Seq<(Seq<char>, Seq<char>)>,
    key: Seq<char>,
    i: int,
)
    requires
        forall|j: int| 0 <= j < index.len() ==> o.get((#[trigger] index[j]).1) is Some,
        0 <= i,
    ensures
        i < table::put(index, key, order.id).len() ==> o.indexed(order).get(
            table::put(index, key, order.id)[i].1,
        ) is Some,
        i < index.len() ==> o.indexed(order).get(index[i].1) is Some,
{
    table::lemma_index_of(index, key);
    table::law_put(o.orders, order.id, order, order.id);
    if i < index.len() {
        table::law_put(o.orders, order.id, order, index[i].1);
    }
    let after = table::put(index, key, order.id);
    if i < after.len() {
        table::law_put(o.orders, order.id, order, after[i].1);
    }
}

/// The order that is made for an intent asks for what the intent asks for, on
/// behalf of the same strategy and account; nothing of it is filled yet.
pub proof fn law_order_asks_for_the_intent(intent: IntentView, id: Seq<char>, now: TimestampMs)
    ensures
        ({
            let o = order_of(intent, id, now);
            &&& o.id == id && o.intent_id == Some(intent.id)
            &&& o.client_order_id == intent.client_order_id
            &&& o.account_id == intent.account_id
            &&& o.strategy_instance_id == Some(intent.strategy_instance_id)
            &&& o.instrument_id == intent.instrument_id
            &&& o.side == intent.side && o.order_type == intent.order_type
            &&& o.time_in_force == intent.time_in_force
            &&& o.price == intent.price && o.quantity == intent.quantity
            &&& o.reduce_only == intent.reduce_only && o.position_side == intent.position_side
            &&& o.filled_quantity.units() == 0 && o.avg_fill_price is None
            &&& o.venue_order_id is None && o.reject_reason is None
            &&& o.status == OrderStatus::RiskApproved
            &&& o.created_at == now && o.updated_at == now
        }),
{
    crate::decimal::lemma_sign_of_units(DecimalView::zero());
}

/// An intent that was seen before gets its order back exactly when it asks for
/// the same side, quantity and price; one that repeats a client order id, when it
/// asks for the same side and quantity. Else it is a conflict. An intent of which
/// neither is known is new.
pub proof fn law_conflicts_are_refused(o: OmsView, intent: IntentView, x: OrderView, id: Seq<char>)
    requires
        table::lookup(o.orders, id) == Some(x),
    ensures
        table::lookup(o.by_intent, intent.id) == Some(id) ==> {
            let same = {
                &&& x.side == intent.side
                &&& x.quantity.units() == intent.quantity.units()
                &&& match (x.price, intent.price) {
                    (Some(a), Some(b)) => a.units() == b.units(),
                    (None, None) => true,
                    _ => false,
                }
            };
            &&& same ==> o.earlier(intent) == Some(Ok::<OrderView, ErrorView>(x))
            &&& !same ==> o.earlier(intent) == Some(
                Err::<OrderView, ErrorView>(
                    ErrorView::InvalidOrder("intent "@ + intent.id + " payload conflict"@),
                ),
            )
        },
        table::lookup(o.by_intent, intent.id) is None && table::lookup(
            o.by_clid,
            intent.client_order_id,
        ) == Some(id) ==> {
            let same = x.side == intent.side && x.quantity.units() == intent.quantity.units();
            &&& same ==> o.earlier(intent) == Some(Ok::<OrderView, ErrorView>(x))
            &&& !same ==> o.earlier(intent) == Some(
                Err::<OrderView, ErrorView>(
                    ErrorView::InvalidOrder(
                        "client_order_id "@ + intent.client_order_id + " payload conflict"@,
                    ),
                ),
            )
        },
        table::lookup(o.by_intent, intent.id) is None && table::lookup(
            o.by_clid,
            intent.client_order_id,
        ) is None ==> o.earlier(intent) is None,
{
}

/// After a venue answered, the placed order stands under its id; after it failed
/// to answer, the submitted order stands there in unknown state with the error as
/// its reason. No other order changes, and nothing of the order but state, reason
/// and time.
pub proof fn law_answer_is_kept(
    o: OmsView,
    order: OrderView,
    answer: Result<Order>,
    now: TimestampMs,
    other: Seq<char>,
)
    ensures
        answer matches Ok(placed) ==> {
            &&& table::lookup(o.answered(order, answer, now).orders, placed@.id) == Some(placed@)
            &&& other != placed@.id ==> table::lookup(o.answered(order, answer, now).orders, other)
                == table::lookup(o.orders, other)
        },
        answer matches Err(e) ==> {
            &&& table::lookup(o.answered(order, answer, now).orders, order.id) matches Some(x) && {
                &&& x.status == OrderStatus::Unknown
                &&& x.reject_reason == Some(e@.text())
                &&& x.updated_at == now
                &&& x.same_terms(order)
                &&& x.filled_quantity == order.filled_quantity
            }
            &&& other != order.id ==> table::lookup(o.answered(order, answer, now).orders, other)
                == table::lookup(o.orders, other)
        },
{
    match answer {
        Ok(placed) => {
            table::law_put(o.orders, placed@.id, placed@, other);
        },
        Err(e) => {
            table::law_put(o.orders, order.id, order.unknown(e@.text(), now), other);
        },
    }
}

/// A cancellation that was answered puts the order back as it came, under its id
/// alone; one that failed changes nothing.
pub proof fn law_cancellation_is_kept(o: OmsView, answer: Result<Order>, other: Seq<char>)
    ensures
        answer is Err ==> o.cancelled(answer) == o,
        answer matches Ok(x) ==> {
            &&& table::lookup(o.cancelled(answer).orders, x@.id) == Some(x@)
            &&& other != x@.id ==> table::lookup(o.cancelled(answer).orders, other)
                == table::lookup(o.orders, other)
            &&& o.cancelled(answer).by_intent == o.by_intent
            &&& o.cancelled(answer).by_clid == o.by_clid
        },
{
    if let Ok(x) = answer {
        table::law_put(o.orders, x@.id, x@, other);
    }
}

/// The active orders are those that were submitted and are not finished: each of
/// them is listed, and nothing else.
pub proof fn law_active_orders(o: OmsView, n: int, x: OrderView)
    requires
        0 <= n <= o.orders.len(),
    ensures
        o.active(n).contains(x) <==> (exists|i: int|
            0 <= i < n && (#[trigger] o.orders[i]).1 == x) && (x.status == OrderStatus::Submitted
            || x.status == OrderStatus::Acknowledged || x.status == OrderStatus::PartiallyFilled
            || x.status == OrderStatus::CancelPending),
        o.listed(n).contains(x) <==> exists|i: int| 0 <= i < n && (#[trigger] o.orders[i]).1 == x,
    decreases n,
{
    let all = o.listed(n);
    assert(forall|i: int| 0 <= i < n ==> #[trigger] o.orders[i].1 == all[i]);
    assert(forall|i: int| 0 <= i < n ==> o.orders[i].1 == #[trigger] all[i]);
    if n > 0 {
        law_active_orders(o, n - 1, x);
        let before = o.active(n - 1);
        let after = o.active(n);
        let last = o.orders[n - 1].1;
        if last.status.active() {
            assert(after[before.len() as int] == last);
            if before.contains(x) {
                let i = choose|i: int| 0 <= i < before.len() && before[i] == x;
                assert(after[i] == x);
            }
            if after.contains(x) && x != last {
                let i = choose|i: int| 0 <= i < after.len() && after[i] == x;
                assert(before[i] == x);
            }
        }
    }
}

/// The time in a client order id is that of the clock up to whole multiples of
/// ten digits, with its sign.
pub proof fn law_short_time_keeps_ten_digits(now: TimestampMs)
    ensures
        (now - short_time(now)) % 10_000_000_000 == 0,
        -10_000_000_000 < short_time(now) < 10_000_000_000,
        now >= 0 ==> short_time(now) >= 0,
        now < 0 ==> short_time(now) <= 0,
{
}

/// The shortened id is the end of the id: all of it where it has at most six
/// bytes, else its last six.
pub proof fn law_shortened_is_the_end(s: Seq<char>)
    requires
        can_shorten(s),
    ensures
        exists|head: Seq<char>| s == #[trigger] (head + shortened(s)),
        encode_utf8(s).len() <= 6 ==> encode_utf8(shortened(s)) == encode_utf8(s),
        encode_utf8(s).len() > 6 ==> encode_utf8(shortened(s)).len() == 6,
{
    let bytes = encode_utf8(s);
    let start = short_start(bytes);
    vstd::utf8::encode_utf8_valid_utf8(s);
    vstd::utf8::encode_utf8_decode_utf8(s);
    vstd::utf8::valid_utf8_split(bytes, start);
    vstd::utf8::decode_utf8_split(bytes, start);
    let tail = bytes.subrange(start, bytes.len() as int);
    vstd::utf8::decode_utf8_encode_utf8(tail);
    let head = decode_utf8(bytes.subrange(0, start));
    assert(s == head + shortened(s));
    if bytes.len() <= 6 {
        assert(tail =~= bytes);
    }
}

/// A client order id starts with a letter and the time and ends with the
/// shortened instance id and four more digits.
pub proof fn law_client_order_id_parts(instance: Seq<char>, now: TimestampMs, nanos: u32)
    ensures
        ({
            let id = client_order_id(instance, now, nanos);
            let time = text::int_text(short_time(now));
            let short = shortened(instance);
            &&& id.len() == 1 + time.len() + short.len() + 4
            &&& id[0] == 't'
            &&& id.subrange(1, 1 + time.len() as int) == time
            &&& id.subrange(1 + time.len() as int, 1 + time.len() as int + short.len() as int) == short
        }),
{
    let id = client_order_id(instance, now, nanos);
    let time = text::int_text(short_time(now));
    let short = shortened(instance);
    reveal_strlit("t");
    text::lemma_hex_text_len((nanos % 0xffff) as nat, 4);
    assert(id.subrange(1, 1 + time.len() as int) =~= time);
    assert(id.subrange(1 + time.len() as int, 1 + time.len() as int + short.len() as int) =~= short);
}

} // verus!

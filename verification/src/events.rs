//! Domain events and the in-process event bus.

use std::sync::Arc;
use tokio::sync::broadcast;
use vstd::arithmetic::power2::*;
use vstd::prelude::*;
use vstd::string::*;

use crate::decimal::{Decimal, DecimalView};
use crate::domain::{Fill, InstrumentId, Order, OrderIntent};
use crate::error::{ErrorView, Result, TuxError};
use crate::ids::{now_ms, EventSeq, MarketContext, TimestampMs};
use crate::ids;

verus! {

/// An event with its place in the sequence.
#[derive(Debug)]
pub struct EventEnvelope<T> {
    pub seq: EventSeq,
    pub context: MarketContext,
    pub produced_at: TimestampMs,
    pub payload: T,
}

impl<T> EventEnvelope<T> {
    /// Wraps `payload`, stamped with the time now.
    pub fn new(seq: EventSeq, context: MarketContext, payload: T) -> (r: Self)
        ensures
            r.seq == seq,
            r.context == context,
            r.payload == payload,
            ids::clock_gives(r.produced_at),
    {
        EventEnvelope::new_at(seq, context, payload, now_ms())
    }

    /// Wraps `payload`, stamped with `now`.
    pub fn new_at(seq: EventSeq, context: MarketContext, payload: T, now: TimestampMs) -> (r: Self)
        ensures
            r == (EventEnvelope { seq, context, produced_at: now, payload }),
    {
        EventEnvelope { seq, context, produced_at: now, payload }
    }
}

#[derive(Debug)]
pub struct BookTicker {
    pub instrument_id: InstrumentId,
    pub bid_price: Decimal,
    pub bid_qty: Decimal,
    pub ask_price: Decimal,
    pub ask_qty: Decimal,
    pub occurred_at: TimestampMs,
}

/// What a [`BookTicker`] holds.
#[verifier::ext_equal]
pub struct TickerView {
    pub instrument_id: Seq<char>,
    pub bid_price: DecimalView,
    pub bid_qty: DecimalView,
    pub ask_price: DecimalView,
    pub ask_qty: DecimalView,
    pub occurred_at: TimestampMs,
}

impl View for BookTicker {
    type V = TickerView;

    open spec fn view(&self) -> TickerView {
        TickerView {
            instrument_id: self.instrument_id@,
            bid_price: self.bid_price@,
            bid_qty: self.bid_qty@,
            ask_price: self.ask_price@,
            ask_qty: self.ask_qty@,
            occurred_at: self.occurred_at,
        }
    }
}

impl Clone for BookTicker {
    fn clone(&self) -> (r: Self)
        ensures
            r == *self,
    {
        BookTicker {
            instrument_id: self.instrument_id.clone(),
            bid_price: self.bid_price,
            bid_qty: self.bid_qty,
            ask_price: self.ask_price,
            ask_qty: self.ask_qty,
            occurred_at: self.occurred_at,
        }
    }
}

#[derive(Debug)]
pub struct TradeTick {
    pub instrument_id: InstrumentId,
    pub price: Decimal,
    pub qty: Decimal,
    pub is_buyer_maker: bool,
    pub occurred_at: TimestampMs,
}

/// What a [`TradeTick`] holds.
#[verifier::ext_equal]
pub struct TradeView {
    pub instrument_id: Seq<char>,
    pub price: DecimalView,
    pub qty: DecimalView,
    pub is_buyer_maker: bool,
    pub occurred_at: TimestampMs,
}

impl View for TradeTick {
    type V = TradeView;

    open spec fn view(&self) -> TradeView {
        TradeView {
            instrument_id: self.instrument_id@,
            price: self.price@,
            qty: self.qty@,
            is_buyer_maker: self.is_buyer_maker,
            occurred_at: self.occurred_at,
        }
    }
}

impl Clone for TradeTick {
    fn clone(&self) -> (r: Self)
        ensures
            r == *self,
    {
        TradeTick {
            instrument_id: self.instrument_id.clone(),
            price: self.price,
            qty: self.qty,
            is_buyer_maker: self.is_buyer_maker,
            occurred_at: self.occurred_at,
        }
    }
}

#[derive(Debug)]
pub enum MarketEvent {
    BookTicker(BookTicker),
    Trade(TradeTick),
}

#[derive(Debug)]
pub enum BusEvent {
    Market(MarketEvent),
    Intent(OrderIntent),
    OrderUpdate(Order),
    Fill(Fill),
    Halt { reason: String, at: TimestampMs },
}

impl Clone for MarketEvent {
    fn clone(&self) -> (r: Self)
        ensures
            r == *self,
    {
        match self {
            MarketEvent::BookTicker(t) => MarketEvent::BookTicker(t.clone()),
            MarketEvent::Trade(t) => MarketEvent::Trade(t.clone()),
        }
    }
}

impl Clone for BusEvent {
    fn clone(&self) -> (r: Self)
        ensures
            r == *self,
    {
        match self {
            BusEvent::Market(e) => BusEvent::Market(e.clone()),
            BusEvent::Intent(i) => BusEvent::Intent(i.clone()),
            BusEvent::OrderUpdate(o) => BusEvent::OrderUpdate(o.clone()),
            BusEvent::Fill(f) => BusEvent::Fill(f.clone()),
            BusEvent::Halt { reason, at } => BusEvent::Halt { reason: reason.clone(), at: *at },
        }
    }
}

/// The sending half of a tokio broadcast channel.
#[verifier::external_type_specification]
#[verifier::external_body]
#[verifier::reject_recursive_types(T)]
pub struct ExSender<T>(broadcast::Sender<T>);

/// The receiving half of a tokio broadcast channel.
#[verifier::external_type_specification]
#[verifier::external_body]
#[verifier::reject_recursive_types(T)]
pub struct ExReceiver<T>(broadcast::Receiver<T>);

/// How many events a slow subscriber may be behind.
pub const BUS_CAPACITY: usize = 1024;

/// How many of the latest events a channel keeps for a receiver that is behind.
/// It is fixed when the channel is made.
pub uninterp spec fn kept_events(tx: broadcast::Sender<BusEvent>) -> nat;

/// Whether a receiver is one of the sender's channel: what is sent after it was
/// made is there for it to read. A receiver never changes its channel.
pub uninterp spec fn feeds(
    tx: broadcast::Sender<BusEvent>,
    rx: broadcast::Receiver<BusEvent>,
) -> bool;

/// Calls `tokio::sync::broadcast::channel` and drops the first receiver. The
/// channel keeps `capacity` events, rounded up to the next power of two.
/// Nothing is said of who listens: that changes behind the sender.
#[verifier::external_body]
fn open_channel(capacity: usize) -> (r: broadcast::Sender<BusEvent>)
    requires
        0 < capacity <= usize::MAX / 2,
    ensures
        capacity <= kept_events(r) < 2 * capacity,
        exists|e: nat| kept_events(r) == #[trigger] pow2(e),
{
    broadcast::channel(capacity).0
}

/// Calls `tokio::sync::broadcast::Sender::subscribe`: a receiver of the sender's
/// channel. Nothing is said of the events that it will read: they depend on what
/// is sent later. The number of receivers at which the call would panic, a
/// quarter of all that a `usize` counts, does not fit into memory.
#[verifier::external_body]
fn add_receiver(tx: &broadcast::Sender<BusEvent>) -> (r: broadcast::Receiver<BusEvent>)
    ensures
        feeds(*tx, r),
{
    tx.subscribe()
}

/// Whether the channel may give this answer when the event is sent with `tx`:
/// the number of receivers it had then, or nothing when it had none.
pub uninterp spec fn may_send(
    tx: broadcast::Sender<BusEvent>,
    event: BusEvent,
    answer: Option<usize>,
) -> bool;

/// Whether the channel of `tx` may say, when asked, that it has `n` receivers.
pub uninterp spec fn may_count(tx: broadcast::Sender<BusEvent>, n: usize) -> bool;

/// Calls `tokio::sync::broadcast::Sender::send`: the number of receivers at the
/// time of the call, at least one, or nothing when there is none. Which of these
/// it is depends on the receivers that have come and gone, and is not said: only
/// that it is an answer of this channel to this event.
#[verifier::external_body]
fn send_event(tx: &broadcast::Sender<BusEvent>, event: BusEvent) -> (r: Option<usize>)
    ensures
        may_send(*tx, event, r),
        r matches Some(n) ==> n >= 1,
{
    match tx.send(event) {
        Ok(n) => Some(n),
        Err(_) => None,
    }
}

/// Calls `<tokio::sync::broadcast::Sender as Clone>::clone`: another handle of
/// the same channel, which does all that the first one does.
#[verifier::external_body]
fn share_channel(tx: &broadcast::Sender<BusEvent>) -> (r: broadcast::Sender<BusEvent>)
    ensures
        r == *tx,
{
    tx.clone()
}

/// Calls `tokio::sync::broadcast::Sender::receiver_count`: at most a quarter of
/// all that a `usize` counts, the most receivers that a channel takes. The number
/// changes with every receiver that comes and goes: only that it is a count of
/// this channel is said.
#[verifier::external_body]
fn count_receivers(tx: &broadcast::Sender<BusEvent>) -> (r: usize)
    ensures
        may_count(*tx, r),
        r <= usize::MAX / 4,
{
    tx.receiver_count()
}

/// Why an event was not delivered.
pub open spec fn nobody_listens() -> ErrorView {
    ErrorView::Other("event bus has no active subscribers; event not delivered"@)
}

/// What a publisher is told: how many got the event, or that nobody did.
pub fn delivery(sent: Option<usize>) -> (r: Result<usize>)
    ensures
        match sent {
            Some(n) => r == Ok::<usize, TuxError>(n),
            None => r matches Err(e) && e@ == nobody_listens(),
        },
{
    match sent {
        Some(n) => Ok(n),
        None => Err(
            TuxError::other("event bus has no active subscribers; event not delivered"),
        ),
    }
}

/// Working in-process bus (broadcast). Nothing is silently dropped: every event
/// is handed to the channel, and a publisher is told when nobody listens.
pub struct InMemoryEventBus {
    tx: broadcast::Sender<BusEvent>,
}

impl Clone for InMemoryEventBus {
    /// Another handle of the same bus.
    fn clone(&self) -> (r: Self)
        ensures
            r == *self,
    {
        InMemoryEventBus { tx: share_channel(&self.tx) }
    }
}

impl InMemoryEventBus {
    /// How many of the latest events the bus keeps for a slow subscriber.
    pub closed spec fn keeps(&self) -> nat {
        kept_events(self.tx)
    }

    /// Whether what is published on the bus goes to the subscriber.
    pub closed spec fn reaches(&self, rx: broadcast::Receiver<BusEvent>) -> bool {
        feeds(self.tx, rx)
    }

    /// Whether the bus may give this answer when the event is handed to it.
    pub closed spec fn may_deliver(&self, event: BusEvent, answer: Option<usize>) -> bool {
        may_send(self.tx, event, answer)
    }

    /// Whether the bus may say that it has `n` subscribers.
    pub closed spec fn may_have(&self, n: usize) -> bool {
        may_count(self.tx, n)
    }

    pub fn new() -> (r: Self)
        ensures
            r.keeps() == BUS_CAPACITY,
    {
        let tx = open_channel(BUS_CAPACITY);
        proof {
            lemma_only_power(kept_events(tx));
        }
        InMemoryEventBus { tx }
    }

    /// A subscriber to what is published from now on.
    pub fn subscribe(&self) -> (r: broadcast::Receiver<BusEvent>)
        ensures
            self.reaches(r),
    {
        add_receiver(&self.tx)
    }

    /// Hands the event to all subscribers, and says how many there were. Whether
    /// any are left at that time is not up to the bus.
    pub fn publish(&self, event: BusEvent) -> (r: Result<usize>)
        ensures
            match r {
                Ok(n) => n >= 1 && self.may_deliver(event, Some(n)),
                Err(e) => e@ == nobody_listens() && self.may_deliver(event, None),
            },
    {
        delivery(send_event(&self.tx, event))
    }

    /// Hands the event to the subscribers that there are.
    pub fn publish_ignore_lag(&self, event: BusEvent)
        ensures
            exists|answer: Option<usize>| #[trigger] self.may_deliver(event, answer),
    {
        let answer = send_event(&self.tx, event);
        assert(self.may_deliver(event, answer));
    }

    /// How many subscribers there are at the time of the call.
    pub fn receiver_count(&self) -> (r: usize)
        ensures
            self.may_have(r),
            r <= usize::MAX / 4,
    {
        count_receivers(&self.tx)
    }
}

/// No power of two but the capacity itself lies between it and its double.
proof fn lemma_only_power(n: nat)
    requires
        BUS_CAPACITY <= n < 2 * BUS_CAPACITY,
        exists|e: nat| n == #[trigger] pow2(e),
    ensures
        n == BUS_CAPACITY,
{
    let e = choose|e: nat| n == #[trigger] pow2(e);
    lemma2_to64();
    if e < 10 {
        lemma_pow2_strictly_increases(e, 10);
    } else if e > 11 {
        lemma_pow2_strictly_increases(11, e);
    }
}

impl Default for InMemoryEventBus {
    fn default() -> (r: Self)
        ensures
            r.keeps() == BUS_CAPACITY,
    {
        InMemoryEventBus::new()
    }
}

pub type SharedBus = Arc<InMemoryEventBus>;

} // verus!

//! Latest top-of-book / trade state for risk and paper matching.

use vstd::prelude::*;
use vstd::string::*;

use crate::decimal::{Decimal, DecimalView};
use crate::decimal;
use crate::domain::InstrumentId;
use crate::events::{BookTicker, TickerView, TradeTick, TradeView};
use crate::ids::{now_ms, TimestampMs, CLOCK_RANGE_MS};
use crate::ids;
use crate::table::Table;
use crate::table;
use crate::views;

verus! {

/// The best bid and the best ask.
#[derive(Debug, PartialEq, Eq)]
pub struct BookTop {
    pub bid_price: Decimal,
    pub bid_qty: Decimal,
    pub ask_price: Decimal,
    pub ask_qty: Decimal,
    pub at: TimestampMs,
}

/// What a [`BookTop`] holds.
#[verifier::ext_equal]
pub struct TopView {
    pub bid_price: DecimalView,
    pub bid_qty: DecimalView,
    pub ask_price: DecimalView,
    pub ask_qty: DecimalView,
    pub at: TimestampMs,
}

impl View for BookTop {
    type V = TopView;

    open spec fn view(&self) -> TopView {
        TopView {
            bid_price: self.bid_price@,
            bid_qty: self.bid_qty@,
            ask_price: self.ask_price@,
            ask_qty: self.ask_qty@,
            at: self.at,
        }
    }
}

impl Clone for BookTop {
    fn clone(&self) -> (r: Self)
        ensures
            r == *self,
    {
        BookTop {
            bid_price: self.bid_price,
            bid_qty: self.bid_qty,
            ask_price: self.ask_price,
            ask_qty: self.ask_qty,
            at: self.at,
        }
    }
}

impl TopView {
    /// The middle between bid and ask, if both are positive; the outer option
    /// says whether it is in range.
    pub open spec fn mid(self) -> Option<Option<DecimalView>> {
        if !self.bid_price.positive() || !self.ask_price.positive() {
            Some(None)
        } else {
            match self.bid_price.plus(self.ask_price) {
                None => None,
                Some(s) => match s.over(DecimalView::of(2, 0)) {
                    None => None,
                    Some(m) => Some(Some(m)),
                },
            }
        }
    }

    /// Milliseconds since the quote, none for a quote from the future.
    pub open spec fn age(self, now: TimestampMs) -> int {
        if now >= self.at {
            now - self.at
        } else {
            0
        }
    }
}

impl BookTop {
    pub fn try_mid(&self) -> (r: Option<Option<Decimal>>)
        ensures
            match r {
                None => self@.mid() is None,
                Some(m) => self@.mid() == Some(views::opt_view(m)),
            },
    {
        proof {
            decimal::lemma_sign_of_units(self.bid_price@);
            decimal::lemma_sign_of_units(self.ask_price@);
        }
        if self.bid_price <= Decimal::zero() || self.ask_price <= Decimal::zero() {
            return Some(None);
        }
        let sum = self.bid_price.checked_add(self.ask_price)?;
        let mid = sum.checked_div(Decimal::two())?;
        Some(Some(mid))
    }

    pub fn mid(&self) -> (r: Option<Decimal>)
        requires
            self@.mid() is Some,
        ensures
            self@.mid() == Some(views::opt_view(r)),
    {
        self.try_mid().unwrap()
    }

    pub fn age_ms(&self, now: TimestampMs) -> (r: u64)
        requires
            i64::MIN <= now - self.at <= i64::MAX,
        ensures
            r == self@.age(now),
    {
        let age: i64 = now - self.at;
        if age > 0 {
            age as u64
        } else {
            0
        }
    }
}

/// The mid is half way between bid and ask. Stated where their sum needs no
/// rounding and has room for one more decimal place.
pub proof fn law_mid_is_half_way(t: TopView)
    requires
        t.bid_price.wf(),
        t.ask_price.wf(),
        t.bid_price.positive(),
        t.ask_price.positive(),
        t.bid_price.adds_exactly(t.ask_price),
        t.bid_price.exact_sum(t.ask_price).scale < decimal::MAX_SCALE,
        decimal::fits(5 * t.bid_price.exact_sum(t.ask_price).mantissa),
    ensures
        t.mid() matches Some(Some(m)) && 2 * m.units() == t.bid_price.units()
            + t.ask_price.units(),
{
    decimal::lemma_exact_sum(t.bid_price, t.ask_price);
    decimal::law_half_is_exact(t.bid_price.exact_sum(t.ask_price));
}

/// Latest quotes and trades by instrument.
pub struct MarketState {
    tops: Table<BookTop>,
    last_trade: Table<TradeTick>,
}

/// What a [`MarketState`] holds.
pub struct MarketView {
    pub tops: Seq<(Seq<char>, TopView)>,
    pub last_trade: Seq<(Seq<char>, TradeView)>,
}

impl View for MarketState {
    type V = MarketView;

    closed spec fn view(&self) -> MarketView {
        MarketView { tops: self.tops@, last_trade: self.last_trade@ }
    }
}

impl MarketView {
    pub open spec fn nothing() -> MarketView {
        MarketView { tops: Seq::empty(), last_trade: Seq::empty() }
    }

    pub open spec fn top(self, id: Seq<char>) -> Option<TopView> {
        table::lookup(self.tops, id)
    }

    pub open spec fn mid(self, id: Seq<char>) -> Option<Option<DecimalView>> {
        match self.top(id) {
            None => Some(None),
            Some(t) => t.mid(),
        }
    }

    pub open spec fn last_price(self, id: Seq<char>) -> Option<DecimalView> {
        match table::lookup(self.last_trade, id) {
            None => None,
            Some(t) => Some(t.price),
        }
    }

    /// The mid, or the last trade when there is no mid; the outer option says
    /// whether the mid is in range.
    pub open spec fn reference(self, id: Seq<char>) -> Option<Option<DecimalView>> {
        match self.mid(id) {
            None => None,
            Some(Some(m)) => Some(Some(m)),
            Some(None) => Some(self.last_price(id)),
        }
    }

    /// How old the quote is at `now`.
    pub open spec fn age(self, id: Seq<char>, now: TimestampMs) -> Option<int> {
        match self.top(id) {
            None => None,
            Some(t) => Some(t.age(now)),
        }
    }

    /// Whether there is no quote, or one older than `max_age_ms`.
    pub open spec fn stale(self, id: Seq<char>, max_age_ms: u64, now: TimestampMs) -> bool {
        match self.age(id, now) {
            None => true,
            Some(age) => age > max_age_ms,
        }
    }

    /// Whether the time since the quote can be counted at every time that the
    /// clock can give.
    pub open spec fn age_countable(self, id: Seq<char>) -> bool {
        self.top(id) matches Some(t) ==> CLOCK_RANGE_MS - i64::MAX <= t.at <= i64::MAX
            - CLOCK_RANGE_MS
    }

    pub open spec fn with_ticker(self, t: TickerView) -> MarketView {
        MarketView {
            tops: table::put(
                self.tops,
                t.instrument_id,
                TopView {
                    bid_price: t.bid_price,
                    bid_qty: t.bid_qty,
                    ask_price: t.ask_price,
                    ask_qty: t.ask_qty,
                    at: t.occurred_at,
                },
            ),
            ..self
        }
    }

    pub open spec fn with_trade(self, t: TradeView) -> MarketView {
        MarketView { last_trade: table::put(self.last_trade, t.instrument_id, t), ..self }
    }
}

impl MarketState {
    pub fn new() -> (r: Self)
        ensures
            r@ == MarketView::nothing(),
    {
        MarketState { tops: Table::new(), last_trade: Table::new() }
    }

    pub fn on_book_ticker(&mut self, t: &BookTicker)
        ensures
            final(self)@ == old(self)@.with_ticker(t@),
    {
        let top = BookTop {
            bid_price: t.bid_price,
            bid_qty: t.bid_qty,
            ask_price: t.ask_price,
            ask_qty: t.ask_qty,
            at: t.occurred_at,
        };
        self.tops.insert(t.instrument_id.as_str().to_owned(), top);
    }

    pub fn on_trade(&mut self, t: &TradeTick)
        ensures
            final(self)@ == old(self)@.with_trade(t@),
    {
        self.last_trade.insert(t.instrument_id.as_str().to_owned(), t.clone());
    }

    pub fn top(&self, id: &InstrumentId) -> (r: Option<&BookTop>)
        ensures
            match r {
                Some(t) => self@.top(id@) == Some(t@),
                None => self@.top(id@) is None,
            },
    {
        self.tops.get(id.as_str())
    }

    pub fn try_mid(&self, id: &InstrumentId) -> (r: Option<Option<Decimal>>)
        ensures
            match r {
                None => self@.mid(id@) is None,
                Some(m) => self@.mid(id@) == Some(views::opt_view(m)),
            },
    {
        match self.top(id) {
            Some(t) => t.try_mid(),
            None => Some(None),
        }
    }

    pub fn mid(&self, id: &InstrumentId) -> (r: Option<Decimal>)
        requires
            self@.mid(id@) is Some,
        ensures
            self@.mid(id@) == Some(views::opt_view(r)),
    {
        self.try_mid(id).unwrap()
    }

    pub fn last_price(&self, id: &InstrumentId) -> (r: Option<Decimal>)
        ensures
            views::opt_view(r) == self@.last_price(id@),
    {
        match self.last_trade.get(id.as_str()) {
            Some(t) => Some(t.price),
            None => None,
        }
    }

    pub fn try_reference_price(&self, id: &InstrumentId) -> (r: Option<Option<Decimal>>)
        ensures
            match r {
                None => self@.reference(id@) is None,
                Some(p) => self@.reference(id@) == Some(views::opt_view(p)),
            },
    {
        match self.try_mid(id)? {
            Some(m) => Some(Some(m)),
            None => Some(self.last_price(id)),
        }
    }

    /// Mid, else last trade — used for market-order notional estimation.
    pub fn reference_price(&self, id: &InstrumentId) -> (r: Option<Decimal>)
        requires
            self@.reference(id@) is Some,
        ensures
            self@.reference(id@) == Some(views::opt_view(r)),
    {
        self.try_reference_price(id).unwrap()
    }

    /// How old the quote is at `now`.
    pub fn age_ms_at(&self, id: &InstrumentId, now: TimestampMs) -> (r: Option<u64>)
        requires
            self@.top(id@) matches Some(t) ==> i64::MIN <= now - t.at <= i64::MAX,
        ensures
            match r {
                Some(age) => self@.age(id@, now) == Some(age as int),
                None => self@.age(id@, now) is None,
            },
    {
        match self.top(id) {
            Some(t) => Some(t.age_ms(now)),
            None => None,
        }
    }

    pub fn age_ms(&self, id: &InstrumentId) -> (r: Option<u64>)
        requires
            self@.age_countable(id@),
        ensures
            exists|now: TimestampMs|
                ids::clock_gives(now) && (#[trigger] self@.age(id@, now)) == match r {
                    Some(age) => Some(age as int),
                    None => None::<int>,
                },
    {
        let now = now_ms();
        let r = self.age_ms_at(id, now);
        assert(self@.age(id@, now) == match r {
            Some(age) => Some(age as int),
            None => None::<int>,
        });
        r
    }

    /// Whether the quote is missing or older than `max_age_ms` at `now`.
    pub fn is_stale_at(&self, id: &InstrumentId, max_age_ms: u64, now: TimestampMs) -> (r: bool)
        requires
            self@.top(id@) matches Some(t) ==> i64::MIN <= now - t.at <= i64::MAX,
        ensures
            r == self@.stale(id@, max_age_ms, now),
    {
        match self.age_ms_at(id, now) {
            Some(age) => age > max_age_ms,
            None => true,
        }
    }

    pub fn is_stale(&self, id: &InstrumentId, max_age_ms: u64) -> (r: bool)
        requires
            self@.age_countable(id@),
        ensures
            exists|now: TimestampMs|
                ids::clock_gives(now) && r == #[trigger] self@.stale(id@, max_age_ms, now),
            self@.top(id@) is None ==> r,
    {
        let now = now_ms();
        self.is_stale_at(id, max_age_ms, now)
    }
}

impl Default for MarketState {
    fn default() -> (r: Self)
        ensures
            r@ == MarketView::nothing(),
    {
        MarketState::new()
    }
}

/// The last quote of an instrument is the one that counts, and quotes of other
/// instruments do not touch it.
pub proof fn law_latest_quote(m: MarketView, t: TickerView, other: Seq<char>)
    ensures
        m.with_ticker(t).top(t.instrument_id) == Some(
            TopView {
                bid_price: t.bid_price,
                bid_qty: t.bid_qty,
                ask_price: t.ask_price,
                ask_qty: t.ask_qty,
                at: t.occurred_at,
            },
        ),
        other != t.instrument_id ==> m.with_ticker(t).top(other) == m.top(other),
{
    let top = TopView {
        bid_price: t.bid_price,
        bid_qty: t.bid_qty,
        ask_price: t.ask_price,
        ask_qty: t.ask_qty,
        at: t.occurred_at,
    };
    table::law_put(m.tops, t.instrument_id, top, other);
}

/// The last trade of an instrument is the one that counts.
pub proof fn law_latest_trade(m: MarketView, t: TradeView, other: Seq<char>)
    ensures
        m.with_trade(t).last_price(t.instrument_id) == Some(t.price),
        other != t.instrument_id ==> m.with_trade(t).last_price(other) == m.last_price(other),
{
    table::law_put(m.last_trade, t.instrument_id, t, other);
}

/// A quote only grows older, so that a stale one stays stale.
pub proof fn law_stale_stays_stale(
    m: MarketView,
    id: Seq<char>,
    max_age_ms: u64,
    now: TimestampMs,
    later: TimestampMs,
)
    requires
        m.stale(id, max_age_ms, now),
        now <= later,
    ensures
        m.stale(id, max_age_ms, later),
{
}

/// The price that counts is the mid where both sides are quoted, else the price
/// of the last trade, else none.
pub proof fn law_reference_is_mid_or_last_trade(m: MarketView, id: Seq<char>)
    ensures
        ({
            let quoted = table::lookup(m.tops, id) matches Some(t) && t.bid_price.units() > 0
                && t.ask_price.units() > 0;
            &&& quoted ==> m.reference(id) == (table::lookup(m.tops, id)->0).mid() && m.mid(id)
                == m.reference(id) && m.reference(id) != Some(None::<DecimalView>)
            &&& !quoted ==> m.mid(id) == Some(None::<DecimalView>) && match table::lookup(
                m.last_trade,
                id,
            ) {
                Some(t) => m.reference(id) == Some(Some(t.price)),
                None => m.reference(id) == Some(None::<DecimalView>),
            }
        }),
{
    if let Some(t) = table::lookup(m.tops, id) {
        decimal::lemma_sign_of_units(t.bid_price);
        decimal::lemma_sign_of_units(t.ask_price);
    }
}

/// A market is stale exactly when it has no quote or when more time than allowed
/// has passed since its quote; a quote from the future has no age.
pub proof fn law_stale_is_old(m: MarketView, id: Seq<char>, max_age_ms: u64, now: TimestampMs)
    ensures
        match table::lookup(m.tops, id) {
            None => m.stale(id, max_age_ms, now) && m.age(id, now) is None,
            Some(t) => {
                &&& m.stale(id, max_age_ms, now) <==> now - t.at > max_age_ms
                &&& t.at <= now ==> m.age(id, now) == Some(now - t.at)
                &&& now < t.at ==> m.age(id, now) == Some(0int)
            },
        },
{
}

/// A quote leaves the trades as they are, and a trade leaves the quotes.
pub proof fn law_quotes_and_trades_are_apart(m: MarketView, q: TickerView, t: TradeView)
    ensures
        m.with_ticker(q).last_trade == m.last_trade,
        m.with_trade(t).tops == m.tops,
        table::lookup(m.with_trade(t).last_trade, t.instrument_id) == Some(t),
{
    table::law_put(m.last_trade, t.instrument_id, t, t.instrument_id);
}

} // verus!

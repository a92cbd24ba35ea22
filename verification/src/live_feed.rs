//! Binance public market data (no API key).
//!
//! Used for Local Paper book + dashboard price trend so Mid matches live market.

use vstd::prelude::*;
use vstd::string::*;

use crate::decimal::{try_round_to_step, Decimal, DecimalView};
use crate::decimal;
use crate::domain::Fill;
use crate::events::{BookTicker as CoreBookTicker, TickerView};
use crate::ids::TimestampMs;
use crate::market::{BookTop, TopView};
use crate::runtime::{RuntimeState, RuntimeView};
use crate::sim;
use crate::text::join2;
use crate::views;

verus! {

/// A book ticker as the venue sends it.
#[derive(Debug, Clone)]
pub struct BookTicker {
    pub symbol: String,
    pub bid_price: String,
    pub bid_qty: String,
    pub ask_price: String,
    pub ask_qty: String,
}

/// The best bid and ask of the live market, on the tick grid.
#[derive(Debug)]
pub struct LiveBook {
    pub bid: Decimal,
    pub bid_qty: Decimal,
    pub ask: Decimal,
    pub ask_qty: Decimal,
}

/// What a [`LiveBook`] holds.
#[verifier::ext_equal]
pub struct LiveBookView {
    pub bid: DecimalView,
    pub bid_qty: DecimalView,
    pub ask: DecimalView,
    pub ask_qty: DecimalView,
}

impl View for LiveBook {
    type V = LiveBookView;

    open spec fn view(&self) -> LiveBookView {
        LiveBookView {
            bid: self.bid@,
            bid_qty: self.bid_qty@,
            ask: self.ask@,
            ask_qty: self.ask_qty@,
        }
    }
}

impl Clone for LiveBook {
    fn clone(&self) -> (r: Self)
        ensures
            r == *self,
    {
        LiveBook {
            bid: self.bid,
            bid_qty: self.bid_qty,
            ask: self.ask,
            ask_qty: self.ask_qty,
        }
    }
}

impl LiveBookView {
    /// The middle between bid and ask; nothing when it is out of range.
    pub open spec fn mid(self) -> Option<DecimalView> {
        match self.bid.plus(self.ask) {
            None => None,
            Some(s) => s.over(DecimalView::of(2, 0)),
        }
    }

    /// The quote at a time.
    pub open spec fn top(self, at: TimestampMs) -> TopView {
        TopView {
            bid_price: self.bid,
            bid_qty: self.bid_qty,
            ask_price: self.ask,
            ask_qty: self.ask_qty,
            at,
        }
    }

    /// The quote of an instrument at a time, as an event.
    pub open spec fn ticker(self, instrument: Seq<char>, at: TimestampMs) -> TickerView {
        TickerView {
            instrument_id: instrument,
            bid_price: self.bid,
            bid_qty: self.bid_qty,
            ask_price: self.ask,
            ask_qty: self.ask_qty,
            occurred_at: at,
        }
    }
}

impl LiveBook {
    pub fn try_mid(&self) -> (r: Option<Decimal>)
        ensures
            views::opt_view(r) == self@.mid(),
    {
        let sum = self.bid.checked_add(self.ask)?;
        sum.checked_div(Decimal::two())
    }

    pub fn mid(&self) -> (r: Decimal)
        requires
            self@.mid() is Some,
        ensures
            self@.mid() == Some(r@),
    {
        self.try_mid().unwrap()
    }

    /// The quote at a time.
    pub fn top(&self, at: TimestampMs) -> (r: BookTop)
        ensures
            r@ == self@.top(at),
    {
        BookTop {
            bid_price: self.bid,
            bid_qty: self.bid_qty,
            ask_price: self.ask,
            ask_qty: self.ask_qty,
            at,
        }
    }

    /// The quote of an instrument at a time, as an event.
    pub fn ticker(
        &self,
        instrument: &crate::domain::InstrumentId,
        at: TimestampMs,
    ) -> (r: CoreBookTicker)
        ensures
            r@ == self@.ticker(instrument@, at),
    {
        CoreBookTicker {
            instrument_id: instrument.clone(),
            bid_price: self.bid,
            bid_qty: self.bid_qty,
            ask_price: self.ask,
            ask_qty: self.ask_qty,
            occurred_at: at,
        }
    }
}

/// The tick that live prices are aligned to.
pub open spec fn tick() -> DecimalView {
    DecimalView::of(1, 2)
}

/// What a venue's ticker comes to once its numbers are known; nothing when a
/// number on the way is out of range.
pub open spec fn aligned_book(
    bid: DecimalView,
    bid_qty: DecimalView,
    ask: DecimalView,
    ask_qty: DecimalView,
) -> Option<core::result::Result<LiveBookView, Seq<char>>> {
    if !bid.positive() || !ask.positive() {
        Some(Err("empty book from binance"@))
    } else {
        match (decimal::step_multiple(bid, tick()), decimal::step_multiple(ask, tick())) {
            (Some(b), Some(a)) => match b.plus(tick()) {
                None => None,
                Some(above) => Some(
                    Ok(LiveBookView { bid: b, bid_qty, ask: a.larger(above), ask_qty }),
                ),
            },
            _ => None,
        }
    }
}

/// The number of a text, or one where the text is no number.
pub open spec fn number_or_one(s: Seq<char>) -> DecimalView {
    match decimal::parsed_decimal(s) {
        Some(d) => d,
        None => DecimalView::of(1, 0),
    }
}

/// What a venue's ticker comes to; nothing when a number on the way is out of
/// range.
pub open spec fn read_ticker(
    bid: Seq<char>,
    bid_qty: Seq<char>,
    ask: Seq<char>,
    ask_qty: Seq<char>,
) -> Option<core::result::Result<LiveBookView, Seq<char>>> {
    match (decimal::parsed_decimal(bid), decimal::parsed_decimal(ask)) {
        (None, _) => Some(Err("bad bid"@)),
        (Some(_), None) => Some(Err("bad ask"@)),
        (Some(b), Some(a)) => aligned_book(
            b,
            number_or_one(bid_qty),
            a,
            number_or_one(ask_qty),
        ),
    }
}

/// A price on the tick grid.
fn round_tick(px: Decimal) -> (r: Option<Decimal>)
    ensures
        views::opt_view(r) == decimal::step_multiple(px@, tick()),
{
    match try_round_to_step(px, Decimal::new(1, 2))? {
        Some(p) => Some(p),
        None => Some(px),
    }
}

/// A book from known numbers, on the tick grid and not crossed; `None` when a
/// number on the way is out of range.
pub fn try_align_book(
    bid: Decimal,
    bid_qty: Decimal,
    ask: Decimal,
    ask_qty: Decimal,
) -> (r: Option<core::result::Result<LiveBook, String>>)
    ensures
        match aligned_book(bid@, bid_qty@, ask@, ask_qty@) {
            None => r is None,
            Some(Err(e)) => r matches Some(Err(x)) && x@ == e,
            Some(Ok(b)) => r matches Some(Ok(x)) && x@ == b,
        },
{
    proof {
        decimal::lemma_sign_of_units(bid@);
        decimal::lemma_sign_of_units(ask@);
    }
    if bid <= Decimal::zero() || ask <= Decimal::zero() {
        return Some(Err("empty book from binance".to_owned()));
    }
    // Align to 0.01 tick so Local Paper limit prices validate.
    let bid = round_tick(bid)?;
    let ask = round_tick(ask)?;
    let above = bid.checked_add(Decimal::new(1, 2))?;
    Some(Ok(LiveBook { bid, bid_qty, ask: ask.max(above), ask_qty }))
}

fn decimal_or_one(s: &str) -> (r: Decimal)
    ensures
        r@ == number_or_one(s@),
{
    match Decimal::parse(s) {
        Some(d) => d,
        None => Decimal::one(),
    }
}

/// A book from a venue's ticker; `None` when a number on the way is out of
/// range.
pub fn try_read_book(raw: &BookTicker) -> (r: Option<core::result::Result<LiveBook, String>>)
    ensures
        match read_ticker(raw.bid_price@, raw.bid_qty@, raw.ask_price@, raw.ask_qty@) {
            None => r is None,
            Some(Err(e)) => r matches Some(Err(x)) && x@ == e,
            Some(Ok(b)) => r matches Some(Ok(x)) && x@ == b,
        },
{
    let bid = match Decimal::parse(raw.bid_price.as_str()) {
        Some(d) => d,
        None => return Some(Err("bad bid".to_owned())),
    };
    let ask = match Decimal::parse(raw.ask_price.as_str()) {
        Some(d) => d,
        None => return Some(Err("bad ask".to_owned())),
    };
    let bid_qty = decimal_or_one(raw.bid_qty.as_str());
    let ask_qty = decimal_or_one(raw.ask_qty.as_str());
    try_align_book(bid, bid_qty, ask, ask_qty)
}

/// The last price from a venue's answer, if the answer has one.
pub fn read_last_price(price: Option<String>) -> (r: core::result::Result<Decimal, String>)
    ensures
        match price {
            Some(s) => match decimal::parsed_decimal(s@) {
                Some(d) => r matches Ok(x) && x@ == d,
                None => r matches Err(e) && e@ == "bad last price"@,
            },
            None => r matches Err(e) && e@ == "bad last price"@,
        },
{
    match price {
        Some(s) => match Decimal::parse(s.as_str()) {
            Some(d) => Ok(d),
            None => Err("bad last price".to_owned()),
        },
        None => Err("bad last price".to_owned()),
    }
}

/// Where the venue gives the best bid and ask of a symbol.
pub fn book_url(symbol: &str) -> (r: String)
    ensures
        r@ == "https://api.binance.com/api/v3/ticker/bookTicker?symbol="@ + symbol@,
{
    join2("https://api.binance.com/api/v3/ticker/bookTicker?symbol=", symbol)
}

/// Where the venue gives the last price of a symbol.
pub fn price_url(symbol: &str) -> (r: String)
    ensures
        r@ == "https://api.binance.com/api/v3/ticker/price?symbol="@ + symbol@,
{
    join2("https://api.binance.com/api/v3/ticker/price?symbol=", symbol)
}

impl RuntimeView {
    /// The process after a live quote: the market knows it, and resting paper
    /// orders have matched.
    pub open spec fn quoted(
        self,
        book: LiveBookView,
        at: TimestampMs,
        fills: Seq<crate::domain::FillView>,
    ) -> RuntimeView {
        RuntimeView {
            market: self.market.with_ticker(book.ticker(self.instrument.id, at)),
            paper: self.paper.with_quote(self.instrument.id, book.top(at), at, fills),
            ..self
        }
    }
}

impl RuntimeState {
    /// Takes a live quote: the market learns of it and resting paper orders
    /// match. `None`, and no change, when a number on the way is out of range.
    pub fn try_on_live_book(&mut self, book: &LiveBook, at: TimestampMs) -> (r: Option<Vec<Fill>>)
        ensures
            match r {
                None => {
                    &&& old(self)@.paper.matched(
                        old(self)@.instrument.id,
                        book@.top(at),
                        at,
                    ) is None
                    &&& final(self)@ == old(self)@
                },
                Some(fills) => {
                    &&& old(self)@.paper.matched(
                        old(self)@.instrument.id,
                        book@.top(at),
                        at,
                    ) matches Some(m)
                    &&& sim::anonymous_all(views::seq_view(fills@)) == m.fills
                    &&& final(self)@ == old(self)@.quoted(book@, at, views::seq_view(fills@))
                },
            },
    {
        let fills = self.paper.try_on_book_top_at(&self.instrument.id, book.top(at), at)?;
        let ticker = book.ticker(&self.instrument.id, at);
        self.market.on_book_ticker(&ticker);
        Some(fills)
    }
}

/// A live book is never crossed or locked: the ask is a tick or more above the
/// bid.
pub proof fn law_live_book_is_not_crossed(
    bid: DecimalView,
    bid_qty: DecimalView,
    ask: DecimalView,
    ask_qty: DecimalView,
    book: LiveBookView,
)
    requires
        aligned_book(bid, bid_qty, ask, ask_qty) == Some(Ok::<LiveBookView, Seq<char>>(book)),
        book.bid.wf(),
        book.bid.adds_exactly(tick()),
    ensures
        book.bid.units() + tick().units() <= book.ask.units(),
        book.bid.lt(book.ask),
{
    decimal::lemma_exact_sum(book.bid, tick());
    decimal::lemma_sign_of_units(tick());
}

/// The mid of a live book is half way between its sides. Stated where their sum
/// needs no rounding and has room for one more decimal place.
pub proof fn law_live_mid_is_half_way(b: LiveBookView)
    requires
        b.bid.wf(),
        b.ask.wf(),
        b.bid.adds_exactly(b.ask),
        b.bid.exact_sum(b.ask).scale < decimal::MAX_SCALE,
        decimal::fits(5 * b.bid.exact_sum(b.ask).mantissa),
    ensures
        b.mid() is Some,
        2 * (b.mid()->0).units() == b.bid.units() + b.ask.units(),
{
    decimal::lemma_exact_sum(b.bid, b.ask);
    decimal::law_half_is_exact(b.bid.exact_sum(b.ask));
}

/// A venue's book is taken exactly when both sides have a positive price. Its
/// prices go down to the next cent, but the ask to a cent above the bid where it
/// would not be above it; its sizes stay. Stated where the prices need no other
/// rounding.
pub proof fn law_live_prices_are_in_cents(
    bid: DecimalView,
    bid_qty: DecimalView,
    ask: DecimalView,
    ask_qty: DecimalView,
)
    requires
        bid.wf(),
        ask.wf(),
        bid.divides_exactly(DecimalView::of(1, 2)),
        ask.divides_exactly(DecimalView::of(1, 2)),
        decimal::steps_fit(bid, DecimalView::of(1, 2)),
        decimal::steps_fit(ask, DecimalView::of(1, 2)),
        decimal::step_multiple(bid, DecimalView::of(1, 2)) matches Some(b) && b.wf()
            && b.adds_exactly(DecimalView::of(1, 2)),
    ensures
        ({
            let cent = decimal::pow10(26) as int;
            let r = aligned_book(bid, bid_qty, ask, ask_qty);
            &&& r is Some
            &&& r->0 is Ok <==> bid.units() > 0 && ask.units() > 0
            &&& r->0 matches Ok(book) ==> {
                &&& book.bid.units() % cent == 0
                &&& book.bid.units() <= bid.units() < book.bid.units() + cent
                &&& book.ask.units() % cent == 0
                &&& ask.units() - cent < book.ask.units()
                &&& book.ask.units() <= ask.units() || book.ask.units() == book.bid.units() + cent
                &&& book.bid.units() < book.ask.units()
                &&& book.bid_qty == bid_qty && book.ask_qty == ask_qty
            }
        }),
{
    let t = DecimalView::of(1, 2);
    decimal::lemma_sign_of_units(bid);
    decimal::lemma_sign_of_units(ask);
    decimal::lemma_pow10_positive(26);
    let cent = decimal::pow10(26) as int;
    assert(t.units() == cent) by (nonlinear_arith)
        requires
            t.units() == 1 * cent,
    ;
    decimal::law_steps_are_exact(bid, t);
    decimal::law_steps_are_exact(ask, t);
    let b = decimal::step_multiple(bid, t)->0;
    decimal::lemma_exact_sum(b, t);
    crate::runtime::lemma_towards_zero(bid.units(), cent);
    crate::runtime::lemma_towards_zero(ask.units(), cent);
    assert((b.units() + cent) % cent == 0) by {
        vstd::arithmetic::div_mod::lemma_mod_add_multiples_vanish(b.units(), cent);
    }
}

/// A ticker is taken only where both of its prices are numbers; a size that is
/// no number counts as one.
pub proof fn law_ticker_needs_two_prices(
    bid: Seq<char>,
    bid_qty: Seq<char>,
    ask: Seq<char>,
    ask_qty: Seq<char>,
    book: LiveBookView,
)
    requires
        read_ticker(bid, bid_qty, ask, ask_qty) == Some(Ok::<LiveBookView, Seq<char>>(book)),
    ensures
        decimal::parsed_decimal(bid) is Some,
        decimal::parsed_decimal(ask) is Some,
        aligned_book(
            decimal::parsed_decimal(bid)->0,
            book.bid_qty,
            decimal::parsed_decimal(ask)->0,
            book.ask_qty,
        ) == Some(Ok::<LiveBookView, Seq<char>>(book)),
        match decimal::parsed_decimal(bid_qty) {
            Some(q) => book.bid_qty == q,
            None => book.bid_qty == DecimalView::of(1, 0),
        },
        match decimal::parsed_decimal(ask_qty) {
            Some(q) => book.ask_qty == q,
            None => book.ask_qty == DecimalView::of(1, 0),
        },
{
}

/// A live quote is what market and paper engine know of the instrument from then
/// on, and nothing else but the matching changes.
pub proof fn law_live_quote_reaches_both(
    s: RuntimeView,
    book: LiveBookView,
    at: TimestampMs,
    fills: Seq<crate::domain::FillView>,
)
    ensures
        ({
            let after = s.quoted(book, at, fills);
            let top = TopView {
                bid_price: book.bid,
                bid_qty: book.bid_qty,
                ask_price: book.ask,
                ask_qty: book.ask_qty,
                at,
            };
            &&& crate::table::lookup(after.market.tops, s.instrument.id) == Some(top)
            &&& crate::table::lookup(after.paper.book, s.instrument.id) == Some(top)
            &&& after.portfolio == s.portfolio && after.oms == s.oms && after.risk == s.risk
            &&& after.strategy == s.strategy && after.instrument == s.instrument
        }),
{
    crate::market::law_latest_quote(s.market, book.ticker(s.instrument.id, at), s.instrument.id);
    sim::law_quote_is_kept(s.paper, s.instrument.id, book.top(at), at, fills, s.instrument.id);
}

} // verus!

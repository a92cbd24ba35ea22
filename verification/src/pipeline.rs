//! Local Paper loop using the same runtime as the dashboard and control API.
//!
//! The loop is a machine: it says what to do next, is told what came of it, and
//! goes on from there. Fetching, waiting and writing are up to the caller.

use vstd::prelude::*;
use vstd::string::*;

use crate::control::{Operation, OperationView};
use crate::decimal::{Decimal, DecimalView};
use crate::domain::{Order, OrderView};
use crate::error::TuxError;
use crate::ids::ConfigVersionId;
use crate::live_feed::{LiveBook, LiveBookView};
use crate::runtime::{RuntimeState, RuntimeView};
use crate::table;
use crate::text::{join2, join3, join4, u64_text};
use crate::text;
use crate::views;

verus! {

/// How many ticks the loop runs for.
pub const TOTAL_TICKS: u32 = 16;

/// How often a live book is asked for before the loop goes without.
pub const WARMUP_ATTEMPTS: u32 = 3;

/// How long the loop waits where it waits, in milliseconds.
pub const PAUSE_MS: u64 = 200;

/// What the loop waits for.
#[derive(Debug, Clone, Copy, PartialEq, Eq, Structural)]
pub enum Phase {
    /// Nothing has happened yet.
    Fresh,
    /// The first live book, after some failures.
    Warming { failures: u32 },
    /// A live book for this tick.
    Fetching,
    /// A synthetic mid for this tick.
    Mixing,
    /// What the quote came to.
    Showing,
    /// That the strategy has its new configuration.
    Configuring { revision: u64, running: bool },
    /// What the strategy wants.
    Asking,
    /// What came of an intent.
    Executing { intent: u64, total: u64 },
    /// That the tick is over.
    Ticking,
    /// Nothing more.
    Done,
}

/// What the loop is told.
#[derive(Debug)]
pub enum DemoEvent {
    /// Go.
    Start,
    /// A live book was fetched.
    Book(LiveBook),
    /// No live book could be fetched.
    NoBook,
    /// The synthetic mid was computed.
    Mid(Decimal),
    /// The market and the matching engine have the quote: so many resting orders
    /// were filled, and the strategy is at that revision, running or not.
    Shown { fills: u64, revision: u64, running: bool },
    /// The strategy took its new configuration.
    Configured,
    /// The strategy wants that many orders.
    Intents(u64),
    /// An intent was executed, or refused.
    Executed { placed: bool },
    /// Everything for this tick was done.
    TickOver,
}

/// What the loop is told, by its views.
pub enum EventView {
    Start,
    Book(LiveBookView),
    NoBook,
    Mid(DecimalView),
    Shown { fills: u64, revision: u64, running: bool },
    Configured,
    Intents(u64),
    Executed { placed: bool },
    TickOver,
}

impl View for DemoEvent {
    type V = EventView;

    open spec fn view(&self) -> EventView {
        match self {
            DemoEvent::Start => EventView::Start,
            DemoEvent::Book(b) => EventView::Book(b@),
            DemoEvent::NoBook => EventView::NoBook,
            DemoEvent::Mid(m) => EventView::Mid(m@),
            DemoEvent::Shown { fills, revision, running } => EventView::Shown {
                fills: *fills,
                revision: *revision,
                running: *running,
            },
            DemoEvent::Configured => EventView::Configured,
            DemoEvent::Intents(n) => EventView::Intents(*n),
            DemoEvent::Executed { placed } => EventView::Executed { placed: *placed },
            DemoEvent::TickOver => EventView::TickOver,
        }
    }
}

/// What the loop wants done.
#[derive(Debug)]
pub enum DemoAction {
    /// Fetch a live book, after a pause where one is due.
    Fetch { pause: bool },
    /// Compute the synthetic mid of a tick, after a pause where one is due.
    Mix { index: u32, pause: bool },
    /// Show a quote to the market and the matching engine, after a pause where
    /// one is due.
    Show { quote: LiveBook, pause: bool },
    /// Give the strategy its configuration at a revision.
    Configure { revision: u64 },
    /// Ask the strategy what it wants on this quote.
    Ask,
    /// Execute one of the intents, by its place among them.
    Execute { intent: u64 },
    /// Write down where the account stands, and end the tick; pause where that
    /// is due.
    Settle { pause: bool },
    /// Report.
    Finish,
    /// Nothing: the event does not belong here.
    Ignore,
}

/// What the loop wants done, by its views.
pub enum ActionView {
    Fetch { pause: bool },
    Mix { index: u32, pause: bool },
    Show { quote: LiveBookView, pause: bool },
    Configure { revision: u64 },
    Ask,
    Execute { intent: u64 },
    Settle { pause: bool },
    Finish,
    Ignore,
}

impl View for DemoAction {
    type V = ActionView;

    open spec fn view(&self) -> ActionView {
        match self {
            DemoAction::Fetch { pause } => ActionView::Fetch { pause: *pause },
            DemoAction::Mix { index, pause } => ActionView::Mix { index: *index, pause: *pause },
            DemoAction::Show { quote, pause } => ActionView::Show {
                quote: quote@,
                pause: *pause,
            },
            DemoAction::Configure { revision } => ActionView::Configure { revision: *revision },
            DemoAction::Ask => ActionView::Ask,
            DemoAction::Execute { intent } => ActionView::Execute { intent: *intent },
            DemoAction::Settle { pause } => ActionView::Settle { pause: *pause },
            DemoAction::Finish => ActionView::Finish,
            DemoAction::Ignore => ActionView::Ignore,
        }
    }
}

/// The paper loop. It prefers live books; where not even the first one can be
/// had and nobody is being served, it runs on synthetic prices.
pub struct DemoLoop {
    serve_mode: bool,
    phase: Phase,
    synthetic: bool,
    index: u32,
    live_ticks: u32,
    applied_revision: u64,
    intents: u64,
    orders: u64,
    fills: u64,
    restored_orders: u64,
}

/// What a [`DemoLoop`] holds.
#[verifier::ext_equal]
pub struct DemoView {
    pub serve_mode: bool,
    pub phase: Phase,
    pub synthetic: bool,
    pub index: u32,
    pub live_ticks: u32,
    pub applied_revision: u64,
    pub intents: u64,
    pub orders: u64,
    pub fills: u64,
    pub restored_orders: u64,
}

impl View for DemoLoop {
    type V = DemoView;

    closed spec fn view(&self) -> DemoView {
        DemoView {
            serve_mode: self.serve_mode,
            phase: self.phase,
            synthetic: self.synthetic,
            index: self.index,
            live_ticks: self.live_ticks,
            applied_revision: self.applied_revision,
            intents: self.intents,
            orders: self.orders,
            fills: self.fills,
            restored_orders: self.restored_orders,
        }
    }
}

/// The quote around a synthetic mid: five cents to either side, two units deep;
/// nothing when that is out of range.
pub open spec fn synthetic_quote(mid: DecimalView) -> Option<LiveBookView> {
    let half = DecimalView::of(5, 2);
    let depth = DecimalView::of(2, 0);
    match (mid.minus(half), mid.plus(half)) {
        (Some(bid), Some(ask)) => Some(
            LiveBookView { bid, bid_qty: depth, ask, ask_qty: depth },
        ),
        _ => None,
    }
}

/// The quote around a synthetic mid.
pub fn try_synthetic_quote(mid: Decimal) -> (r: Option<LiveBook>)
    ensures
        views::opt_view(r) == synthetic_quote(mid@),
{
    let half = Decimal::new(5, 2);
    let bid = mid.checked_sub(half)?;
    let ask = mid.checked_add(half)?;
    Some(LiveBook { bid, bid_qty: Decimal::two(), ask, ask_qty: Decimal::two() })
}

/// `k` more, as far as the counter goes.
pub open spec fn more(n: u64, k: u64) -> u64 {
    if n + k <= u64::MAX {
        (n + k) as u64
    } else {
        u64::MAX
    }
}

fn count(n: u64, k: u64) -> (r: u64)
    ensures
        r == more(n, k),
{
    if n <= u64::MAX - k {
        n + k
    } else {
        u64::MAX
    }
}

impl DemoView {
    pub open spec fn fresh(serve_mode: bool, revision: u64, restored_orders: u64) -> DemoView {
        DemoView {
            serve_mode,
            phase: Phase::Fresh,
            synthetic: false,
            index: 0,
            live_ticks: 0,
            applied_revision: revision,
            intents: 0,
            orders: 0,
            fills: 0,
            restored_orders,
        }
    }

    /// With a live book for this tick.
    pub open spec fn live(self, book: LiveBookView) -> (DemoView, ActionView) {
        (
            DemoView {
                phase: Phase::Showing,
                live_ticks: (self.live_ticks + 1) as u32,
                ..self
            },
            ActionView::Show { quote: book, pause: true },
        )
    }

    /// With the strategy in its present configuration: it is asked if it runs.
    pub open spec fn ready(self, running: bool) -> (DemoView, ActionView) {
        if running {
            (DemoView { phase: Phase::Asking, ..self }, ActionView::Ask)
        } else {
            self.settle(false)
        }
    }

    /// At intent `intent` of `total`, or past the last one.
    pub open spec fn at_intent(self, intent: u64, total: u64) -> (DemoView, ActionView) {
        if intent < total {
            (
                DemoView {
                    phase: Phase::Executing { intent, total },
                    intents: more(self.intents, 1),
                    ..self
                },
                ActionView::Execute { intent },
            )
        } else {
            self.settle(false)
        }
    }

    /// With nothing left to do in this tick but to write it down.
    pub open spec fn settle(self, pause: bool) -> (DemoView, ActionView) {
        (DemoView { phase: Phase::Ticking, ..self }, ActionView::Settle { pause })
    }

    /// At the start of a tick without a book at hand, or at the end of the last
    /// one.
    pub open spec fn tick(self, pause: bool) -> (DemoView, ActionView) {
        if self.index >= TOTAL_TICKS {
            (DemoView { phase: Phase::Done, ..self }, ActionView::Finish)
        } else if self.synthetic {
            (
                DemoView { phase: Phase::Mixing, ..self },
                ActionView::Mix { index: self.index, pause },
            )
        } else {
            (DemoView { phase: Phase::Fetching, ..self }, ActionView::Fetch { pause })
        }
    }

    /// What an event leads to; nothing when a number on the way is out of range.
    pub open spec fn step(self, event: EventView) -> Option<(DemoView, ActionView)> {
        match (self.phase, event) {
            (Phase::Fresh, EventView::Start) => Some(
                (
                    DemoView { phase: Phase::Warming { failures: 0 }, ..self },
                    ActionView::Fetch { pause: false },
                ),
            ),
            (Phase::Warming { .. }, EventView::Book(b)) => Some(self.live(b)),
            (Phase::Warming { failures }, EventView::NoBook) => if failures + 1
                < WARMUP_ATTEMPTS {
                Some(
                    (
                        DemoView {
                            phase: Phase::Warming { failures: (failures + 1) as u32 },
                            ..self
                        },
                        ActionView::Fetch { pause: true },
                    ),
                )
            } else {
                Some(DemoView { synthetic: !self.serve_mode, ..self }.tick(true))
            },
            (Phase::Fetching, EventView::Book(b)) => Some(self.live(b)),
            (Phase::Fetching, EventView::NoBook) => Some(self.settle(true)),
            (Phase::Mixing, EventView::Mid(m)) => match synthetic_quote(m) {
                None => None,
                Some(quote) => Some(
                    (
                        DemoView { phase: Phase::Showing, ..self },
                        ActionView::Show { quote, pause: false },
                    ),
                ),
            },
            (Phase::Showing, EventView::Shown { fills, revision, running }) => {
                let shown = DemoView { fills: more(self.fills, fills), ..self };
                if revision != self.applied_revision {
                    Some(
                        (
                            DemoView { phase: Phase::Configuring { revision, running }, ..shown },
                            ActionView::Configure { revision },
                        ),
                    )
                } else {
                    Some(shown.ready(running))
                }
            },
            (Phase::Configuring { revision, running }, EventView::Configured) => Some(
                DemoView { applied_revision: revision, ..self }.ready(running),
            ),
            (Phase::Asking, EventView::Intents(n)) => Some(self.at_intent(0, n)),
            (Phase::Executing { intent, total }, EventView::Executed { placed }) => Some(
                DemoView {
                    orders: more(
                        self.orders,
                        if placed {
                            1
                        } else {
                            0
                        },
                    ),
                    ..self
                }.at_intent((intent + 1) as u64, total),
            ),
            (Phase::Ticking, EventView::TickOver) => Some(
                DemoView { index: (self.index + 1) as u32, ..self }.tick(false),
            ),
            _ => Some((self, ActionView::Ignore)),
        }
    }

    /// The loop after an event.
    pub open spec fn after(self, event: EventView) -> DemoView {
        let next = self.step(event)->0;
        next.0
    }

    /// What the loop wants done after an event.
    pub open spec fn wants(self, event: EventView) -> ActionView {
        let next = self.step(event)->0;
        next.1
    }

    /// The loop never counts past its last tick, no tick has two live books, and
    /// there are no more orders than intents.
    pub open spec fn wf(self) -> bool {
        &&& self.index <= TOTAL_TICKS
        &&& self.live_ticks <= self.index + 1
        &&& self.orders <= self.intents
        &&& match self.phase {
            Phase::Fresh => self.index == 0 && self.live_ticks == 0,
            Phase::Warming { failures } => failures < WARMUP_ATTEMPTS && self.index == 0
                && self.live_ticks == 0,
            Phase::Fetching | Phase::Mixing => self.index < TOTAL_TICKS && self.live_ticks
                <= self.index,
            Phase::Executing { intent, total } => self.index < TOTAL_TICKS && intent < total && (
            self.orders < self.intents || self.intents == u64::MAX),
            Phase::Showing | Phase::Configuring { .. } | Phase::Asking
            | Phase::Ticking => self.index < TOTAL_TICKS,
            Phase::Done => self.index == TOTAL_TICKS && self.live_ticks <= self.index,
        }
    }
}

/// What the loop says is within its bounds from the start and after every step.
pub proof fn law_loop_stays_in_bounds(d: DemoView, event: EventView)
    requires
        d.wf(),
        d.step(event) is Some,
    ensures
        d.after(event).wf(),
        d.wants(event) is Finish ==> d.after(event).index == TOTAL_TICKS,
{
}

/// Every tick that is over brings the loop one step nearer to its end, and no
/// event takes it back.
pub proof fn law_loop_goes_forward(d: DemoView, event: EventView)
    requires
        d.wf(),
        d.step(event) is Some,
    ensures
        d.index <= d.after(event).index <= d.index + 1,
        d.after(event).index == d.index + 1 <==> d.phase == Phase::Ticking
            && event is TickOver,
        d.live_ticks <= d.after(event).live_ticks,
{
}

/// Once the loop runs on synthetic prices it never asks for a live book.
pub proof fn law_synthetic_stays_offline(d: DemoView, event: EventView)
    requires
        d.synthetic,
        !(d.phase is Fresh) && !(d.phase is Warming) && !(d.phase is Fetching),
        d.step(event) is Some,
    ensures
        !(d.wants(event) is Fetch),
        !(d.after(event).phase is Fetching),
        d.after(event).synthetic,
        d.after(event).live_ticks == d.live_ticks,
{
}

/// A strategy is asked only while it runs, in its present configuration, and
/// only what it asked for is executed, one intent after the other.
pub proof fn law_strategy_is_asked_first(d: DemoView, event: EventView)
    requires
        d.wf(),
        d.step(event) is Some,
    ensures
        d.wants(event) is Ask ==> {
            ||| event matches EventView::Shown { revision, running, .. } && running && revision
                == d.applied_revision
            ||| d.phase matches Phase::Configuring { running, .. } && running
        },
        d.wants(event) matches ActionView::Execute { intent } ==> {
            ||| d.phase is Asking && (event matches EventView::Intents(n) && intent == 0 && n > 0)
            ||| d.phase matches Phase::Executing { intent: last, total } && intent == last + 1
                && intent < total
        },
        d.wants(event) is Ask ==> d.after(event).phase is Asking,
{
}

impl DemoLoop {
    #[verifier::type_invariant]
    closed spec fn inv(self) -> bool {
        self@.wf()
    }

    /// The loop before it starts.
    pub fn new(serve_mode: bool, revision: u64, restored_orders: u64) -> (r: Self)
        ensures
            r@ == DemoView::fresh(serve_mode, revision, restored_orders),
    {
        DemoLoop {
            serve_mode,
            phase: Phase::Fresh,
            synthetic: false,
            index: 0,
            live_ticks: 0,
            applied_revision: revision,
            intents: 0,
            orders: 0,
            fills: 0,
            restored_orders,
        }
    }

    /// The loop with a live book for this tick.
    fn go_live(&mut self, book: LiveBook) -> (r: DemoAction)
        requires
            old(self)@.live_ticks <= old(self)@.index < TOTAL_TICKS,
            old(self)@.wf(),
        ensures
            (final(self)@, r@) == old(self)@.live(book@),
    {
        *self = DemoLoop { phase: Phase::Showing, live_ticks: self.live_ticks + 1, ..*self };
        DemoAction::Show { quote: book, pause: true }
    }

    /// The loop at the start of tick `index`.
    fn go_tick(&mut self, synthetic: bool, index: u32, pause: bool) -> (r: DemoAction)
        requires
            index <= TOTAL_TICKS,
            old(self)@.live_ticks <= index,
            old(self)@.orders <= old(self)@.intents,
        ensures
            (final(self)@, r@) == (DemoView { synthetic, index, ..old(self)@ }).tick(pause),
    {
        if index >= TOTAL_TICKS {
            *self = DemoLoop { phase: Phase::Done, synthetic, index, ..*self };
            DemoAction::Finish
        } else if synthetic {
            *self = DemoLoop { phase: Phase::Mixing, synthetic, index, ..*self };
            DemoAction::Mix { index, pause }
        } else {
            *self = DemoLoop { phase: Phase::Fetching, synthetic, index, ..*self };
            DemoAction::Fetch { pause }
        }
    }

    /// The loop with nothing left to do in this tick but to write it down.
    fn go_settle(&mut self, pause: bool) -> (r: DemoAction)
        requires
            old(self)@.wf(),
            old(self)@.index < TOTAL_TICKS,
        ensures
            (final(self)@, r@) == old(self)@.settle(pause),
    {
        *self = DemoLoop { phase: Phase::Ticking, ..*self };
        DemoAction::Settle { pause }
    }

    /// The loop with the strategy in its present configuration.
    fn go_ready(&mut self, running: bool) -> (r: DemoAction)
        requires
            old(self)@.wf(),
            old(self)@.index < TOTAL_TICKS,
        ensures
            (final(self)@, r@) == old(self)@.ready(running),
    {
        if running {
            *self = DemoLoop { phase: Phase::Asking, ..*self };
            DemoAction::Ask
        } else {
            self.go_settle(false)
        }
    }

    /// The loop at intent `intent` of `total`, or past the last one.
    fn go_intent(&mut self, intent: u64, total: u64) -> (r: DemoAction)
        requires
            old(self)@.wf(),
            old(self)@.index < TOTAL_TICKS,
        ensures
            (final(self)@, r@) == old(self)@.at_intent(intent, total),
    {
        if intent < total {
            let intents = count(self.intents, 1);
            *self = DemoLoop { phase: Phase::Executing { intent, total }, intents, ..*self };
            DemoAction::Execute { intent }
        } else {
            self.go_settle(false)
        }
    }

    /// Takes an event and says what to do next; `None`, and no change, when a
    /// number on the way is out of range.
    pub fn try_step(&mut self, event: DemoEvent) -> (r: Option<DemoAction>)
        ensures
            match old(self)@.step(event@) {
                None => r is None && final(self)@ == old(self)@,
                Some(next) => final(self)@ == next.0 && (r matches Some(a) && a@ == next.1),
            },
    {
        proof {
            use_type_invariant(&*self);
        }
        match (self.phase, event) {
            (Phase::Fresh, DemoEvent::Start) => {
                *self = DemoLoop { phase: Phase::Warming { failures: 0 }, ..*self };
                Some(DemoAction::Fetch { pause: false })
            },
            (Phase::Warming { .. }, DemoEvent::Book(b)) => Some(self.go_live(b)),
            (Phase::Warming { failures }, DemoEvent::NoBook) => {
                if failures + 1 < WARMUP_ATTEMPTS {
                    *self = DemoLoop {
                        phase: Phase::Warming { failures: failures + 1 },
                        ..*self
                    };
                    Some(DemoAction::Fetch { pause: true })
                } else {
                    let synthetic = !self.serve_mode;
                    let index = self.index;
                    Some(self.go_tick(synthetic, index, true))
                }
            },
            (Phase::Fetching, DemoEvent::Book(b)) => Some(self.go_live(b)),
            (Phase::Fetching, DemoEvent::NoBook) => Some(self.go_settle(true)),
            (Phase::Mixing, DemoEvent::Mid(m)) => {
                let quote = try_synthetic_quote(m)?;
                *self = DemoLoop { phase: Phase::Showing, ..*self };
                Some(DemoAction::Show { quote, pause: false })
            },
            (Phase::Showing, DemoEvent::Shown { fills, revision, running }) => {
                let fills = count(self.fills, fills);
                if revision != self.applied_revision {
                    *self = DemoLoop {
                        phase: Phase::Configuring { revision, running },
                        fills,
                        ..*self
                    };
                    Some(DemoAction::Configure { revision })
                } else {
                    *self = DemoLoop { fills, ..*self };
                    Some(self.go_ready(running))
                }
            },
            (Phase::Configuring { revision, running }, DemoEvent::Configured) => {
                *self = DemoLoop { applied_revision: revision, ..*self };
                Some(self.go_ready(running))
            },
            (Phase::Asking, DemoEvent::Intents(n)) => Some(self.go_intent(0, n)),
            (Phase::Executing { intent, total }, DemoEvent::Executed { placed }) => {
                let orders = count(
                    self.orders,
                    if placed {
                        1
                    } else {
                        0
                    },
                );
                *self = DemoLoop { phase: Phase::Asking, orders, ..*self };
                Some(self.go_intent(intent + 1, total))
            },
            (Phase::Ticking, DemoEvent::TickOver) => {
                let synthetic = self.synthetic;
                let index = self.index + 1;
                Some(self.go_tick(synthetic, index, false))
            },
            _ => Some(DemoAction::Ignore),
        }
    }

    /// The report of a finished loop; `None` when a number on the way is out of
    /// range.
    pub fn try_report(&self, rt: &RuntimeState, db_path: &str) -> (r: Option<DemoReport>)
        ensures
            r is Some <==> rt@.equity() is Some && rt@.net_pnl() is Some,
            r matches Some(x) ==> x@ == self@.report(rt@, db_path@),
    {
        let final_quote = match rt.portfolio.balance(&rt.account_id, rt.quote_asset.as_str()) {
            Some(b) => b.free,
            None => Decimal::zero(),
        };
        let final_base = match rt.portfolio.balance(&rt.account_id, rt.base_asset.as_str()) {
            Some(b) => b.free,
            None => Decimal::zero(),
        };
        let net_pnl = match rt.portfolio.pnl_book(&rt.account_id) {
            Some(b) => b.try_net_pnl()?,
            None => Decimal::zero(),
        };
        let equity = rt.try_equity_mtm()?;
        Some(
            DemoReport {
                intents: self.intents,
                orders: self.orders,
                fills: self.fills,
                final_quote,
                final_base,
                net_pnl,
                equity,
                db_path: db_path.to_owned(),
                live_ticks: self.live_ticks as u64,
                total_ticks: TOTAL_TICKS as u64,
                restored_orders: self.restored_orders,
            },
        )
    }
}

impl DemoView {
    /// The report of a finished loop.
    pub open spec fn report(self, rt: RuntimeView, db_path: Seq<char>) -> ReportView {
        ReportView {
            intents: self.intents,
            orders: self.orders,
            fills: self.fills,
            final_quote: rt.portfolio.free(rt.account_id, rt.quote_asset),
            final_base: rt.portfolio.free(rt.account_id, rt.base_asset),
            net_pnl: rt.net_pnl()->0,
            equity: rt.equity()->0,
            db_path,
            live_ticks: self.live_ticks as u64,
            total_ticks: TOTAL_TICKS as u64,
            restored_orders: self.restored_orders,
        }
    }
}

/// The version of the strategy's configuration at a revision.
pub fn config_version(revision: u64) -> (r: ConfigVersionId)
    ensures
        r@ == "cfg-"@ + text::nat_text(revision as nat),
{
    let n = u64_text(revision);
    ConfigVersionId::from(join2("cfg-", n.as_str()))
}

/// The entry for the start of the loop.
pub fn started() -> (r: Operation)
    ensures
        r@ == OperationView::entry(
            "system"@,
            "runtime_start"@,
            true,
            "strategy runtime started"@,
        ),
{
    Operation::entry("system", "runtime_start", true, "strategy runtime started")
}

/// The entry for an order that the strategy placed.
pub fn signal_succeeded(order: &Order) -> (r: Operation)
    ensures
        r@ == OperationView::entry(
            "strategy"@,
            "automatic_signal"@,
            true,
            "created order "@ + order@.id + " ("@ + (order@.status.text() + ")"@),
        ),
{
    let tail = join2(order.status.as_str(), ")");
    let detail = join4("created order ", order.id.as_str(), " (", tail.as_str());
    Operation::entry("strategy", "automatic_signal", true, detail.as_str())
}

/// The entry for an order of the strategy that failed.
pub fn signal_failed(error: &TuxError) -> (r: Operation)
    ensures
        r@ == OperationView::entry("strategy"@, "automatic_signal"@, false, error@.text()),
{
    let detail = error.to_text();
    Operation::entry("strategy", "automatic_signal", false, detail.as_str())
}

/// What came of the loop.
#[derive(Debug)]
pub struct DemoReport {
    pub intents: u64,
    pub orders: u64,
    pub fills: u64,
    pub final_quote: Decimal,
    pub final_base: Decimal,
    pub net_pnl: Decimal,
    pub equity: Decimal,
    pub db_path: String,
    pub live_ticks: u64,
    pub total_ticks: u64,
    pub restored_orders: u64,
}

/// What a [`DemoReport`] holds.
#[verifier::ext_equal]
pub struct ReportView {
    pub intents: u64,
    pub orders: u64,
    pub fills: u64,
    pub final_quote: DecimalView,
    pub final_base: DecimalView,
    pub net_pnl: DecimalView,
    pub equity: DecimalView,
    pub db_path: Seq<char>,
    pub live_ticks: u64,
    pub total_ticks: u64,
    pub restored_orders: u64,
}

impl View for DemoReport {
    type V = ReportView;

    open spec fn view(&self) -> ReportView {
        ReportView {
            intents: self.intents,
            orders: self.orders,
            fills: self.fills,
            final_quote: self.final_quote@,
            final_base: self.final_base@,
            net_pnl: self.net_pnl@,
            equity: self.equity@,
            db_path: self.db_path@,
            live_ticks: self.live_ticks,
            total_ticks: self.total_ticks,
            restored_orders: self.restored_orders,
        }
    }
}

/// A line with a label and a value.
pub open spec fn line(label: Seq<char>, value: Seq<char>) -> Seq<char> {
    label + value + "\n"@
}

impl ReportView {
    /// Where the prices came from, and how many of them were live.
    pub open spec fn feed(self) -> Seq<char> {
        let source = if self.live_ticks > 0 {
            "Binance SOLUSDT"@
        } else {
            "synthetic"@
        };
        source + " ("@ + text::nat_text(self.live_ticks as nat) + "/"@ + (text::nat_text(
            self.total_ticks as nat,
        ) + ")"@)
    }

    /// The report as it is printed.
    pub open spec fn text(self) -> Seq<char> {
        line("intents processed : "@, text::nat_text(self.intents as nat)) + line(
            "orders created    : "@,
            text::nat_text(self.orders as nat),
        ) + line("fills             : "@, text::nat_text(self.fills as nat)) + line(
            "restored orders   : "@,
            text::nat_text(self.restored_orders as nat),
        ) + line("quote balance     : "@, self.final_quote.text()) + line(
            "base balance      : "@,
            self.final_base.text(),
        ) + line("net pnl (fees in) : "@, self.net_pnl.text()) + line(
            "equity (mtm)      : "@,
            self.equity.text(),
        ) + line("price feed        : "@, self.feed()) + line(
            "sqlite db         : "@,
            self.db_path,
        )
    }
}

fn add_line(out: &mut String, label: &str, value: &str)
    ensures
        final(out)@ == old(out)@ + line(label@, value@),
{
    let l = join3(label, value, "\n");
    out.append(l.as_str());
}

impl DemoReport {
    fn feed(&self) -> (r: String)
        ensures
            r@ == self@.feed(),
    {
        let source = if self.live_ticks > 0 {
            "Binance SOLUSDT"
        } else {
            "synthetic"
        };
        let live = u64_text(self.live_ticks);
        let total = u64_text(self.total_ticks);
        let head = join4(source, " (", live.as_str(), "/");
        let tail = join2(total.as_str(), ")");
        join2(head.as_str(), tail.as_str())
    }

    /// The report as it is printed.
    pub fn to_text(&self) -> (r: String)
        ensures
            r@ == self@.text(),
    {
        let n = u64_text(self.intents);
        let mut out = join3("intents processed : ", n.as_str(), "\n");
        let n = u64_text(self.orders);
        add_line(&mut out, "orders created    : ", n.as_str());
        let n = u64_text(self.fills);
        add_line(&mut out, "fills             : ", n.as_str());
        let n = u64_text(self.restored_orders);
        add_line(&mut out, "restored orders   : ", n.as_str());
        let d = self.final_quote.to_text();
        add_line(&mut out, "quote balance     : ", d.as_str());
        let d = self.final_base.to_text();
        add_line(&mut out, "base balance      : ", d.as_str());
        let d = self.net_pnl.to_text();
        add_line(&mut out, "net pnl (fees in) : ", d.as_str());
        let d = self.equity.to_text();
        add_line(&mut out, "equity (mtm)      : ", d.as_str());
        let feed = self.feed();
        add_line(&mut out, "price feed        : ", feed.as_str());
        add_line(&mut out, "sqlite db         : ", self.db_path.as_str());
        out
    }
}

/// A synthetic quote has its mid in the middle: five cents below it and five
/// cents above, with the same size of two units on both sides. Stated where the
/// prices need no rounding.
pub proof fn law_synthetic_quote_is_around_the_mid(mid: DecimalView)
    requires
        mid.wf(),
        mid.subtracts_exactly(DecimalView::of(5, 2)),
        mid.adds_exactly(DecimalView::of(5, 2)),
    ensures
        synthetic_quote(mid) is Some,
        ({
            let q = synthetic_quote(mid)->0;
            let cent = crate::decimal::pow10(26) as int;
            &&& q.bid.units() == mid.units() - 5 * cent
            &&& q.ask.units() == mid.units() + 5 * cent
            &&& q.bid_qty.units() == 200 * cent && q.ask_qty.units() == 200 * cent
        }),
{
    let half = DecimalView::of(5, 2);
    crate::decimal::lemma_exact_difference(mid, half);
    crate::decimal::lemma_exact_sum(mid, half);
    crate::decimal::lemma_pow10_adds(2, 26);
    reveal_with_fuel(crate::decimal::pow10, 3);
    assert(crate::decimal::pow10(2) == 100);
    assert(half.units() == 5 * crate::decimal::pow10(26));
    assert(DecimalView::of(2, 0).units() == 2 * crate::decimal::pow10(28));
}

/// The loop counts what it is told, up to where a counter ends: the fills of a
/// quote when it was shown, an intent when it goes to execution, an order when
/// it was placed, and a live tick when a book came while one was waited for.
/// Nothing else counts.
pub proof fn law_loop_counts_what_it_is_told(d: DemoView, event: EventView)
    requires
        d.wf(),
        d.step(event) is Some,
    ensures
        ({
            let after = d.after(event);
            let told = match event {
                EventView::Shown { fills, .. } => if d.phase is Showing {
                    fills as int
                } else {
                    0int
                },
                _ => 0int,
            };
            let placed = match event {
                EventView::Executed { placed } => if d.phase is Executing && placed {
                    1int
                } else {
                    0int
                },
                _ => 0int,
            };
            let live = event is Book && (d.phase is Warming || d.phase is Fetching);
            &&& d.fills + told <= u64::MAX ==> after.fills == d.fills + told
            &&& d.fills + told > u64::MAX ==> after.fills == u64::MAX
            &&& d.intents < u64::MAX ==> after.intents == d.intents + (if d.wants(
                event,
            ) is Execute {
                1int
            } else {
                0int
            })
            &&& d.orders + placed <= u64::MAX ==> after.orders == d.orders + placed
            &&& after.live_ticks == d.live_ticks + (if live {
                1int
            } else {
                0int
            })
            &&& after.serve_mode == d.serve_mode
            &&& after.restored_orders == d.restored_orders
        }),
{
}

/// What the loop does next: a live book is shown as it came, the third failure
/// to get a first one makes it go on synthetic prices unless somebody is being
/// served, a tick without a book is only written down, a new revision is
/// configured before the strategy is asked, and a strategy that is not running
/// is not asked.
pub proof fn law_loop_takes_its_steps(d: DemoView, event: EventView)
    requires
        d.wf(),
        d.step(event) is Some,
    ensures
        d.phase is Fresh && event is Start ==> d.wants(event) == (ActionView::Fetch {
            pause: false,
        }),
        (d.phase is Warming || d.phase is Fetching) && event is Book ==> d.wants(event) == (
        ActionView::Show { quote: event->Book_0, pause: true }),
        d.phase matches Phase::Warming { failures } ==> event is NoBook ==> {
            &&& failures < 2 ==> d.wants(event) == (ActionView::Fetch { pause: true }) && d.after(
                event,
            ).synthetic == d.synthetic
            &&& failures == 2 ==> d.after(event).synthetic == !d.serve_mode
            &&& failures == 2 && d.serve_mode ==> d.wants(event) == (ActionView::Fetch {
                pause: true,
            })
            &&& failures == 2 && !d.serve_mode ==> d.wants(event) == (ActionView::Mix {
                index: d.index,
                pause: true,
            })
        },
        d.phase is Fetching && event is NoBook ==> d.wants(event) == (ActionView::Settle {
            pause: true,
        }),
        d.phase is Mixing && event is Mid ==> (d.wants(event) matches ActionView::Show {
            quote,
            pause,
        } && !pause && Some(quote) == synthetic_quote(event->Mid_0)),
        d.phase is Showing ==> (event matches EventView::Shown { revision, running, .. } ==> {
            &&& revision != d.applied_revision ==> d.wants(event) == (ActionView::Configure {
                revision,
            })
            &&& revision == d.applied_revision && running ==> d.wants(event) is Ask
            &&& revision == d.applied_revision && !running ==> d.wants(event) == (
            ActionView::Settle { pause: false })
        }),
        d.phase matches Phase::Configuring { revision, running } ==> event is Configured ==> {
            &&& d.after(event).applied_revision == revision
            &&& running ==> d.wants(event) is Ask
            &&& !running ==> d.wants(event) == (ActionView::Settle { pause: false })
        },
        d.phase is Asking ==> (event matches EventView::Intents(n) ==> {
            &&& n > 0 ==> d.wants(event) == (ActionView::Execute { intent: 0 })
            &&& n == 0 ==> d.wants(event) == (ActionView::Settle { pause: false })
        }),
        d.phase matches Phase::Executing { intent, total } ==> event is Executed ==> {
            &&& intent + 1 < total ==> d.wants(event) == (ActionView::Execute {
                intent: (intent + 1) as u64,
            })
            &&& intent + 1 == total ==> d.wants(event) == (ActionView::Settle { pause: false })
        },
        d.phase is Ticking && event is TickOver ==> {
            &&& d.index + 1 == 16 ==> d.wants(event) is Finish
            &&& d.index + 1 < 16 && d.synthetic ==> d.wants(event) == (ActionView::Mix {
                index: (d.index + 1) as u32,
                pause: false,
            })
            &&& d.index + 1 < 16 && !d.synthetic ==> d.wants(event) == (ActionView::Fetch {
                pause: false,
            })
        },
{
}

/// The report gives the loop's counts and what the account has, is worth and has
/// gained.
pub proof fn law_report_is_of_the_account(d: DemoView, rt: RuntimeView, db_path: Seq<char>)
    requires
        rt.equity() is Some,
        rt.net_pnl() is Some,
    ensures
        ({
            let r = d.report(rt, db_path);
            &&& r.intents == d.intents && r.orders == d.orders && r.fills == d.fills
            &&& r.live_ticks == d.live_ticks && r.total_ticks == 16
            &&& r.restored_orders == d.restored_orders && r.db_path == db_path
            &&& Some(r.equity) == rt.equity() && Some(r.net_pnl) == rt.net_pnl()
            &&& match table::lookup(
                rt.portfolio.balances,
                rt.account_id + ":"@ + rt.quote_asset,
            ) {
                Some(b) => r.final_quote == b.free,
                None => r.final_quote.units() == 0,
            }
            &&& match table::lookup(rt.portfolio.balances, rt.account_id + ":"@ + rt.base_asset) {
                Some(b) => r.final_base == b.free,
                None => r.final_base.units() == 0,
            }
        }),
{
    crate::decimal::lemma_sign_of_units(DecimalView::zero());
}

} // verus!

//! Independent risk engine — all configured limits are enforced.
//!
//! Market orders use mid/last as notional reference; without a reference
//! price they are rejected (cannot silently bypass max_order_notional).

use std::collections::VecDeque;
use vstd::prelude::*;
use vstd::string::*;

use crate::decimal::{Decimal, DecimalView};
use crate::decimal;
use crate::domain::{
    try_worth_at, DecisionView, Instrument, InstrumentView, IntentView, LimitsView, OrderIntent, OrderSide,
    OrderType, RiskDecision, RiskLimitConfig,
};
use crate::domain;
use crate::ids::{now_ms, AccountId, StrategyInstanceId, TimestampMs, CLOCK_RANGE_MS};
use crate::ids;
use crate::portfolio::{Portfolio, PortfolioView};
use crate::table::Table;
use crate::table;
use crate::text::{join2, join4, u64_text};
use crate::text;
use crate::views;
use crate::window::{drop_oldest, expired};
use crate::window;

verus! {

#[derive(Debug)]
pub struct KillSwitch {
    pub engaged: bool,
    pub reason: Option<String>,
    pub engaged_at: Option<TimestampMs>,
}

/// What a [`KillSwitch`] holds.
#[verifier::ext_equal]
pub struct SwitchView {
    pub engaged: bool,
    pub reason: Option<Seq<char>>,
    pub engaged_at: Option<TimestampMs>,
}

impl View for KillSwitch {
    type V = SwitchView;

    open spec fn view(&self) -> SwitchView {
        SwitchView {
            engaged: self.engaged,
            reason: views::opt_view(self.reason),
            engaged_at: self.engaged_at,
        }
    }
}

impl SwitchView {
    pub open spec fn released() -> SwitchView {
        SwitchView { engaged: false, reason: None, engaged_at: None }
    }

    pub open spec fn engaged(reason: Seq<char>, now: TimestampMs) -> SwitchView {
        SwitchView { engaged: true, reason: Some(reason), engaged_at: Some(now) }
    }
}

impl KillSwitch {
    pub fn engage(&mut self, reason: &str)
        ensures
            exists|now: TimestampMs|
                ids::clock_gives(now) && final(self)@ == #[trigger] SwitchView::engaged(
                    reason@,
                    now,
                ),
    {
        self.engage_at(reason, now_ms());
    }

    pub fn engage_at(&mut self, reason: &str, now: TimestampMs)
        ensures
            final(self)@ == SwitchView::engaged(reason@, now),
    {
        self.engaged = true;
        self.reason = Some(reason.to_owned());
        self.engaged_at = Some(now);
    }

    pub fn release(&mut self)
        ensures
            final(self)@ == SwitchView::released(),
    {
        self.engaged = false;
        self.reason = None;
        self.engaged_at = None;
    }
}

impl Default for KillSwitch {
    fn default() -> (r: Self)
        ensures
            r@ == SwitchView::released(),
    {
        KillSwitch { engaged: false, reason: None, engaged_at: None }
    }
}

/// What a rule says of an intent.
pub enum Verdict {
    Pass,
    Reject { rule: Seq<char>, message: Seq<char> },
    /// A number that the rule needs is out of range.
    OutOfRange,
}

impl Verdict {
    /// This verdict, or the next one when this rule lets the intent pass.
    pub open spec fn next(self, other: Verdict) -> Verdict {
        if self is Pass {
            other
        } else {
            self
        }
    }
}

/// What a rule says of an intent.
enum Check {
    Pass,
    Reject(String, String),
    OutOfRange,
}

impl View for Check {
    type V = Verdict;

    closed spec fn view(&self) -> Verdict {
        match self {
            Check::Pass => Verdict::Pass,
            Check::Reject(rule, message) => Verdict::Reject { rule: rule@, message: message@ },
            Check::OutOfRange => Verdict::OutOfRange,
        }
    }
}

impl Check {
    fn reject(rule: &str, message: &str) -> (r: Check)
        ensures
            r@ == (Verdict::Reject { rule: rule@, message: message@ }),
    {
        Check::Reject(rule.to_owned(), message.to_owned())
    }

    fn passes(&self) -> (r: bool)
        ensures
            r == self@ is Pass,
    {
        matches!(self, Check::Pass)
    }
}

/// Everything a check looks at besides the engine itself.
pub struct CheckInput {
    pub intent: IntentView,
    pub instrument: InstrumentView,
    pub market_ref: Option<DecimalView>,
    pub market_age_ms: Option<u64>,
    pub portfolio: PortfolioView,
}

impl CheckInput {
    /// What the order is worth, if there is a price for it: the market
    /// reference for a market order, else its own price or the market
    /// reference. The outer option says whether it is in range.
    pub open spec fn notional(self) -> Option<Option<DecimalView>> {
        domain::worth_at(
            self.intent.order_type,
            self.intent.price,
            self.intent.quantity,
            self.market_ref,
        )
    }

    /// The prices at which a drawdown is measured.
    pub open spec fn marks(self) -> Seq<(Seq<char>, DecimalView)> {
        let quote = table::put(
            Seq::empty(),
            self.instrument.quote_asset,
            DecimalView::of(1, 0),
        );
        match self.market_ref {
            Some(p) => table::put(quote, self.instrument.base_asset, p),
            None => quote,
        }
    }

    /// The price at which the exposure is measured.
    pub open spec fn exposure_mark(self, notional: DecimalView) -> Option<DecimalView> {
        match self.market_ref {
            Some(p) => Some(p),
            None => if self.intent.quantity.mantissa == 0 {
                Some(DecimalView::zero())
            } else {
                notional.over(self.intent.quantity)
            },
        }
    }

    /// The net exposure with the order on top.
    pub open spec fn projected(self, notional: DecimalView) -> Option<DecimalView> {
        let signed = match self.intent.side {
            OrderSide::Buy => notional,
            OrderSide::Sell => notional.neg(),
        };
        match self.exposure_mark(notional) {
            None => None,
            Some(mark) => match self.portfolio.notionals(
                self.intent.account_id,
                self.instrument,
                mark,
            ) {
                None => None,
                Some(n) => n.0.plus(signed),
            },
        }
    }

    /// How far the order's price is from the market, as a fraction of it;
    /// asked only where both are there and the market is not zero.
    pub open spec fn deviation(self) -> Option<DecimalView> {
        let mid = self.market_ref->0;
        match (self.intent.price->0).minus(mid) {
            None => None,
            Some(d) => match d.over(mid) {
                None => None,
                Some(q) => Some(q.abs()),
            },
        }
    }
}

/// What is booked under a key.
pub open spec fn booked(t: Seq<(Seq<char>, DecimalView)>, key: Seq<char>) -> DecimalView {
    match table::lookup(t, key) {
        Some(d) => d,
        None => DecimalView::zero(),
    }
}

/// How many are counted under a key.
pub open spec fn counted(t: Seq<(Seq<char>, u32)>, key: Seq<char>) -> u32 {
    match table::lookup(t, key) {
        Some(n) => n,
        None => 0,
    }
}

/// What a [`RiskEngine`] holds.
#[verifier::ext_equal]
pub struct RiskView {
    pub limits: LimitsView,
    pub kill_switch: SwitchView,
    pub consecutive_rejects: u32,
    /// When orders were approved, oldest first.
    pub order_times: Seq<TimestampMs>,
    /// Notional of open orders by strategy and by account.
    pub open_notional_by_strategy: Seq<(Seq<char>, DecimalView)>,
    pub open_notional_by_account: Seq<(Seq<char>, DecimalView)>,
    pub active_orders_by_strategy: Seq<(Seq<char>, u32)>,
    pub daily_realized_pnl: DecimalView,
    pub high_water_equity: DecimalView,
    pub feeds_connected: bool,
}

impl RiskView {
    pub open spec fn fresh(limits: LimitsView) -> RiskView {
        RiskView {
            limits,
            kill_switch: SwitchView::released(),
            consecutive_rejects: 0,
            order_times: Seq::empty(),
            open_notional_by_strategy: Seq::empty(),
            open_notional_by_account: Seq::empty(),
            active_orders_by_strategy: Seq::empty(),
            daily_realized_pnl: DecimalView::zero(),
            high_water_equity: DecimalView::zero(),
            feeds_connected: true,
        }
    }

    pub open spec fn switch_rule(self) -> Verdict {
        if self.kill_switch.engaged {
            Verdict::Reject {
                rule: "kill_switch"@,
                message: match self.kill_switch.reason {
                    Some(reason) => reason,
                    None => "engaged"@,
                },
            }
        } else {
            Verdict::Pass
        }
    }

    pub open spec fn feeds_rule(self) -> Verdict {
        if self.limits.pause_on_disconnect && !self.feeds_connected {
            Verdict::Reject {
                rule: "feeds_down"@,
                message: "market/account feed disconnected"@,
            }
        } else {
            Verdict::Pass
        }
    }

    pub open spec fn daily_loss_rule(self) -> Verdict {
        let pnl = self.daily_realized_pnl;
        match self.limits.max_daily_loss {
            Some(max) if pnl.lt(DecimalView::zero()) && max.lt(pnl.neg()) => Verdict::Reject {
                rule: "max_daily_loss"@,
                message: "daily loss "@ + pnl.text() + " exceeds "@ + max.text(),
            },
            _ => Verdict::Pass,
        }
    }

    /// How far equity is below its high-water mark, as a fraction of it.
    pub open spec fn drawdown(self, x: CheckInput) -> Option<DecimalView> {
        match x.portfolio.equity(x.intent.account_id, x.instrument.quote_asset, x.marks()) {
            None => None,
            Some(equity) => match self.high_water_equity.minus(equity) {
                None => None,
                Some(d) => d.over(self.high_water_equity),
            },
        }
    }

    pub open spec fn drawdown_rule(self, x: CheckInput) -> Verdict {
        match self.limits.max_drawdown {
            None => Verdict::Pass,
            Some(max) => if self.high_water_equity.mantissa == 0 {
                Verdict::Pass
            } else {
                match self.drawdown(x) {
                    None => Verdict::OutOfRange,
                    Some(dd) => if max.lt(dd) {
                        Verdict::Reject {
                            rule: "max_drawdown"@,
                            message: "drawdown "@ + dd.text() + " exceeds "@ + max.text(),
                        }
                    } else {
                        Verdict::Pass
                    },
                }
            },
        }
    }

    pub open spec fn whitelist_rule(self, x: CheckInput) -> Verdict {
        if self.limits.instrument_whitelist.len() == 0 {
            Verdict::Reject {
                rule: "instrument_whitelist"@,
                message: "whitelist empty = deny all"@,
            }
        } else if !self.limits.instrument_whitelist.contains(x.instrument.id) {
            Verdict::Reject {
                rule: "instrument_whitelist"@,
                message: x.instrument.id + " not in whitelist"@,
            }
        } else {
            Verdict::Pass
        }
    }

    pub open spec fn price_rule(self, x: CheckInput) -> Verdict {
        match x.intent.price {
            None => Verdict::Pass,
            Some(px) => if !x.instrument.price_in_range(px) {
                Verdict::OutOfRange
            } else if !x.instrument.price_valid(px) {
                Verdict::Reject { rule: "price_filter"@, message: "price violates tick size"@ }
            } else {
                Verdict::Pass
            },
        }
    }

    pub open spec fn lot_rule(self, x: CheckInput) -> Verdict {
        if !x.instrument.qty_in_range(x.intent.quantity) {
            Verdict::OutOfRange
        } else if !x.instrument.qty_valid(x.intent.quantity) {
            Verdict::Reject { rule: "lot_size"@, message: "quantity violates step/min/max"@ }
        } else {
            Verdict::Pass
        }
    }

    pub open spec fn reference_rule(self, x: CheckInput) -> Verdict {
        match x.notional() {
            None => Verdict::OutOfRange,
            Some(None) => Verdict::Reject {
                rule: "missing_reference_price"@,
                message: "market order without market reference price; notional unknown"@,
            },
            Some(Some(_)) => Verdict::Pass,
        }
    }

    pub open spec fn min_notional_rule(self, x: CheckInput, notional: DecimalView) -> Verdict {
        if !x.instrument.notional_valid(notional) {
            Verdict::Reject { rule: "min_notional"@, message: "below min notional"@ }
        } else {
            Verdict::Pass
        }
    }

    pub open spec fn order_notional_rule(self, notional: DecimalView) -> Verdict {
        match self.limits.max_order_notional {
            Some(max) if max.lt(notional) => Verdict::Reject {
                rule: "max_order_notional"@,
                message: "order notional "@ + notional.text() + " exceeds "@ + max.text(),
            },
            _ => Verdict::Pass,
        }
    }

    pub open spec fn strategy_rule(self, x: CheckInput, notional: DecimalView) -> Verdict {
        open_notional_rule(
            self.limits.max_strategy_notional,
            booked(self.open_notional_by_strategy, x.intent.strategy_instance_id),
            notional,
            "max_strategy_notional"@,
            "strategy open+new "@,
        )
    }

    pub open spec fn account_rule(self, x: CheckInput, notional: DecimalView) -> Verdict {
        open_notional_rule(
            self.limits.max_account_notional,
            booked(self.open_notional_by_account, x.intent.account_id),
            notional,
            "max_account_notional"@,
            "account open+new "@,
        )
    }

    pub open spec fn exposure_rule(self, x: CheckInput, notional: DecimalView) -> Verdict {
        match self.limits.max_net_exposure {
            None => Verdict::Pass,
            Some(max) => match x.projected(notional) {
                None => Verdict::OutOfRange,
                Some(p) => if max.lt(p.abs()) {
                    Verdict::Reject {
                        rule: "max_net_exposure"@,
                        message: "projected net exposure "@ + p.text() + " exceeds "@ + max.text(),
                    }
                } else {
                    Verdict::Pass
                },
            },
        }
    }

    pub open spec fn leverage_rule(self, x: CheckInput) -> Verdict {
        match (self.limits.max_leverage, x.intent.leverage) {
            (Some(max), Some(lev)) if max.lt(lev) => Verdict::Reject {
                rule: "max_leverage"@,
                message: "leverage "@ + lev.text() + " exceeds "@ + max.text(),
            },
            _ => Verdict::Pass,
        }
    }

    pub open spec fn active_orders_rule(self, x: CheckInput) -> Verdict {
        let n = counted(self.active_orders_by_strategy, x.intent.strategy_instance_id);
        match self.limits.max_active_orders {
            Some(max) if n >= max => Verdict::Reject {
                rule: "max_active_orders"@,
                message: text::nat_text(n as nat) + " active orders >= "@ + text::nat_text(
                    max as nat,
                ),
            },
            _ => Verdict::Pass,
        }
    }

    pub open spec fn rate_rule(self, now: TimestampMs) -> Verdict {
        let n = window::recent(self.order_times, now).len();
        match self.limits.max_order_rate_per_min {
            Some(max) if n >= max => Verdict::Reject {
                rule: "max_order_rate_per_min"@,
                message: text::nat_text(n) + " orders/min >= "@ + text::nat_text(max as nat),
            },
            _ => Verdict::Pass,
        }
    }

    pub open spec fn stale_rule(self, x: CheckInput) -> Verdict {
        match (self.limits.max_market_age_ms, x.market_age_ms) {
            (None, _) => Verdict::Pass,
            (Some(_), None) => Verdict::Reject {
                rule: "stale_market"@,
                message: "no market data"@,
            },
            (Some(max), Some(age)) => if age > max {
                Verdict::Reject {
                    rule: "stale_market"@,
                    message: "market age "@ + text::nat_text(age as nat) + "ms > "@ + (
                    text::nat_text(max as nat) + "ms"@),
                }
            } else {
                Verdict::Pass
            },
        }
    }

    pub open spec fn deviation_rule(self, x: CheckInput) -> Verdict {
        match (self.limits.max_price_deviation, x.market_ref, x.intent.price) {
            (Some(max), Some(mid), Some(px)) => if mid.mantissa == 0 {
                Verdict::Pass
            } else {
                match x.deviation() {
                    None => Verdict::OutOfRange,
                    Some(dev) => if max.lt(dev) {
                        Verdict::Reject {
                            rule: "price_deviation"@,
                            message: "deviation "@ + dev.text() + " exceeds "@ + max.text(),
                        }
                    } else {
                        Verdict::Pass
                    },
                }
            },
            _ => Verdict::Pass,
        }
    }

    /// The rules that do not look at the order rate window yet.
    pub open spec fn first_rules(self, x: CheckInput) -> Verdict {
        let notional = x.notional()->0->0;
        self.switch_rule().next(self.feeds_rule()).next(self.daily_loss_rule()).next(
            self.drawdown_rule(x),
        ).next(self.whitelist_rule(x)).next(self.price_rule(x)).next(self.lot_rule(x)).next(
            self.reference_rule(x),
        ).next(self.min_notional_rule(x, notional)).next(self.order_notional_rule(notional)).next(
            self.strategy_rule(x, notional),
        ).next(self.account_rule(x, notional)).next(self.exposure_rule(x, notional)).next(
            self.leverage_rule(x),
        ).next(self.active_orders_rule(x))
    }

    /// What the rules say, the first one that objects speaking.
    pub open spec fn rules(self, x: CheckInput, now: TimestampMs) -> Verdict {
        self.first_rules(x).next(self.rate_rule(now)).next(self.stale_rule(x)).next(
            self.deviation_rule(x),
        )
    }

    /// Whether the counts and sums that the verdict changes stay in range.
    pub open spec fn can_record(self, x: CheckInput, now: TimestampMs) -> bool {
        match self.rules(x, now) {
            Verdict::OutOfRange => false,
            Verdict::Reject { .. } => self.consecutive_rejects < u32::MAX,
            Verdict::Pass => self.can_book(
                x.intent.strategy_instance_id,
                x.intent.account_id,
                x.notional()->0->0,
            ),
        }
    }

    /// What comes of an intent; nothing when a number on the way is out of
    /// range.
    pub open spec fn decision(self, x: CheckInput, now: TimestampMs) -> Option<DecisionView> {
        if !self.can_record(x, now) {
            None
        } else {
            match self.rules(x, now) {
                Verdict::Reject { rule, message } => Some(
                    DecisionView::Rejected { rule, message },
                ),
                _ => Some(DecisionView::Approved),
            }
        }
    }

    /// The engine with the order rate window brought up to `now`, as soon as
    /// the check gets that far.
    pub open spec fn windowed(self, x: CheckInput, now: TimestampMs) -> RiskView {
        if self.first_rules(x) is Pass && self.limits.max_order_rate_per_min is Some {
            RiskView { order_times: window::recent(self.order_times, now), ..self }
        } else {
            self
        }
    }

    /// The engine after a decision at `now`.
    pub open spec fn decided(self, x: CheckInput, now: TimestampMs) -> RiskView {
        if self.rules(x, now) is Pass {
            let w = self.windowed(x, now);
            RiskView { consecutive_rejects: 0, order_times: w.order_times.push(now), ..w }.with_order(
                x.intent.strategy_instance_id,
                x.intent.account_id,
                x.notional()->0->0,
            )
        } else {
            self.windowed(x, now).with_reject(now)
        }
    }

    /// One more rejection; too many in a row engage the kill switch.
    pub open spec fn with_reject(self, now: TimestampMs) -> RiskView {
        let n = (self.consecutive_rejects + 1) as u32;
        RiskView {
            consecutive_rejects: n,
            kill_switch: match self.limits.consecutive_reject_limit {
                Some(limit) if n >= limit && !self.kill_switch.engaged => SwitchView::engaged(
                    "consecutive rejects circuit breaker"@,
                    now,
                ),
                _ => self.kill_switch,
            },
            ..self
        }
    }

    /// Whether one more open order keeps sums and counts in range.
    pub open spec fn can_book(
        self,
        strategy: Seq<char>,
        account: Seq<char>,
        notional: DecimalView,
    ) -> bool {
        &&& booked(self.open_notional_by_strategy, strategy).plus(notional) is Some
        &&& booked(self.open_notional_by_account, account).plus(notional) is Some
        &&& counted(self.active_orders_by_strategy, strategy) < u32::MAX
    }

    /// One more open order.
    pub open spec fn with_order(
        self,
        strategy: Seq<char>,
        account: Seq<char>,
        notional: DecimalView,
    ) -> RiskView {
        RiskView {
            open_notional_by_strategy: table::put(
                self.open_notional_by_strategy,
                strategy,
                booked(self.open_notional_by_strategy, strategy).plus(notional)->0,
            ),
            open_notional_by_account: table::put(
                self.open_notional_by_account,
                account,
                booked(self.open_notional_by_account, account).plus(notional)->0,
            ),
            active_orders_by_strategy: table::put(
                self.active_orders_by_strategy,
                strategy,
                (counted(self.active_orders_by_strategy, strategy) + 1) as u32,
            ),
            ..self
        }
    }

    /// Whether one open order less keeps the sums in range.
    pub open spec fn can_release(
        self,
        strategy: Seq<char>,
        account: Seq<char>,
        notional: DecimalView,
    ) -> bool {
        &&& booked(self.open_notional_by_strategy, strategy).minus(notional) is Some
        &&& booked(self.open_notional_by_account, account).minus(notional) is Some
    }

    /// One open order less; the count does not go below zero.
    pub open spec fn without_order(
        self,
        strategy: Seq<char>,
        account: Seq<char>,
        notional: DecimalView,
    ) -> RiskView {
        let n = counted(self.active_orders_by_strategy, strategy);
        RiskView {
            open_notional_by_strategy: table::put(
                self.open_notional_by_strategy,
                strategy,
                booked(self.open_notional_by_strategy, strategy).minus(notional)->0,
            ),
            open_notional_by_account: table::put(
                self.open_notional_by_account,
                account,
                booked(self.open_notional_by_account, account).minus(notional)->0,
            ),
            active_orders_by_strategy: table::put(
                self.active_orders_by_strategy,
                strategy,
                if n > 0 {
                    (n - 1) as u32
                } else {
                    0
                },
            ),
            ..self
        }
    }

    /// The engine with new facts about equity and profit.
    pub open spec fn with_pnl_facts(
        self,
        equity: DecimalView,
        daily_realized_pnl: DecimalView,
    ) -> RiskView {
        RiskView {
            daily_realized_pnl,
            high_water_equity: if self.high_water_equity.lt(equity) {
                equity
            } else {
                self.high_water_equity
            },
            ..self
        }
    }
}

/// Open notional with the order on top must not exceed the limit.
pub open spec fn open_notional_rule(
    limit: Option<DecimalView>,
    open: DecimalView,
    notional: DecimalView,
    rule: Seq<char>,
    label: Seq<char>,
) -> Verdict {
    match limit {
        None => Verdict::Pass,
        Some(max) => match open.plus(notional) {
            None => Verdict::OutOfRange,
            Some(sum) => if max.lt(sum) {
                Verdict::Reject {
                    rule,
                    message: label + open.text() + "+"@ + (notional.text() + " exceeds "@
                        + max.text()),
                }
            } else {
                Verdict::Pass
            },
        },
    }
}

/// What is open, and the facts that the limits are held against.
pub struct RiskBooks {
    consecutive_rejects: u32,
    /// Rolling window of order-check timestamps (rate limit).
    order_times: VecDeque<TimestampMs>,
    /// Active (non-terminal) order notionals by strategy / account.
    open_notional_by_strategy: Table<Decimal>,
    open_notional_by_account: Table<Decimal>,
    active_orders_by_strategy: Table<u32>,
    daily_realized_pnl: Decimal,
    high_water_equity: Decimal,
    /// Set false when market/account stream drops and pause_on_disconnect is set.
    feeds_connected: bool,
}

/// What [`RiskBooks`] hold.
#[verifier::ext_equal]
pub struct BooksView {
    pub consecutive_rejects: u32,
    pub order_times: Seq<TimestampMs>,
    pub open_notional_by_strategy: Seq<(Seq<char>, DecimalView)>,
    pub open_notional_by_account: Seq<(Seq<char>, DecimalView)>,
    pub active_orders_by_strategy: Seq<(Seq<char>, u32)>,
    pub daily_realized_pnl: DecimalView,
    pub high_water_equity: DecimalView,
    pub feeds_connected: bool,
}

impl View for RiskBooks {
    type V = BooksView;

    closed spec fn view(&self) -> BooksView {
        BooksView {
            consecutive_rejects: self.consecutive_rejects,
            order_times: self.order_times@,
            open_notional_by_strategy: self.open_notional_by_strategy@,
            open_notional_by_account: self.open_notional_by_account@,
            active_orders_by_strategy: self.active_orders_by_strategy@,
            daily_realized_pnl: self.daily_realized_pnl@,
            high_water_equity: self.high_water_equity@,
            feeds_connected: self.feeds_connected,
        }
    }
}

/// Checks intents against the limits and keeps track of what is open. Limits
/// and kill switch are the owner's to set.
pub struct RiskEngine {
    pub limits: RiskLimitConfig,
    pub kill_switch: KillSwitch,
    pub books: RiskBooks,
}

impl View for RiskEngine {
    type V = RiskView;

    open spec fn view(&self) -> RiskView {
        RiskView {
            limits: self.limits@,
            kill_switch: self.kill_switch@,
            consecutive_rejects: self.books@.consecutive_rejects,
            order_times: self.books@.order_times,
            open_notional_by_strategy: self.books@.open_notional_by_strategy,
            open_notional_by_account: self.books@.open_notional_by_account,
            active_orders_by_strategy: self.books@.active_orders_by_strategy,
            daily_realized_pnl: self.books@.daily_realized_pnl,
            high_water_equity: self.books@.high_water_equity,
            feeds_connected: self.books@.feeds_connected,
        }
    }
}

/// What a check is handed.
pub open spec fn check_input(
    intent: &OrderIntent,
    instrument: &Instrument,
    market_ref: Option<Decimal>,
    market_age_ms: Option<u64>,
    portfolio: &Portfolio,
) -> CheckInput {
    CheckInput {
        intent: intent@,
        instrument: instrument@,
        market_ref: views::opt_view(market_ref),
        market_age_ms,
        portfolio: portfolio@,
    }
}

fn booked_of(t: &Table<Decimal>, key: &str) -> (r: Decimal)
    ensures
        r@ == booked(t@, key@),
{
    match t.get(key) {
        Some(d) => *d,
        None => Decimal::zero(),
    }
}

fn counted_of(t: &Table<u32>, key: &str) -> (r: u32)
    ensures
        r == counted(t@, key@),
{
    match t.get(key) {
        Some(n) => *n,
        None => 0,
    }
}

/// `label` `a` `middle` `b`.
fn two_numbers(label: &str, a: Decimal, middle: &str, b: Decimal) -> (r: String)
    ensures
        r@ == label@ + a@.text() + middle@ + b@.text(),
{
    let left = a.to_text();
    let right = b.to_text();
    join4(label, left.as_str(), middle, right.as_str())
}

/// What the order is worth, if there is a price for it.
pub(crate) fn order_notional(
    intent: &OrderIntent,
    market_ref: Option<Decimal>,
) -> (r: Option<Option<Decimal>>)
    ensures
        forall|x: CheckInput|
            x.intent == intent@ && x.market_ref == views::opt_view(market_ref) ==> match r {
                None => #[trigger] x.notional() is None,
                Some(n) => x.notional() == Some(views::opt_view(n)),
            },
{
    try_worth_at(intent.order_type, intent.price, intent.quantity, market_ref)
}

fn check_open_notional(
    limit: Option<Decimal>,
    open: Decimal,
    notional: Decimal,
    rule: &str,
    label: &str,
) -> (r: Check)
    ensures
        r@ == open_notional_rule(views::opt_view(limit), open@, notional@, rule@, label@),
{
    match limit {
        None => Check::Pass,
        Some(max) => match open.checked_add(notional) {
            None => Check::OutOfRange,
            Some(sum) => if sum > max {
                let open_text = open.to_text();
                let head = join2(label, open_text.as_str());
                let notional_text = notional.to_text();
                let max_text = max.to_text();
                let tail = join4(notional_text.as_str(), " exceeds ", max_text.as_str(), "");
                let message = join4(head.as_str(), "+", tail.as_str(), "");
                proof {
                    reveal_strlit("");
                    assert(tail@ =~= notional@.text() + " exceeds "@ + max@.text());
                    assert(message@ =~= label@ + open@.text() + "+"@ + (notional@.text()
                        + " exceeds "@ + max@.text()));
                }
                Check::Reject(rule.to_owned(), message)
            } else {
                Check::Pass
            },
        },
    }
}

impl RiskEngine {
    pub fn new(limits: RiskLimitConfig) -> (r: Self)
        ensures
            r@ == RiskView::fresh(limits@),
    {
        let r = RiskEngine {
            limits,
            kill_switch: KillSwitch::default(),
            books: RiskBooks {
                consecutive_rejects: 0,
                order_times: VecDeque::new(),
                open_notional_by_strategy: Table::new(),
                open_notional_by_account: Table::new(),
                active_orders_by_strategy: Table::new(),
                daily_realized_pnl: Decimal::zero(),
                high_water_equity: Decimal::zero(),
                feeds_connected: true,
            },
        };
        assert(r@ =~= RiskView::fresh(limits@));
        r
    }

    /// Safe default for process startup: no trading until explicitly enabled.
    pub fn new_safe_default() -> (r: Self)
        ensures
            exists|now: TimestampMs|
                ids::clock_gives(now) && r@ == (RiskView {
                    kill_switch: #[trigger] SwitchView::engaged("startup safe-default"@, now),
                    ..RiskView::fresh(LimitsView::defaults())
                }),
    {
        let mut e = RiskEngine::new(RiskLimitConfig::default());
        let now = now_ms();
        e.kill_switch.engage_at("startup safe-default", now);
        assert(e@ == (RiskView {
            kill_switch: SwitchView::engaged("startup safe-default"@, now),
            ..RiskView::fresh(LimitsView::defaults())
        }));
        e
    }

    /// Whether the kill switch is engaged.
    pub fn is_halted(&self) -> (r: bool)
        ensures
            r == self@.kill_switch.engaged,
    {
        self.kill_switch.engaged
    }

    pub fn set_feeds_connected(&mut self, connected: bool)
        ensures
            final(self)@ == (RiskView { feeds_connected: connected, ..old(self)@ }),
    {
        self.books.feeds_connected = connected;
    }

    /// Feed PnL / equity facts used by daily-loss and drawdown checks.
    pub fn update_pnl_facts(&mut self, equity: Decimal, daily_realized_pnl: Decimal)
        ensures
            final(self)@ == old(self)@.with_pnl_facts(equity@, daily_realized_pnl@),
    {
        self.books.daily_realized_pnl = daily_realized_pnl;
        if equity > self.books.high_water_equity {
            self.books.high_water_equity = equity;
        }
    }

    /// Takes an open order off the books, or says `false` and changes nothing
    /// when a sum is out of range.
    pub fn try_note_order_terminal(
        &mut self,
        strategy: &StrategyInstanceId,
        account: &AccountId,
        notional: Decimal,
    ) -> (r: bool)
        ensures
            r == old(self)@.can_release(strategy@, account@, notional@),
            r ==> final(self)@ == old(self)@.without_order(strategy@, account@, notional@),
            !r ==> final(self)@ == old(self)@,
    {
        let s = booked_of(&self.books.open_notional_by_strategy, strategy.as_str());
        let a = booked_of(&self.books.open_notional_by_account, account.as_str());
        let n = counted_of(&self.books.active_orders_by_strategy, strategy.as_str());
        match (s.checked_sub(notional), a.checked_sub(notional)) {
            (Some(s), Some(a)) => {
                self.books.open_notional_by_strategy.insert(strategy.as_str().to_owned(), s);
                self.books.open_notional_by_account.insert(account.as_str().to_owned(), a);
                let left: u32 = if n > 0 {
                    n - 1
                } else {
                    0
                };
                self.books.active_orders_by_strategy.insert(strategy.as_str().to_owned(), left);
                true
            },
            _ => false,
        }
    }

    /// Call when an order reaches a terminal state so open-notional caps free up.
    pub fn note_order_terminal(
        &mut self,
        strategy: &StrategyInstanceId,
        account: &AccountId,
        notional: Decimal,
    )
        requires
            old(self)@.can_release(strategy@, account@, notional@),
        ensures
            final(self)@ == old(self)@.without_order(strategy@, account@, notional@),
    {
        let done = self.try_note_order_terminal(strategy, account, notional);
        assert(done);
    }

    /// Puts an open order on the books, or says `false` and changes nothing when
    /// a sum or a count is out of range.
    pub fn try_note_order_restored(
        &mut self,
        strategy: &StrategyInstanceId,
        account: &AccountId,
        notional: Decimal,
    ) -> (r: bool)
        ensures
            r == old(self)@.can_book(strategy@, account@, notional@),
            r ==> final(self)@ == old(self)@.with_order(strategy@, account@, notional@),
            !r ==> final(self)@ == old(self)@,
    {
        let s = booked_of(&self.books.open_notional_by_strategy, strategy.as_str());
        let a = booked_of(&self.books.open_notional_by_account, account.as_str());
        let n = counted_of(&self.books.active_orders_by_strategy, strategy.as_str());
        match (s.checked_add(notional), a.checked_add(notional)) {
            (Some(s), Some(a)) => {
                if n == u32::MAX {
                    return false;
                }
                self.books.open_notional_by_strategy.insert(strategy.as_str().to_owned(), s);
                self.books.open_notional_by_account.insert(account.as_str().to_owned(), a);
                self.books.active_orders_by_strategy.insert(strategy.as_str().to_owned(), n + 1);
                true
            },
            _ => false,
        }
    }

    /// Re-book an open order after process restart.
    pub fn note_order_restored(
        &mut self,
        strategy: &StrategyInstanceId,
        account: &AccountId,
        notional: Decimal,
    )
        requires
            old(self)@.can_book(strategy@, account@, notional@),
        ensures
            final(self)@ == old(self)@.with_order(strategy@, account@, notional@),
    {
        let done = self.try_note_order_restored(strategy, account, notional);
        assert(done);
    }

    fn check_switch(&self) -> (r: Check)
        ensures
            r@ == self@.switch_rule(),
    {
        if self.kill_switch.engaged {
            match &self.kill_switch.reason {
                Some(reason) => Check::reject("kill_switch", reason.as_str()),
                None => Check::reject("kill_switch", "engaged"),
            }
        } else {
            Check::Pass
        }
    }

    fn check_feeds(&self) -> (r: Check)
        ensures
            r@ == self@.feeds_rule(),
    {
        if self.limits.pause_on_disconnect && !self.books.feeds_connected {
            Check::reject("feeds_down", "market/account feed disconnected")
        } else {
            Check::Pass
        }
    }

    fn check_daily_loss(&self) -> (r: Check)
        ensures
            r@ == self@.daily_loss_rule(),
    {
        let pnl = self.books.daily_realized_pnl;
        match self.limits.max_daily_loss {
            Some(max) => if pnl < Decimal::zero() && pnl.negated() > max {
                Check::Reject(
                    "max_daily_loss".to_owned(),
                    two_numbers("daily loss ", pnl, " exceeds ", max),
                )
            } else {
                Check::Pass
            },
            None => Check::Pass,
        }
    }

    fn check_drawdown(
        &self,
        intent: &OrderIntent,
        instrument: &Instrument,
        market_ref: Option<Decimal>,
        portfolio: &Portfolio,
    ) -> (r: Check)
        ensures
            forall|x: CheckInput|
                x.intent == intent@ && x.instrument == instrument@ && x.market_ref
                    == views::opt_view(market_ref) && x.portfolio == portfolio@ ==> r@
                    == #[trigger] self@.drawdown_rule(x),
    {
        let max = match self.limits.max_drawdown {
            Some(max) => max,
            None => return Check::Pass,
        };
        if self.books.high_water_equity.is_zero() {
            return Check::Pass;
        }
        let mut marks: Table<Decimal> = Table::new();
        marks.insert(instrument.quote_asset.clone(), Decimal::one());
        if let Some(px) = market_ref {
            marks.insert(instrument.base_asset.clone(), px);
        }
        let equity = match portfolio.try_equity_mtm(
            &intent.account_id,
            instrument.quote_asset.as_str(),
            &marks,
        ) {
            Some(e) => e,
            None => return Check::OutOfRange,
        };
        let below = match self.books.high_water_equity.checked_sub(equity) {
            Some(d) => d,
            None => return Check::OutOfRange,
        };
        match below.checked_div(self.books.high_water_equity) {
            None => Check::OutOfRange,
            Some(dd) => if dd > max {
                Check::Reject(
                    "max_drawdown".to_owned(),
                    two_numbers("drawdown ", dd, " exceeds ", max),
                )
            } else {
                Check::Pass
            },
        }
    }

    fn check_whitelist(&self, instrument: &Instrument) -> (r: Check)
        ensures
            forall|x: CheckInput|
                x.instrument == instrument@ ==> r@ == #[trigger] self@.whitelist_rule(x),
    {
        let list = &self.limits.instrument_whitelist;
        let ghost ids = self@.limits.instrument_whitelist;
        if list.len() == 0 {
            return Check::reject("instrument_whitelist", "whitelist empty = deny all");
        }
        let mut i: usize = 0;
        while i < list.len()
            invariant
                i <= list@.len(),
                ids == views::seq_view(list@),
                ids == self@.limits.instrument_whitelist,
                forall|j: int| 0 <= j < i ==> #[trigger] ids[j] != instrument@.id,
            decreases list@.len() - i,
        {
            if list[i] == instrument.id {
                assert(ids[i as int] == instrument@.id);
                return Check::Pass;
            }
            i = i + 1;
        }
        Check::Reject(
            "instrument_whitelist".to_owned(),
            join2(instrument.id.as_str(), " not in whitelist"),
        )
    }

    fn check_filters(&self, intent: &OrderIntent, instrument: &Instrument) -> (r: Check)
        ensures
            forall|x: CheckInput|
                x.intent == intent@ && x.instrument == instrument@ ==> r@
                    == #[trigger] self@.price_rule(x).next(self@.lot_rule(x)),
    {
        if let Some(px) = intent.price {
            match instrument.try_validate_price(px) {
                None => return Check::OutOfRange,
                Some(valid) => if !valid {
                    return Check::reject("price_filter", "price violates tick size");
                },
            }
        }
        match instrument.try_validate_qty(intent.quantity) {
            None => Check::OutOfRange,
            Some(valid) => if !valid {
                Check::reject("lot_size", "quantity violates step/min/max")
            } else {
                Check::Pass
            },
        }
    }

    fn check_min_notional(&self, instrument: &Instrument, notional: Decimal) -> (r: Check)
        ensures
            forall|x: CheckInput|
                x.instrument == instrument@ ==> r@ == #[trigger] self@.min_notional_rule(
                    x,
                    notional@,
                ),
    {
        if !instrument.validate_notional(notional) {
            Check::reject("min_notional", "below min notional")
        } else {
            Check::Pass
        }
    }

    fn check_order_notional(&self, notional: Decimal) -> (r: Check)
        ensures
            r@ == self@.order_notional_rule(notional@),
    {
        match self.limits.max_order_notional {
            Some(max) => if notional > max {
                Check::Reject(
                    "max_order_notional".to_owned(),
                    two_numbers("order notional ", notional, " exceeds ", max),
                )
            } else {
                Check::Pass
            },
            None => Check::Pass,
        }
    }

    fn check_exposure(
        &self,
        intent: &OrderIntent,
        instrument: &Instrument,
        market_ref: Option<Decimal>,
        portfolio: &Portfolio,
        notional: Decimal,
    ) -> (r: Check)
        ensures
            forall|x: CheckInput|
                x.intent == intent@ && x.instrument == instrument@ && x.market_ref
                    == views::opt_view(market_ref) && x.portfolio == portfolio@ ==> r@
                    == #[trigger] self@.exposure_rule(x, notional@),
    {
        let max = match self.limits.max_net_exposure {
            Some(max) => max,
            None => return Check::Pass,
        };
        let signed = match intent.side {
            OrderSide::Buy => notional,
            OrderSide::Sell => notional.negated(),
        };
        let mark = match market_ref {
            Some(p) => p,
            None => if intent.quantity.is_zero() {
                Decimal::zero()
            } else {
                match notional.checked_div(intent.quantity) {
                    Some(p) => p,
                    None => return Check::OutOfRange,
                }
            },
        };
        let exposure = match portfolio.try_exposure_at(&intent.account_id, instrument, mark, 0) {
            Some(e) => e,
            None => return Check::OutOfRange,
        };
        match exposure.net_notional.checked_add(signed) {
            None => Check::OutOfRange,
            Some(projected) => if projected.abs() > max {
                Check::Reject(
                    "max_net_exposure".to_owned(),
                    two_numbers("projected net exposure ", projected, " exceeds ", max),
                )
            } else {
                Check::Pass
            },
        }
    }

    fn check_leverage(&self, intent: &OrderIntent) -> (r: Check)
        ensures
            forall|x: CheckInput|
                x.intent == intent@ ==> r@ == #[trigger] self@.leverage_rule(x),
    {
        match (self.limits.max_leverage, intent.leverage) {
            (Some(max), Some(lev)) => if lev > max {
                Check::Reject(
                    "max_leverage".to_owned(),
                    two_numbers("leverage ", lev, " exceeds ", max),
                )
            } else {
                Check::Pass
            },
            _ => Check::Pass,
        }
    }

    fn check_active_orders(&self, intent: &OrderIntent) -> (r: Check)
        ensures
            forall|x: CheckInput|
                x.intent == intent@ ==> r@ == #[trigger] self@.active_orders_rule(x),
    {
        let n = counted_of(
            &self.books.active_orders_by_strategy,
            intent.strategy_instance_id.as_str(),
        );
        match self.limits.max_active_orders {
            Some(max) => if n >= max {
                let have = u64_text(n as u64);
                let limit = u64_text(max as u64);
                let message = join4(have.as_str(), " active orders >= ", limit.as_str(), "");
                proof {
                    reveal_strlit("");
                    assert(message@ =~= text::nat_text(n as nat) + " active orders >= "@
                        + text::nat_text(max as nat));
                }
                Check::Reject("max_active_orders".to_owned(), message)
            } else {
                Check::Pass
            },
            None => Check::Pass,
        }
    }

    fn check_stale(&self, market_age_ms: Option<u64>) -> (r: Check)
        ensures
            forall|x: CheckInput|
                x.market_age_ms == market_age_ms ==> r@ == #[trigger] self@.stale_rule(x),
    {
        match (self.limits.max_market_age_ms, market_age_ms) {
            (None, _) => Check::Pass,
            (Some(_), None) => Check::reject("stale_market", "no market data"),
            (Some(max), Some(age)) => if age > max {
                let age_text = u64_text(age);
                let max_text = u64_text(max);
                let tail = join2(max_text.as_str(), "ms");
                Check::Reject(
                    "stale_market".to_owned(),
                    join4("market age ", age_text.as_str(), "ms > ", tail.as_str()),
                )
            } else {
                Check::Pass
            },
        }
    }

    fn check_deviation(&self, intent: &OrderIntent, market_ref: Option<Decimal>) -> (r: Check)
        ensures
            forall|x: CheckInput|
                x.intent == intent@ && x.market_ref == views::opt_view(market_ref) ==> r@
                    == #[trigger] self@.deviation_rule(x),
    {
        match (self.limits.max_price_deviation, market_ref, intent.price) {
            (Some(max), Some(mid), Some(px)) => {
                if mid.is_zero() {
                    return Check::Pass;
                }
                let off = match px.checked_sub(mid) {
                    Some(d) => d,
                    None => return Check::OutOfRange,
                };
                match off.checked_div(mid) {
                    None => Check::OutOfRange,
                    Some(q) => {
                        let dev = q.abs();
                        if dev > max {
                            Check::Reject(
                                "price_deviation".to_owned(),
                                two_numbers("deviation ", dev, " exceeds ", max),
                            )
                        } else {
                            Check::Pass
                        }
                    },
                }
            },
            _ => Check::Pass,
        }
    }
}

impl RiskEngine {
    /// The rules that do not look at the order rate window.
    fn run_first_rules(
        &self,
        intent: &OrderIntent,
        instrument: &Instrument,
        market_ref: Option<Decimal>,
        market_age_ms: Option<u64>,
        portfolio: &Portfolio,
    ) -> (r: (Check, Decimal))
        ensures
            ({
                let x = check_input(intent, instrument, market_ref, market_age_ms, portfolio);
                &&& r.0@ == self@.first_rules(x)
                &&& r.0@ is Pass ==> x.notional() == Some(Some(r.1@))
            }),
    {
        let ghost x = check_input(intent, instrument, market_ref, market_age_ms, portfolio);
        let zero = Decimal::zero();
        let c = self.check_switch();
        if !c.passes() {
            return (c, zero);
        }
        let c = self.check_feeds();
        if !c.passes() {
            return (c, zero);
        }
        let c = self.check_daily_loss();
        if !c.passes() {
            return (c, zero);
        }
        let c = self.check_drawdown(intent, instrument, market_ref, portfolio);
        assert(c@ == self@.drawdown_rule(x));
        if !c.passes() {
            return (c, zero);
        }
        let c = self.check_whitelist(instrument);
        assert(c@ == self@.whitelist_rule(x));
        if !c.passes() {
            return (c, zero);
        }
        let c = self.check_filters(intent, instrument);
        assert(c@ == self@.price_rule(x).next(self@.lot_rule(x)));
        if !c.passes() {
            return (c, zero);
        }
        // Notional — market orders MUST use market_ref (mid/last).
        let notional = match order_notional(intent, market_ref) {
            None => {
                assert(x.notional() is None);
                return (Check::OutOfRange, zero);
            },
            Some(None) => {
                assert(x.notional() == Some(None::<DecimalView>));
                return (
                    Check::reject(
                        "missing_reference_price",
                        "market order without market reference price; notional unknown",
                    ),
                    zero,
                );
            },
            Some(Some(n)) => n,
        };
        assert(x.notional() == Some(Some(notional@)));
        let c = self.check_min_notional(instrument, notional);
        assert(c@ == self@.min_notional_rule(x, notional@));
        if !c.passes() {
            return (c, zero);
        }
        let c = self.check_order_notional(notional);
        if !c.passes() {
            return (c, zero);
        }
        let open = booked_of(
            &self.books.open_notional_by_strategy,
            intent.strategy_instance_id.as_str(),
        );
        let c = check_open_notional(
            self.limits.max_strategy_notional,
            open,
            notional,
            "max_strategy_notional",
            "strategy open+new ",
        );
        assert(c@ == self@.strategy_rule(x, notional@));
        if !c.passes() {
            return (c, zero);
        }
        let open = booked_of(&self.books.open_notional_by_account, intent.account_id.as_str());
        let c = check_open_notional(
            self.limits.max_account_notional,
            open,
            notional,
            "max_account_notional",
            "account open+new ",
        );
        assert(c@ == self@.account_rule(x, notional@));
        if !c.passes() {
            return (c, zero);
        }
        let c = self.check_exposure(intent, instrument, market_ref, portfolio, notional);
        assert(c@ == self@.exposure_rule(x, notional@));
        if !c.passes() {
            return (c, zero);
        }
        let c = self.check_leverage(intent);
        assert(c@ == self@.leverage_rule(x));
        if !c.passes() {
            return (c, zero);
        }
        let c = self.check_active_orders(intent);
        assert(c@ == self@.active_orders_rule(x));
        (c, notional)
    }

    /// Decides on an intent at `now`; `None`, and no change, when a number on
    /// the way is out of range.
    pub fn try_check_intent_at(
        &mut self,
        intent: &OrderIntent,
        instrument: &Instrument,
        market_ref: Option<Decimal>,
        market_age_ms: Option<u64>,
        portfolio: &Portfolio,
        now: TimestampMs,
    ) -> (r: Option<RiskDecision>)
        requires
            -CLOCK_RANGE_MS <= now <= CLOCK_RANGE_MS,
        ensures
            ({
                let x = check_input(intent, instrument, market_ref, market_age_ms, portfolio);
                &&& views::opt_view(r) == old(self)@.decision(x, now)
                &&& r is None ==> final(self)@ == old(self)@
                &&& r is Some ==> final(self)@ == old(self)@.decided(x, now)
            }),
    {
        let ghost x = check_input(intent, instrument, market_ref, market_age_ms, portfolio);
        let ghost start = self@;
        let (first, notional) = self.run_first_rules(
            intent,
            instrument,
            market_ref,
            market_age_ms,
            portfolio,
        );
        let old_times: usize = if first.passes() && self.limits.max_order_rate_per_min.is_some() {
            expired(&self.books.order_times, now)
        } else {
            0
        };
        let last = if first.passes() {
            let in_window = self.books.order_times.len() - old_times;
            let rate = match self.limits.max_order_rate_per_min {
                Some(max) => if in_window as u64 >= max as u64 {
                    let have = u64_text(in_window as u64);
                    let limit = u64_text(max as u64);
                    let message = join4(have.as_str(), " orders/min >= ", limit.as_str(), "");
                    proof {
                        reveal_strlit("");
                        assert(message@ =~= text::nat_text(in_window as nat) + " orders/min >= "@
                            + text::nat_text(max as nat));
                    }
                    Check::Reject("max_order_rate_per_min".to_owned(), message)
                } else {
                    Check::Pass
                },
                None => Check::Pass,
            };
            assert(rate@ == self@.rate_rule(now));
            if !rate.passes() {
                rate
            } else {
                let stale = self.check_stale(market_age_ms);
                assert(stale@ == self@.stale_rule(x));
                if !stale.passes() {
                    stale
                } else {
                    let dev = self.check_deviation(intent, market_ref);
                    assert(dev@ == self@.deviation_rule(x));
                    dev
                }
            }
        } else {
            first
        };
        assert(last@ == start.rules(x, now));
        match last {
            Check::OutOfRange => None,
            Check::Reject(rule, message) => {
                if self.books.consecutive_rejects == u32::MAX {
                    return None;
                }
                drop_oldest(&mut self.books.order_times, old_times);
                self.count_reject(now);
                Some(RiskDecision::Rejected { rule, message })
            },
            Check::Pass => {
                let s = booked_of(
                    &self.books.open_notional_by_strategy,
                    intent.strategy_instance_id.as_str(),
                );
                let a = booked_of(&self.books.open_notional_by_account, intent.account_id.as_str());
                let n = counted_of(
                    &self.books.active_orders_by_strategy,
                    intent.strategy_instance_id.as_str(),
                );
                if s.checked_add(notional).is_none() || a.checked_add(notional).is_none() || n
                    == u32::MAX {
                    return None;
                }
                drop_oldest(&mut self.books.order_times, old_times);
                // Approved — book open notional and rate window.
                self.books.consecutive_rejects = 0;
                self.books.order_times.push_back(now);
                self.note_order_restored(
                    &intent.strategy_instance_id,
                    &intent.account_id,
                    notional,
                );
                Some(RiskDecision::Approved)
            },
        }
    }

    /// Counts a rejection; too many in a row engage the kill switch.
    fn count_reject(&mut self, now: TimestampMs)
        requires
            old(self)@.consecutive_rejects < u32::MAX,
        ensures
            final(self)@ == old(self)@.with_reject(now),
    {
        self.books.consecutive_rejects = self.books.consecutive_rejects + 1;
        if let Some(limit) = self.limits.consecutive_reject_limit {
            if self.books.consecutive_rejects >= limit && !self.kill_switch.engaged {
                self.kill_switch.engage_at("consecutive rejects circuit breaker", now);
            }
        }
    }
}

impl RiskEngine {
    /// Decides on an intent now; `None`, and no change, when a number on the
    /// way is out of range.
    pub fn try_check_intent(
        &mut self,
        intent: &OrderIntent,
        instrument: &Instrument,
        market_ref: Option<Decimal>,
        market_age_ms: Option<u64>,
        portfolio: &Portfolio,
    ) -> (r: Option<RiskDecision>)
        ensures
            ({
                let x = check_input(intent, instrument, market_ref, market_age_ms, portfolio);
                exists|now: TimestampMs|
                    {
                        &&& ids::clock_gives(now)
                        &&& views::opt_view(r) == #[trigger] old(self)@.decision(x, now)
                        &&& r is None ==> final(self)@ == old(self)@
                        &&& r is Some ==> final(self)@ == old(self)@.decided(x, now)
                    }
            }),
    {
        let ghost x = check_input(intent, instrument, market_ref, market_age_ms, portfolio);
        let now = now_ms();
        let r = self.try_check_intent_at(
            intent,
            instrument,
            market_ref,
            market_age_ms,
            portfolio,
            now,
        );
        assert(views::opt_view(r) == old(self)@.decision(x, now));
        r
    }

    pub fn check_intent(
        &mut self,
        intent: &OrderIntent,
        instrument: &Instrument,
        market_ref: Option<Decimal>,
        market_age_ms: Option<u64>,
        portfolio: &Portfolio,
    ) -> (r: RiskDecision)
        requires
            forall|now: TimestampMs|
                ids::clock_gives(now) ==> #[trigger] old(self)@.decision(
                    check_input(intent, instrument, market_ref, market_age_ms, portfolio),
                    now,
                ) is Some,
        ensures
            ({
                let x = check_input(intent, instrument, market_ref, market_age_ms, portfolio);
                exists|now: TimestampMs|
                    {
                        &&& ids::clock_gives(now)
                        &&& Some(r@) == #[trigger] old(self)@.decision(x, now)
                        &&& final(self)@ == old(self)@.decided(x, now)
                    }
            }),
    {
        self.try_check_intent(intent, instrument, market_ref, market_age_ms, portfolio).unwrap()
    }
}

/// While the kill switch is engaged nothing is approved, and the reason is
/// given.
pub proof fn law_kill_switch_stops_all(e: RiskView, x: CheckInput, now: TimestampMs)
    requires
        e.kill_switch.engaged,
        e.consecutive_rejects < u32::MAX,
    ensures
        e.decision(x, now) == Some(
            DecisionView::Rejected {
                rule: "kill_switch"@,
                message: match e.kill_switch.reason {
                    Some(reason) => reason,
                    None => "engaged"@,
                },
            },
        ),
{
}

/// An empty whitelist denies all.
pub proof fn law_empty_whitelist_denies_all(e: RiskView, x: CheckInput, now: TimestampMs)
    requires
        e.limits.instrument_whitelist.len() == 0,
    ensures
        e.decision(x, now) != Some(DecisionView::Approved),
{
}

/// A market order without a market reference price is never approved, whatever
/// price it names.
pub proof fn law_market_order_needs_reference(e: RiskView, x: CheckInput, now: TimestampMs)
    requires
        x.intent.order_type == OrderType::Market,
        x.market_ref is None,
    ensures
        e.decision(x, now) != Some(DecisionView::Approved),
{
}

/// All configured limits are enforced: whatever is approved is within each of
/// them.
pub proof fn law_approved_is_within_limits(e: RiskView, x: CheckInput, now: TimestampMs)
    requires
        e.decision(x, now) == Some(DecisionView::Approved),
    ensures
        !e.kill_switch.engaged,
        e.limits.pause_on_disconnect ==> e.feeds_connected,
        e.limits.max_daily_loss matches Some(max) ==> e.daily_realized_pnl.lt(DecimalView::zero())
            ==> e.daily_realized_pnl.neg().le(max),
        e.limits.max_drawdown matches Some(max) ==> e.high_water_equity.mantissa != 0 ==> (
        e.drawdown(x) matches Some(dd) && dd.le(max)),
        e.limits.instrument_whitelist.contains(x.instrument.id),
        x.intent.price matches Some(px) ==> x.instrument.price_valid(px),
        x.instrument.qty_valid(x.intent.quantity),
        x.notional() matches Some(Some(notional)) && {
            &&& x.instrument.notional_valid(notional)
            &&& e.limits.max_order_notional matches Some(max) ==> notional.le(max)
            &&& e.limits.max_strategy_notional matches Some(max) ==> (booked(
                e.open_notional_by_strategy,
                x.intent.strategy_instance_id,
            ).plus(notional) matches Some(sum) && sum.le(max))
            &&& e.limits.max_account_notional matches Some(max) ==> (booked(
                e.open_notional_by_account,
                x.intent.account_id,
            ).plus(notional) matches Some(sum) && sum.le(max))
            &&& e.limits.max_net_exposure matches Some(max) ==> (x.projected(
                notional,
            ) matches Some(p) && p.abs().le(max))
        },
        e.limits.max_leverage matches Some(max) ==> (x.intent.leverage matches Some(lev) ==> lev.le(
            max,
        )),
        e.limits.max_active_orders matches Some(max) ==> counted(
            e.active_orders_by_strategy,
            x.intent.strategy_instance_id,
        ) < max,
        e.limits.max_order_rate_per_min matches Some(max) ==> window::recent(e.order_times, now).len()
            < max,
        e.limits.max_market_age_ms matches Some(max) ==> (x.market_age_ms matches Some(age) && age
            <= max),
        e.limits.max_price_deviation matches Some(max) ==> (x.market_ref matches Some(mid)
            ==> x.intent.price is Some && mid.mantissa != 0 ==> (x.deviation() matches Some(dev)
            && dev.le(max))),
{
}

/// After as many rejections in a row as the limit allows, the kill switch is
/// engaged and says why; before that, and on an approval, it stays as it was. An
/// approval starts the count again.
pub proof fn law_circuit_breaker(e: RiskView, x: CheckInput, now: TimestampMs, limit: u32)
    requires
        e.limits.consecutive_reject_limit == Some(limit),
        e.decision(x, now) is Some,
    ensures
        e.decision(x, now) == Some(DecisionView::Approved) ==> {
            &&& e.decided(x, now).consecutive_rejects == 0
            &&& e.decided(x, now).kill_switch == e.kill_switch
        },
        e.decision(x, now) != Some(DecisionView::Approved) ==> {
            &&& e.decided(x, now).consecutive_rejects == e.consecutive_rejects + 1
            &&& e.consecutive_rejects + 1 >= limit && !e.kill_switch.engaged ==> e.decided(
                x,
                now,
            ).kill_switch == SwitchView::engaged("consecutive rejects circuit breaker"@, now)
            &&& e.consecutive_rejects + 1 < limit || e.kill_switch.engaged ==> e.decided(
                x,
                now,
            ).kill_switch == e.kill_switch
        },
{
}

/// A decision changes neither the limits nor the facts it was made on.
pub proof fn law_decision_keeps_limits(e: RiskView, x: CheckInput, now: TimestampMs)
    ensures
        e.decided(x, now).limits == e.limits,
        e.decided(x, now).daily_realized_pnl == e.daily_realized_pnl,
        e.decided(x, now).high_water_equity == e.high_water_equity,
        e.decided(x, now).feeds_connected == e.feeds_connected,
{
}

/// With an order rate limit no more orders than that are approved within a
/// minute: the window holds at most as many times as the limit.
pub proof fn law_order_rate_is_bounded(e: RiskView, x: CheckInput, now: TimestampMs, max: u32)
    requires
        e.limits.max_order_rate_per_min == Some(max),
        e.decision(x, now) == Some(DecisionView::Approved),
    ensures
        e.decided(x, now).order_times.len() <= max,
        e.decided(x, now).order_times == window::recent(e.order_times, now).push(now),
{
}

/// Noting that an order is over gives back what its approval took: open
/// notional and order count of its strategy and account are as before. Stated
/// where the sums need no rounding.
pub proof fn law_release_undoes_booking(
    e: RiskView,
    strategy: Seq<char>,
    account: Seq<char>,
    notional: DecimalView,
)
    requires
        e.can_book(strategy, account, notional),
        notional.wf(),
        booked(e.open_notional_by_strategy, strategy).wf(),
        booked(e.open_notional_by_account, account).wf(),
        booked(e.open_notional_by_strategy, strategy).adds_exactly(notional),
        booked(e.open_notional_by_account, account).adds_exactly(notional),
        booked(e.open_notional_by_strategy, strategy).exact_sum(notional).subtracts_exactly(
            notional,
        ),
        booked(e.open_notional_by_account, account).exact_sum(notional).subtracts_exactly(notional),
    ensures
        e.with_order(strategy, account, notional).can_release(strategy, account, notional),
        ({
            let back = e.with_order(strategy, account, notional).without_order(
                strategy,
                account,
                notional,
            );
            &&& booked(back.open_notional_by_strategy, strategy).same(
                booked(e.open_notional_by_strategy, strategy),
            )
            &&& booked(back.open_notional_by_account, account).same(
                booked(e.open_notional_by_account, account),
            )
            &&& counted(back.active_orders_by_strategy, strategy) == counted(
                e.active_orders_by_strategy,
                strategy,
            )
        }),
{
    let s = booked(e.open_notional_by_strategy, strategy);
    let a = booked(e.open_notional_by_account, account);
    let n = counted(e.active_orders_by_strategy, strategy);
    decimal::lemma_exact_sum(s, notional);
    decimal::lemma_exact_sum(a, notional);
    decimal::lemma_exact_difference(s.exact_sum(notional), notional);
    decimal::lemma_exact_difference(a.exact_sum(notional), notional);
    let up = e.with_order(strategy, account, notional);
    table::law_put(e.open_notional_by_strategy, strategy, s.plus(notional)->0, strategy);
    table::law_put(e.open_notional_by_account, account, a.plus(notional)->0, account);
    table::law_put(e.active_orders_by_strategy, strategy, (n + 1) as u32, strategy);
    let down = up.without_order(strategy, account, notional);
    table::law_put(
        up.open_notional_by_strategy,
        strategy,
        s.exact_sum(notional).minus(notional)->0,
        strategy,
    );
    table::law_put(
        up.open_notional_by_account,
        account,
        a.exact_sum(notional).minus(notional)->0,
        account,
    );
    table::law_put(up.active_orders_by_strategy, strategy, n, strategy);
}

/// An order is measured at the market where it is a market order or names no
/// price, else at its own price; without such a price its worth is unknown.
pub proof fn law_check_measures_price_times_quantity(x: CheckInput)
    ensures
        x.intent.order_type == OrderType::Market && x.market_ref is Some ==> domain::is_product(
            x.notional(),
            x.market_ref->0,
            x.intent.quantity,
        ),
        x.intent.order_type != OrderType::Market && x.intent.price is Some ==> domain::is_product(
            x.notional(),
            x.intent.price->0,
            x.intent.quantity,
        ),
        x.intent.price is None && x.market_ref is Some ==> domain::is_product(
            x.notional(),
            x.market_ref->0,
            x.intent.quantity,
        ),
        x.market_ref is None && (x.intent.order_type == OrderType::Market || x.intent.price is None)
            ==> x.notional() == Some(None::<DecimalView>),
{
    if x.market_ref is Some {
        domain::lemma_is_product(x.market_ref->0, x.intent.quantity);
    }
    if x.intent.price is Some {
        domain::lemma_is_product(x.intent.price->0, x.intent.quantity);
    }
}

/// Whether a price can be held against the market without rounding.
pub open spec fn compares_exactly(price: DecimalView, mid: DecimalView) -> bool {
    &&& price.wf()
    &&& mid.wf()
    &&& price.subtracts_exactly(mid)
    &&& price.exact_difference(mid).divides_exactly(mid)
}

proof fn lemma_deviation(x: CheckInput, price: DecimalView, mid: DecimalView)
    requires
        x.market_ref == Some(mid),
        x.intent.price == Some(price),
        mid.mantissa > 0,
        compares_exactly(price, mid),
    ensures
        x.deviation() is Some,
        (x.deviation()->0).units() * mid.units() == decimal::magnitude(
            price.units() - mid.units(),
        ) * decimal::pow10(28),
{
    let d = price.exact_difference(mid);
    decimal::lemma_exact_difference(price, mid);
    decimal::law_quotient_is_exact(d, mid);
    decimal::lemma_sign_of_units(mid);
    decimal::lemma_pow10_positive(28);
    let q = d.over(mid)->0;
    decimal::lemma_abs_units(q);
    let one = decimal::pow10(28) as int;
    let (a, b, c) = (q.units(), mid.units(), d.units());
    assert(a * b == c * one);
    assert((if a < 0 {
        -a
    } else {
        a
    }) * b == (if c < 0 {
        -c
    } else {
        c
    }) * one) by (nonlinear_arith)
        requires
            a * b == c * one,
            b > 0,
            one >= 1,
    ;
}

/// With a limit on it, no approved price is further from a positive market than
/// that fraction of the market, neither above nor below. Stated where the
/// comparison needs no rounding.
pub proof fn law_approved_price_is_near_the_market(
    e: RiskView,
    x: CheckInput,
    now: TimestampMs,
    price: DecimalView,
    mid: DecimalView,
    max: DecimalView,
)
    requires
        e.decision(x, now) == Some(DecisionView::Approved),
        e.limits.max_price_deviation == Some(max),
        x.intent.price == Some(price),
        x.market_ref == Some(mid),
        mid.units() > 0,
        compares_exactly(price, mid),
    ensures
        price.units() * decimal::pow10(28) <= mid.units() * decimal::pow10(28) + max.units()
            * mid.units(),
        mid.units() * decimal::pow10(28) - max.units() * mid.units() <= price.units()
            * decimal::pow10(28),
{
    decimal::lemma_sign_of_units(mid);
    lemma_deviation(x, price, mid);
    let dev = x.deviation()->0;
    let one = decimal::pow10(28) as int;
    let (p, m, d, t) = (price.units(), mid.units(), dev.units(), max.units());
    assert(dev.le(max));
    assert(d * m <= t * m) by (nonlinear_arith)
        requires
            d <= t,
            m > 0,
    ;
    let gap = decimal::magnitude(p - m);
    decimal::lemma_pow10_positive(28);
    assert((p - m) * one <= gap * one && (m - p) * one <= gap * one) by (nonlinear_arith)
        requires
            p - m <= gap,
            m - p <= gap,
            one >= 1,
    ;
    assert((p - m) * one == p * one - m * one) by (nonlinear_arith);
    assert((m - p) * one == m * one - p * one) by (nonlinear_arith);
}

/// With a limit on it, nothing is approved while the equity of the account is
/// further below its high-water mark than that fraction of it. Stated where the
/// comparison needs no rounding.
pub proof fn law_approved_equity_is_near_its_peak(
    e: RiskView,
    x: CheckInput,
    now: TimestampMs,
    equity: DecimalView,
    max: DecimalView,
)
    requires
        e.decision(x, now) == Some(DecisionView::Approved),
        e.limits.max_drawdown == Some(max),
        x.portfolio.equity(x.intent.account_id, x.instrument.quote_asset, x.marks()) == Some(
            equity,
        ),
        e.high_water_equity.units() > 0,
        e.high_water_equity.wf(),
        equity.wf(),
        e.high_water_equity.subtracts_exactly(equity),
        e.high_water_equity.exact_difference(equity).divides_exactly(e.high_water_equity),
    ensures
        e.high_water_equity.units() * decimal::pow10(28) - max.units()
            * e.high_water_equity.units() <= equity.units() * decimal::pow10(28),
{
    lemma_drawdown(e, x, equity);
    let top = e.high_water_equity;
    let dd = e.drawdown(x)->0;
    decimal::lemma_sign_of_units(top);
    assert(dd.le(max));
    let one = decimal::pow10(28) as int;
    let (h, q, d, t) = (top.units(), equity.units(), dd.units(), max.units());
    assert(d * h <= t * h) by (nonlinear_arith)
        requires
            d <= t,
            h > 0,
    ;
    assert((h - q) * one == h * one - q * one) by (nonlinear_arith);
}

proof fn lemma_drawdown(e: RiskView, x: CheckInput, equity: DecimalView)
    requires
        x.portfolio.equity(x.intent.account_id, x.instrument.quote_asset, x.marks()) == Some(
            equity,
        ),
        e.high_water_equity.units() > 0,
        e.high_water_equity.wf(),
        equity.wf(),
        e.high_water_equity.subtracts_exactly(equity),
        e.high_water_equity.exact_difference(equity).divides_exactly(e.high_water_equity),
    ensures
        e.drawdown(x) is Some,
        (e.drawdown(x)->0).units() * e.high_water_equity.units() == (e.high_water_equity.units()
            - equity.units()) * decimal::pow10(28),
{
    let top = e.high_water_equity;
    decimal::lemma_exact_difference(top, equity);
    decimal::law_quotient_is_exact(top.exact_difference(equity), top);
}

/// Equity is measured with the base asset at the market reference and the quote
/// asset at one; no other asset has a price.
pub proof fn law_drawdown_is_measured_at_the_market(x: CheckInput, asset: Seq<char>)
    ensures
        asset == x.instrument.base_asset && x.market_ref is Some ==> table::lookup(
            x.marks(),
            asset,
        ) == x.market_ref,
        asset == x.instrument.quote_asset && (x.market_ref is None || asset
            != x.instrument.base_asset) ==> table::lookup(x.marks(), asset) == Some(
            DecimalView::of(1, 0),
        ),
        asset != x.instrument.quote_asset && (x.market_ref is None || asset
            != x.instrument.base_asset) ==> table::lookup(x.marks(), asset) is None,
{
    let none: Seq<(Seq<char>, DecimalView)> = Seq::empty();
    let one = DecimalView::of(1, 0);
    let quote = table::put(none, x.instrument.quote_asset, one);
    table::law_put(none, x.instrument.quote_asset, one, asset);
    if x.market_ref is Some {
        table::law_put(quote, x.instrument.base_asset, x.market_ref->0, asset);
    }
    assert(table::index_of(none, asset) is None);
}

/// With a limit on it, the net exposure with an approved order on top is within
/// the limit in both directions: what the account holds and its contracts at
/// the market reference, plus a purchase or less a sale. Stated where the sums
/// need no rounding.
pub proof fn law_approved_exposure_is_limited(
    e: RiskView,
    x: CheckInput,
    now: TimestampMs,
    mark: DecimalView,
    spot: DecimalView,
    contract: DecimalView,
    notional: DecimalView,
    max: DecimalView,
)
    requires
        e.decision(x, now) == Some(DecisionView::Approved),
        e.limits.max_net_exposure == Some(max),
        x.market_ref == Some(mark),
        x.notional() == Some(Some(notional)),
        spot.wf(),
        contract.wf(),
        notional.wf(),
        spot.adds_exactly(contract),
        spot.abs().adds_exactly(contract.abs()),
        match table::lookup(
            x.portfolio.balances,
            x.intent.account_id + ":"@ + x.instrument.base_asset,
        ) {
            Some(b) => b.free.plus(b.locked) is Some && (b.free.plus(b.locked)->0).times(mark)
                == Some(spot),
            None => spot.mantissa == 0,
        },
        match table::lookup(x.portfolio.positions, x.intent.account_id + ":"@ + x.instrument.id) {
            Some(q) => q.size.times(x.instrument.contract_multiplier) is Some && (q.size.times(
                x.instrument.contract_multiplier,
            )->0).times(mark) == Some(contract),
            None => contract.mantissa == 0,
        },
        x.portfolio.exposure(x.intent.account_id, x.instrument, mark, now).net_notional.wf(),
        x.portfolio.exposure(
            x.intent.account_id,
            x.instrument,
            mark,
            now,
        ).net_notional.adds_exactly(
            if x.intent.side == OrderSide::Buy {
                notional
            } else {
                notional.neg()
            },
        ),
    ensures
        x.intent.side == OrderSide::Buy ==> -max.units() <= spot.units() + contract.units()
            + notional.units() <= max.units(),
        x.intent.side == OrderSide::Sell ==> -max.units() <= spot.units() + contract.units()
            - notional.units() <= max.units(),
{
    crate::portfolio::law_exposure_counts_holdings(
        x.portfolio,
        x.intent.account_id,
        x.instrument,
        mark,
        now,
        spot,
        contract,
    );
    let net = x.portfolio.exposure(x.intent.account_id, x.instrument, mark, now).net_notional;
    let signed = if x.intent.side == OrderSide::Buy {
        notional
    } else {
        notional.neg()
    };
    decimal::lemma_neg_units(notional);
    decimal::lemma_exact_sum(net, signed);
    let p = x.projected(notional)->0;
    assert(x.projected(notional) == net.plus(signed));
    decimal::lemma_abs_units(p);
    assert(p.abs().le(max));
}

/// Nothing is rejected without a cause: a rejection names a rule and that rule
/// is broken. So what breaks no rule is approved.
pub proof fn law_rejection_has_a_cause(
    e: RiskView,
    x: CheckInput,
    now: TimestampMs,
    rule: Seq<char>,
    message: Seq<char>,
)
    requires
        e.decision(x, now) == Some(DecisionView::Rejected { rule, message }),
    ensures
        rejection_is_explained(e, x, now, rule, message),
        ({
            let l = e.limits;
            let n = x.notional()->0->0;
            let strategy = booked(e.open_notional_by_strategy, x.intent.strategy_instance_id);
            let account = booked(e.open_notional_by_account, x.intent.account_id);
            ||| rule == "kill_switch"@ && e.kill_switch.engaged
            ||| rule == "feeds_down"@ && l.pause_on_disconnect && !e.feeds_connected
            ||| rule == "max_daily_loss"@ && l.max_daily_loss is Some
                && e.daily_realized_pnl.units() < 0 && -e.daily_realized_pnl.units() > (
            l.max_daily_loss->0).units()
            ||| rule == "max_drawdown"@ && l.max_drawdown is Some && e.high_water_equity.units()
                != 0 && e.drawdown(x) is Some && (e.drawdown(x)->0).units() > (
            l.max_drawdown->0).units()
            ||| rule == "instrument_whitelist"@ && !l.instrument_whitelist.contains(x.instrument.id)
            ||| rule == "price_filter"@ && x.intent.price is Some && !x.instrument.price_valid(
                x.intent.price->0,
            )
            ||| rule == "lot_size"@ && !x.instrument.qty_valid(x.intent.quantity)
            ||| rule == "missing_reference_price"@ && x.market_ref is None && (x.intent.order_type
                == OrderType::Market || x.intent.price is None)
            ||| rule == "min_notional"@ && x.instrument.min_notional is Some && n.units() < (
            x.instrument.min_notional->0).units()
            ||| rule == "max_order_notional"@ && l.max_order_notional is Some && n.units() > (
            l.max_order_notional->0).units()
            ||| rule == "max_strategy_notional"@ && l.max_strategy_notional is Some
                && strategy.plus(n) is Some && (strategy.plus(n)->0).units() > (
            l.max_strategy_notional->0).units()
            ||| rule == "max_account_notional"@ && l.max_account_notional is Some && account.plus(
                n,
            ) is Some && (account.plus(n)->0).units() > (l.max_account_notional->0).units()
            ||| rule == "max_net_exposure"@ && l.max_net_exposure is Some && x.projected(
                n,
            ) is Some && (x.projected(n)->0).abs().units() > (l.max_net_exposure->0).units()
            ||| rule == "max_leverage"@ && l.max_leverage is Some && x.intent.leverage is Some && (
            x.intent.leverage->0).units() > (l.max_leverage->0).units()
            ||| rule == "max_active_orders"@ && l.max_active_orders is Some && counted(
                e.active_orders_by_strategy,
                x.intent.strategy_instance_id,
            ) >= l.max_active_orders->0
            ||| rule == "max_order_rate_per_min"@ && l.max_order_rate_per_min is Some
                && window::recent(e.order_times, now).len() >= l.max_order_rate_per_min->0
            ||| rule == "stale_market"@ && l.max_market_age_ms is Some && (x.market_age_ms is None
                || x.market_age_ms->0 > l.max_market_age_ms->0)
            ||| rule == "price_deviation"@ && l.max_price_deviation is Some && x.market_ref is Some
                && x.intent.price is Some && (x.market_ref->0).units() != 0 && x.deviation() is Some
                && (x.deviation()->0).units() > (l.max_price_deviation->0).units()
        }),
{
    decimal::lemma_sign_of_units(DecimalView::zero());
    decimal::lemma_neg_units(e.daily_realized_pnl);
    decimal::lemma_sign_of_units(e.high_water_equity);
    if x.market_ref is Some {
        decimal::lemma_sign_of_units(x.market_ref->0);
    }
}

/// A price is within the limit on its distance from a positive market exactly
/// when it is no further from it than that fraction of it; a rejection for it
/// is never given to a price that is. Stated where the comparison needs no
/// rounding.
pub proof fn law_price_near_the_market_passes(
    e: RiskView,
    x: CheckInput,
    price: DecimalView,
    mid: DecimalView,
    max: DecimalView,
)
    requires
        e.limits.max_price_deviation == Some(max),
        x.intent.price == Some(price),
        x.market_ref == Some(mid),
        mid.units() > 0,
        compares_exactly(price, mid),
    ensures
        e.deviation_rule(x) is Pass <==> {
            &&& (price.units() - mid.units()) * decimal::pow10(28) <= max.units() * mid.units()
            &&& (mid.units() - price.units()) * decimal::pow10(28) <= max.units() * mid.units()
        },
        !(e.deviation_rule(x) is OutOfRange),
{
    decimal::lemma_sign_of_units(mid);
    lemma_deviation(x, price, mid);
    let one = decimal::pow10(28) as int;
    let (p, m, d, t) = (price.units(), mid.units(), (x.deviation()->0).units(), max.units());
    decimal::lemma_pow10_positive(28);
    let gap = decimal::magnitude(p - m);
    assert(d <= t <==> d * m <= t * m) by (nonlinear_arith)
        requires
            m > 0,
    ;
    assert(gap * one <= t * m <==> (p - m) * one <= t * m && (m - p) * one <= t * m)
        by (nonlinear_arith)
        requires
            gap == p - m || gap == m - p,
            gap >= 0,
            one >= 1,
    ;
}

/// Equity is within the limit on its distance from its peak exactly when it is
/// no further below than that fraction of it. Stated where the comparison needs
/// no rounding.
pub proof fn law_equity_near_its_peak_passes(
    e: RiskView,
    x: CheckInput,
    equity: DecimalView,
    max: DecimalView,
)
    requires
        e.limits.max_drawdown == Some(max),
        x.portfolio.equity(x.intent.account_id, x.instrument.quote_asset, x.marks()) == Some(
            equity,
        ),
        e.high_water_equity.units() > 0,
        e.high_water_equity.wf(),
        equity.wf(),
        e.high_water_equity.subtracts_exactly(equity),
        e.high_water_equity.exact_difference(equity).divides_exactly(e.high_water_equity),
    ensures
        e.drawdown_rule(x) is Pass <==> (e.high_water_equity.units() - equity.units())
            * decimal::pow10(28) <= max.units() * e.high_water_equity.units(),
        !(e.drawdown_rule(x) is OutOfRange),
{
    lemma_drawdown(e, x, equity);
    let top = e.high_water_equity;
    decimal::lemma_sign_of_units(top);
    let (h, d, t) = (top.units(), (e.drawdown(x)->0).units(), max.units());
    assert(d <= t <==> d * h <= t * h) by (nonlinear_arith)
        requires
            h > 0,
    ;
}

/// Of times in order, those of the last minute count towards the order rate: a
/// further order is approved only while they are fewer than the limit.
pub proof fn law_approved_rate_is_limited(
    e: RiskView,
    x: CheckInput,
    now: TimestampMs,
    max: u32,
    k: int,
)
    requires
        e.decision(x, now) == Some(DecisionView::Approved),
        e.limits.max_order_rate_per_min == Some(max),
        forall|i: int, j: int|
            0 <= i < j < e.order_times.len() ==> e.order_times[i] <= e.order_times[j],
        0 <= k <= e.order_times.len(),
        forall|i: int| 0 <= i < k ==> #[trigger] e.order_times[i] < now - 60_000,
        forall|i: int| k <= i < e.order_times.len() ==> now - 60_000 <= #[trigger] e.order_times[i],
    ensures
        e.order_times.len() - k < max,
{
    let times = e.order_times;
    window::law_recent_is_the_last_minute(times, now);
    let c = choose|c: int|
        {
            &&& 0 <= c <= times.len()
            &&& window::recent(times, now) == #[trigger] times.skip(c)
            &&& forall|i: int| 0 <= i < c ==> #[trigger] times[i] < now - window::WINDOW_MS
            &&& forall|i: int|
                c <= i < times.len() ==> now - window::WINDOW_MS <= #[trigger] times[i]
        };
    if c < k {
        assert(times[c] < now - 60_000);
    }
    if k < c {
        assert(times[k] < now - window::WINDOW_MS);
    }
}

/// With no limits but the whitelist set, a whitelisted order on the grids of
/// its instrument and with a known worth that is not too small is approved.
pub proof fn law_unlimited_is_approved(
    e: RiskView,
    x: CheckInput,
    now: TimestampMs,
    notional: DecimalView,
)
    requires
        !e.kill_switch.engaged,
        e.feeds_connected || !e.limits.pause_on_disconnect,
        e.limits.max_daily_loss is None,
        e.limits.max_drawdown is None,
        e.limits.max_order_notional is None,
        e.limits.max_strategy_notional is None,
        e.limits.max_account_notional is None,
        e.limits.max_net_exposure is None,
        e.limits.max_leverage is None,
        e.limits.max_active_orders is None,
        e.limits.max_order_rate_per_min is None,
        e.limits.max_market_age_ms is None,
        e.limits.max_price_deviation is None,
        e.limits.instrument_whitelist.contains(x.instrument.id),
        x.intent.price matches Some(p) ==> x.instrument.price_valid(p),
        x.instrument.qty_valid(x.intent.quantity),
        x.notional() == Some(Some(notional)),
        x.instrument.min_notional matches Some(m) ==> m.units() <= notional.units(),
        booked(e.open_notional_by_strategy, x.intent.strategy_instance_id).adds_exactly(notional),
        booked(e.open_notional_by_account, x.intent.account_id).adds_exactly(notional),
        counted(e.active_orders_by_strategy, x.intent.strategy_instance_id) < u32::MAX,
    ensures
        e.decision(x, now) == Some(DecisionView::Approved),
{
}

/// An open order adds its notional to what its strategy and its account have
/// open and one to the strategy's count; other strategies and accounts keep
/// theirs, and nothing else changes. Stated where the sums need no rounding.
pub proof fn law_order_is_booked(
    e: RiskView,
    strategy: Seq<char>,
    account: Seq<char>,
    notional: DecimalView,
    other: Seq<char>,
)
    requires
        notional.wf(),
        booked(e.open_notional_by_strategy, strategy).wf(),
        booked(e.open_notional_by_account, account).wf(),
        booked(e.open_notional_by_strategy, strategy).adds_exactly(notional),
        booked(e.open_notional_by_account, account).adds_exactly(notional),
        counted(e.active_orders_by_strategy, strategy) < u32::MAX,
    ensures
        ({
            let after = e.with_order(strategy, account, notional);
            &&& table::lookup(after.open_notional_by_strategy, strategy) matches Some(s)
                && s.units() == booked(e.open_notional_by_strategy, strategy).units()
                + notional.units()
            &&& table::lookup(after.open_notional_by_account, account) matches Some(a) && a.units()
                == booked(e.open_notional_by_account, account).units() + notional.units()
            &&& table::lookup(after.active_orders_by_strategy, strategy) matches Some(n) && n
                == counted(e.active_orders_by_strategy, strategy) + 1
            &&& other != strategy ==> table::lookup(after.open_notional_by_strategy, other)
                == table::lookup(e.open_notional_by_strategy, other)
            &&& other != strategy ==> table::lookup(after.active_orders_by_strategy, other)
                == table::lookup(e.active_orders_by_strategy, other)
            &&& other != account ==> table::lookup(after.open_notional_by_account, other)
                == table::lookup(e.open_notional_by_account, other)
            &&& after.limits == e.limits && after.kill_switch == e.kill_switch
            &&& after.consecutive_rejects == e.consecutive_rejects
            &&& after.order_times == e.order_times && after.feeds_connected == e.feeds_connected
            &&& after.daily_realized_pnl == e.daily_realized_pnl
            &&& after.high_water_equity == e.high_water_equity
        }),
{
    let s = booked(e.open_notional_by_strategy, strategy);
    let a = booked(e.open_notional_by_account, account);
    let n = counted(e.active_orders_by_strategy, strategy);
    decimal::lemma_exact_sum(s, notional);
    decimal::lemma_exact_sum(a, notional);
    table::law_put(e.open_notional_by_strategy, strategy, s.plus(notional)->0, other);
    table::law_put(e.open_notional_by_account, account, a.plus(notional)->0, other);
    table::law_put(e.active_orders_by_strategy, strategy, (n + 1) as u32, other);
}

/// An order that is over takes its notional from what its strategy and its
/// account have open and one from the strategy's count, which stays at zero
/// once it is there; other strategies and accounts keep theirs, and nothing
/// else changes. Stated where the differences need no rounding.
pub proof fn law_order_is_released(
    e: RiskView,
    strategy: Seq<char>,
    account: Seq<char>,
    notional: DecimalView,
    other: Seq<char>,
)
    requires
        notional.wf(),
        booked(e.open_notional_by_strategy, strategy).wf(),
        booked(e.open_notional_by_account, account).wf(),
        booked(e.open_notional_by_strategy, strategy).subtracts_exactly(notional),
        booked(e.open_notional_by_account, account).subtracts_exactly(notional),
    ensures
        ({
            let after = e.without_order(strategy, account, notional);
            &&& table::lookup(after.open_notional_by_strategy, strategy) matches Some(s)
                && s.units() == booked(e.open_notional_by_strategy, strategy).units()
                - notional.units()
            &&& table::lookup(after.open_notional_by_account, account) matches Some(a) && a.units()
                == booked(e.open_notional_by_account, account).units() - notional.units()
            &&& table::lookup(after.active_orders_by_strategy, strategy) matches Some(n) && {
                ||| n + 1 == counted(e.active_orders_by_strategy, strategy)
                ||| n == 0 && counted(e.active_orders_by_strategy, strategy) == 0
            }
            &&& other != strategy ==> table::lookup(after.open_notional_by_strategy, other)
                == table::lookup(e.open_notional_by_strategy, other)
            &&& other != strategy ==> table::lookup(after.active_orders_by_strategy, other)
                == table::lookup(e.active_orders_by_strategy, other)
            &&& other != account ==> table::lookup(after.open_notional_by_account, other)
                == table::lookup(e.open_notional_by_account, other)
            &&& after.limits == e.limits && after.kill_switch == e.kill_switch
            &&& after.consecutive_rejects == e.consecutive_rejects
            &&& after.order_times == e.order_times && after.feeds_connected == e.feeds_connected
            &&& after.daily_realized_pnl == e.daily_realized_pnl
            &&& after.high_water_equity == e.high_water_equity
        }),
{
    let s = booked(e.open_notional_by_strategy, strategy);
    let a = booked(e.open_notional_by_account, account);
    let n = counted(e.active_orders_by_strategy, strategy);
    decimal::lemma_exact_difference(s, notional);
    decimal::lemma_exact_difference(a, notional);
    table::law_put(e.open_notional_by_strategy, strategy, s.minus(notional)->0, other);
    table::law_put(e.open_notional_by_account, account, a.minus(notional)->0, other);
    table::law_put(
        e.active_orders_by_strategy,
        strategy,
        if n > 0 {
            (n - 1) as u32
        } else {
            0
        },
        other,
    );
}

/// An approval books the order: the notional goes to its strategy and account,
/// one to the count, and its time to the end of the window. A rejection books
/// nothing. Stated where the sums need no rounding.
pub proof fn law_only_approvals_are_booked(
    e: RiskView,
    x: CheckInput,
    now: TimestampMs,
    notional: DecimalView,
)
    requires
        x.notional() == Some(Some(notional)),
        notional.wf(),
        booked(e.open_notional_by_strategy, x.intent.strategy_instance_id).wf(),
        booked(e.open_notional_by_account, x.intent.account_id).wf(),
        booked(e.open_notional_by_strategy, x.intent.strategy_instance_id).adds_exactly(notional),
        booked(e.open_notional_by_account, x.intent.account_id).adds_exactly(notional),
        e.decision(x, now) is Some,
    ensures
        ({
            let after = e.decided(x, now);
            let strategy = x.intent.strategy_instance_id;
            let account = x.intent.account_id;
            &&& e.decision(x, now) == Some(DecisionView::Approved) ==> {
                &&& table::lookup(after.open_notional_by_strategy, strategy) matches Some(s)
                    && s.units() == booked(e.open_notional_by_strategy, strategy).units()
                    + notional.units()
                &&& table::lookup(after.open_notional_by_account, account) matches Some(a)
                    && a.units() == booked(e.open_notional_by_account, account).units()
                    + notional.units()
                &&& table::lookup(after.active_orders_by_strategy, strategy) matches Some(n) && n
                    == counted(e.active_orders_by_strategy, strategy) + 1
                &&& after.order_times.len() > 0 && after.order_times.last() == now
                &&& after.consecutive_rejects == 0
                &&& after.kill_switch == e.kill_switch
            }
            &&& e.decision(x, now) != Some(DecisionView::Approved) ==> {
                &&& after.open_notional_by_strategy == e.open_notional_by_strategy
                &&& after.open_notional_by_account == e.open_notional_by_account
                &&& after.active_orders_by_strategy == e.active_orders_by_strategy
                &&& after.consecutive_rejects == e.consecutive_rejects + 1
                &&& e.limits.consecutive_reject_limit is None ==> after.kill_switch
                    == e.kill_switch
                &&& e.limits.max_order_rate_per_min is None ==> after.order_times == e.order_times
            }
            &&& e.decision(x, now) == Some(DecisionView::Approved)
                && e.limits.max_order_rate_per_min is None ==> after.order_times
                == e.order_times.push(now)
        }),
{
    let w = e.windowed(x, now);
    if e.rules(x, now) is Pass {
        let noted = RiskView {
            consecutive_rejects: 0,
            order_times: w.order_times.push(now),
            ..w
        };
        law_order_is_booked(
            noted,
            x.intent.strategy_instance_id,
            x.intent.account_id,
            notional,
            x.intent.account_id,
        );
    }
}

/// What is booked or counted under a key is what the table holds, and nothing
/// where it holds nothing.
pub proof fn law_nothing_is_booked_at_first(
    t: Seq<(Seq<char>, DecimalView)>,
    n: Seq<(Seq<char>, u32)>,
    key: Seq<char>,
)
    ensures
        table::lookup(t, key) is None ==> booked(t, key).units() == 0,
        table::lookup(t, key) matches Some(d) ==> booked(t, key) == d,
        table::lookup(n, key) is None ==> counted(n, key) == 0,
        table::lookup(n, key) matches Some(c) ==> counted(n, key) == c,
{
    decimal::lemma_sign_of_units(DecimalView::zero());
}

/// New facts replace the day's profit and raise the high-water mark to the
/// equity where that is higher; it never falls, and nothing else changes.
pub proof fn law_peak_never_falls(e: RiskView, equity: DecimalView, pnl: DecimalView)
    ensures
        ({
            let after = e.with_pnl_facts(equity, pnl);
            &&& after.daily_realized_pnl == pnl
            &&& e.high_water_equity.units() <= after.high_water_equity.units()
            &&& equity.units() <= after.high_water_equity.units()
            &&& after.high_water_equity == e.high_water_equity || after.high_water_equity == equity
            &&& after.limits == e.limits && after.kill_switch == e.kill_switch
            &&& after.consecutive_rejects == e.consecutive_rejects
            &&& after.order_times == e.order_times && after.feeds_connected == e.feeds_connected
            &&& after.open_notional_by_strategy == e.open_notional_by_strategy
            &&& after.open_notional_by_account == e.open_notional_by_account
            &&& after.active_orders_by_strategy == e.active_orders_by_strategy
        }),
{
}

/// Whether the message of a rejection gives the numbers that its rule compared.
pub open spec fn rejection_is_explained(
    e: RiskView,
    x: CheckInput,
    now: TimestampMs,
    rule: Seq<char>,
    message: Seq<char>,
) -> bool {
    let l = e.limits;
    let n = x.notional()->0->0;
    let strategy = booked(e.open_notional_by_strategy, x.intent.strategy_instance_id);
    let account = booked(e.open_notional_by_account, x.intent.account_id);
    let orders = counted(e.active_orders_by_strategy, x.intent.strategy_instance_id);
    ||| rule == "kill_switch"@ && message == match e.kill_switch.reason {
        Some(reason) => reason,
        None => "engaged"@,
    }
    ||| rule == "feeds_down"@ && message == "market/account feed disconnected"@
    ||| rule == "max_daily_loss"@ && message == "daily loss "@ + e.daily_realized_pnl.text()
        + " exceeds "@ + (l.max_daily_loss->0).text()
    ||| rule == "max_drawdown"@ && message == "drawdown "@ + (e.drawdown(x)->0).text()
        + " exceeds "@ + (l.max_drawdown->0).text()
    ||| rule == "instrument_whitelist"@ && message == if l.instrument_whitelist.len() == 0 {
        "whitelist empty = deny all"@
    } else {
        x.instrument.id + " not in whitelist"@
    }
    ||| rule == "price_filter"@ && message == "price violates tick size"@
    ||| rule == "lot_size"@ && message == "quantity violates step/min/max"@
    ||| rule == "missing_reference_price"@ && message
        == "market order without market reference price; notional unknown"@
    ||| rule == "min_notional"@ && message == "below min notional"@
    ||| rule == "max_order_notional"@ && message == "order notional "@ + n.text() + " exceeds "@ + (
    l.max_order_notional->0).text()
    ||| rule == "max_strategy_notional"@ && message == "strategy open+new "@ + strategy.text()
        + "+"@ + (n.text() + " exceeds "@ + (l.max_strategy_notional->0).text())
    ||| rule == "max_account_notional"@ && message == "account open+new "@ + account.text() + "+"@
        + (n.text() + " exceeds "@ + (l.max_account_notional->0).text())
    ||| rule == "max_net_exposure"@ && message == "projected net exposure "@ + (x.projected(
        n,
    )->0).text() + " exceeds "@ + (l.max_net_exposure->0).text()
    ||| rule == "max_leverage"@ && message == "leverage "@ + (x.intent.leverage->0).text()
        + " exceeds "@ + (l.max_leverage->0).text()
    ||| rule == "max_active_orders"@ && message == text::nat_text(orders as nat)
        + " active orders >= "@ + text::nat_text(l.max_active_orders->0 as nat)
    ||| rule == "max_order_rate_per_min"@ && message == text::nat_text(
        window::recent(e.order_times, now).len(),
    ) + " orders/min >= "@ + text::nat_text(l.max_order_rate_per_min->0 as nat)
    ||| rule == "stale_market"@ && message == match x.market_age_ms {
        None => "no market data"@,
        Some(age) => "market age "@ + text::nat_text(age as nat) + "ms > "@ + (text::nat_text(
            l.max_market_age_ms->0 as nat,
        ) + "ms"@),
    }
    ||| rule == "price_deviation"@ && message == "deviation "@ + (x.deviation()->0).text()
        + " exceeds "@ + (l.max_price_deviation->0).text()
}

/// An engaged switch is engaged, for the reason and at the time that were given;
/// a released one has neither.
pub proof fn law_switch_is_what_it_says(reason: Seq<char>, now: TimestampMs)
    ensures
        SwitchView::engaged(reason, now).engaged,
        SwitchView::engaged(reason, now).reason == Some(reason),
        SwitchView::engaged(reason, now).engaged_at == Some(now),
        !SwitchView::released().engaged,
        SwitchView::released().reason is None,
        SwitchView::released().engaged_at is None,
{
}

/// A fresh engine has nothing booked for anybody, its switch is released and its
/// feeds are up; it knows the limits that it was given.
pub proof fn law_fresh_engine_has_nothing_open(limits: LimitsView, key: Seq<char>)
    ensures
        ({
            let e = RiskView::fresh(limits);
            &&& e.limits == limits && !e.kill_switch.engaged && e.feeds_connected
            &&& e.consecutive_rejects == 0 && e.order_times.len() == 0
            &&& booked(e.open_notional_by_strategy, key).units() == 0
            &&& booked(e.open_notional_by_account, key).units() == 0
            &&& counted(e.active_orders_by_strategy, key) == 0
            &&& e.daily_realized_pnl.units() == 0 && e.high_water_equity.units() == 0
        }),
{
    decimal::lemma_sign_of_units(DecimalView::zero());
}

/// With the limits that are there from the start nothing is approved: no
/// instrument is on the whitelist yet.
pub proof fn law_default_limits_deny_all(e: RiskView, x: CheckInput, now: TimestampMs)
    requires
        e.limits == LimitsView::defaults(),
    ensures
        e.decision(x, now) != Some(DecisionView::Approved),
{
}

/// Without a market reference the exposure is measured at the order's own price:
/// its notional by its quantity. Stated where that needs no rounding.
pub proof fn law_exposure_falls_back_on_the_order(x: CheckInput, notional: DecimalView)
    requires
        x.market_ref is None,
        notional.wf(),
        x.intent.quantity.wf(),
        notional.divides_exactly(x.intent.quantity),
    ensures
        x.exposure_mark(notional) is Some,
        (x.exposure_mark(notional)->0).units() * x.intent.quantity.units() == notional.units()
            * decimal::pow10(28),
{
    decimal::law_quotient_is_exact(notional, x.intent.quantity);
}

/// A check that an engaged switch stops leaves the window of approved orders as
/// it is.
pub proof fn law_halted_engine_keeps_its_window(e: RiskView, x: CheckInput, now: TimestampMs)
    requires
        e.kill_switch.engaged,
    ensures
        e.decided(x, now).order_times == e.order_times,
        e.decided(x, now).kill_switch == e.kill_switch,
{
}

/// Every intent gets a decision where the numbers that its limits compare are in
/// range and the counters do not end.
pub proof fn law_decision_is_owed(e: RiskView, x: CheckInput, now: TimestampMs)
    requires
        e.consecutive_rejects < u32::MAX,
        counted(e.active_orders_by_strategy, x.intent.strategy_instance_id) < u32::MAX,
        e.limits.max_drawdown is None || e.high_water_equity.units() == 0 || e.drawdown(x) is Some,
        x.intent.price matches Some(px) ==> x.instrument.price_in_range(px),
        x.instrument.qty_in_range(x.intent.quantity),
        x.notional() matches Some(known) && (known matches Some(n) ==> {
            &&& booked(e.open_notional_by_strategy, x.intent.strategy_instance_id).plus(n) is Some
            &&& booked(e.open_notional_by_account, x.intent.account_id).plus(n) is Some
            &&& e.limits.max_net_exposure is None || x.projected(n) is Some
        }),
        e.limits.max_price_deviation is None || x.market_ref is None || x.intent.price is None || (
        x.market_ref->0).units() == 0 || x.deviation() is Some,
    ensures
        e.decision(x, now) is Some,
{
    decimal::lemma_sign_of_units(e.high_water_equity);
    if x.market_ref is Some {
        decimal::lemma_sign_of_units(x.market_ref->0);
    }
}

} // verus!

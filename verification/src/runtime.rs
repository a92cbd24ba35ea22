//! Shared process runtime: market, strategy control, risk, OMS and paper execution.
//!
//! What has to be written down between two steps is returned by the first of
//! them, and writing it is up to the caller.

use vstd::prelude::*;
use vstd::string::*;

use crate::decimal::{try_round_to_step, Decimal, DecimalView};
use crate::decimal;
use crate::domain::{
    try_worth_at, Balance, BalanceView, DecisionView, ExecutionPort, Fill, FillView, Instrument, InstrumentView,
    IntentView, Order, OrderIntent, OrderSide, OrderStatus, OrderType, OrderView, PositionSide,
    ReduceOnly, RiskDecision, TimeInForce,
};
use crate::domain;
use crate::error::{ErrorView, Result, TuxError};
use crate::ids::{
    now_ms, AccountId, ClientOrderId, IntentId, OrderId, StrategyInstanceId, TimestampMs,
    CLOCK_RANGE_MS,
};
use crate::ids;
use crate::market::{MarketState, MarketView, TopView};
use crate::oms::{Oms, OmsView, OrderStateMachine};
use crate::oms;
use crate::portfolio::{AccountingEvent, LedgerView, PnLBook, Portfolio, PortfolioView, SpotFill};
use crate::portfolio;
use crate::risk::{order_notional, CheckInput, RiskEngine, RiskView};
use crate::risk;
use crate::sim::{PaperEngine, PaperView};
use crate::sim;
use crate::store::{EquityPoint, EquityView};
use crate::table::Table;
use crate::table;
use crate::text::join2;
use crate::views;

verus! {

#[derive(Debug, Clone, Copy, PartialEq, Eq, Structural)]
pub enum StrategyRunStatus {
    Running,
    Paused,
    Stopped,
    Error,
}

impl StrategyRunStatus {
    pub open spec fn text(self) -> Seq<char> {
        match self {
            StrategyRunStatus::Running => "running"@,
            StrategyRunStatus::Paused => "paused"@,
            StrategyRunStatus::Stopped => "stopped"@,
            StrategyRunStatus::Error => "error"@,
        }
    }

    pub fn as_str(self) -> (r: &'static str)
        ensures
            r@ == self.text(),
    {
        match self {
            StrategyRunStatus::Running => "running",
            StrategyRunStatus::Paused => "paused",
            StrategyRunStatus::Stopped => "stopped",
            StrategyRunStatus::Error => "error",
        }
    }

    pub fn can_execute(self) -> (r: bool)
        ensures
            r == (self == StrategyRunStatus::Running),
    {
        self == StrategyRunStatus::Running
    }
}

#[derive(Debug)]
pub struct StrategyParameters {
    pub side: OrderSide,
    pub order_type: OrderType,
    pub time_in_force: TimeInForce,
    pub quantity: Decimal,
    pub limit_offset_bps: Decimal,
}

/// What a [`StrategyParameters`] holds.
#[verifier::ext_equal]
pub struct ParametersView {
    pub side: OrderSide,
    pub order_type: OrderType,
    pub time_in_force: TimeInForce,
    pub quantity: DecimalView,
    pub limit_offset_bps: DecimalView,
}

impl View for StrategyParameters {
    type V = ParametersView;

    open spec fn view(&self) -> ParametersView {
        ParametersView {
            side: self.side,
            order_type: self.order_type,
            time_in_force: self.time_in_force,
            quantity: self.quantity@,
            limit_offset_bps: self.limit_offset_bps@,
        }
    }
}

impl Clone for StrategyParameters {
    fn clone(&self) -> (r: Self)
        ensures
            r == *self,
    {
        StrategyParameters {
            side: self.side,
            order_type: self.order_type,
            time_in_force: self.time_in_force,
            quantity: self.quantity,
            limit_offset_bps: self.limit_offset_bps,
        }
    }
}

impl ParametersView {
    /// Half a unit bought by limit order at the touch.
    pub open spec fn defaults() -> ParametersView {
        ParametersView {
            side: OrderSide::Buy,
            order_type: OrderType::Limit,
            time_in_force: TimeInForce::Gtc,
            quantity: DecimalView::of(5, 1),
            limit_offset_bps: DecimalView::zero(),
        }
    }
}

impl Default for StrategyParameters {
    fn default() -> (r: Self)
        ensures
            r@ == ParametersView::defaults(),
    {
        StrategyParameters {
            side: OrderSide::Buy,
            order_type: OrderType::Limit,
            time_in_force: TimeInForce::Gtc,
            quantity: Decimal::new(5, 1),
            limit_offset_bps: Decimal::zero(),
        }
    }
}

#[derive(Debug)]
pub struct StrategySnapshot {
    pub strategy_id: String,
    pub name: String,
    pub version: String,
    pub status: StrategyRunStatus,
    pub environment: String,
    pub account_id: String,
    pub instrument_id: String,
    pub parameters: StrategyParameters,
    pub revision: u64,
    pub started_at: TimestampMs,
    pub updated_at: TimestampMs,
    pub last_signal_at: Option<TimestampMs>,
    pub last_order_id: Option<String>,
    pub last_error: Option<String>,
    pub signals: u64,
    pub orders: u64,
    pub fills: u64,
}

/// What a [`StrategySnapshot`] holds.
#[verifier::ext_equal]
pub struct SnapshotView {
    pub strategy_id: Seq<char>,
    pub name: Seq<char>,
    pub version: Seq<char>,
    pub status: StrategyRunStatus,
    pub environment: Seq<char>,
    pub account_id: Seq<char>,
    pub instrument_id: Seq<char>,
    pub parameters: ParametersView,
    pub revision: u64,
    pub started_at: TimestampMs,
    pub updated_at: TimestampMs,
    pub last_signal_at: Option<TimestampMs>,
    pub last_order_id: Option<Seq<char>>,
    pub last_error: Option<Seq<char>>,
    pub signals: u64,
    pub orders: u64,
    pub fills: u64,
}

impl View for StrategySnapshot {
    type V = SnapshotView;

    open spec fn view(&self) -> SnapshotView {
        SnapshotView {
            strategy_id: self.strategy_id@,
            name: self.name@,
            version: self.version@,
            status: self.status,
            environment: self.environment@,
            account_id: self.account_id@,
            instrument_id: self.instrument_id@,
            parameters: self.parameters@,
            revision: self.revision,
            started_at: self.started_at,
            updated_at: self.updated_at,
            last_signal_at: self.last_signal_at,
            last_order_id: views::opt_view(self.last_order_id),
            last_error: views::opt_view(self.last_error),
            signals: self.signals,
            orders: self.orders,
            fills: self.fills,
        }
    }
}

impl Clone for StrategySnapshot {
    fn clone(&self) -> (r: Self)
        ensures
            r == *self,
    {
        StrategySnapshot {
            strategy_id: self.strategy_id.clone(),
            name: self.name.clone(),
            version: self.version.clone(),
            status: self.status,
            environment: self.environment.clone(),
            account_id: self.account_id.clone(),
            instrument_id: self.instrument_id.clone(),
            parameters: self.parameters.clone(),
            revision: self.revision,
            started_at: self.started_at,
            updated_at: self.updated_at,
            last_signal_at: self.last_signal_at,
            last_order_id: match &self.last_order_id { Some(x) => Some(x.clone()), None => None },
            last_error: match &self.last_error { Some(x) => Some(x.clone()), None => None },
            signals: self.signals,
            orders: self.orders,
            fills: self.fills,
        }
    }
}

impl SnapshotView {
    /// A strategy that has just been set up.
    pub open spec fn fresh(
        strategy_id: Seq<char>,
        account_id: Seq<char>,
        instrument: Seq<char>,
        now: TimestampMs,
    ) -> SnapshotView {
        SnapshotView {
            strategy_id,
            name: "One-shot directional strategy"@,
            version: "1.0.0"@,
            status: StrategyRunStatus::Running,
            environment: "local_paper"@,
            account_id,
            instrument_id: instrument,
            parameters: ParametersView::defaults(),
            revision: 1,
            started_at: now,
            updated_at: now,
            last_signal_at: None,
            last_order_id: None,
            last_error: None,
            signals: 0,
            orders: 0,
            fills: 0,
        }
    }

    /// With new parameters, as a new revision.
    pub open spec fn configured(self, parameters: ParametersView, now: TimestampMs) -> SnapshotView {
        SnapshotView {
            parameters,
            revision: (self.revision + 1) as u64,
            updated_at: now,
            last_error: None,
            ..self
        }
    }

    /// In another state; an error is kept only in the error state.
    pub open spec fn in_status(self, status: StrategyRunStatus, now: TimestampMs) -> SnapshotView {
        SnapshotView {
            status,
            updated_at: now,
            last_error: if status == StrategyRunStatus::Error {
                self.last_error
            } else {
                None
            },
            ..self
        }
    }

    /// With one signal more.
    pub open spec fn signalled(self, now: TimestampMs) -> SnapshotView {
        SnapshotView {
            signals: (self.signals + 1) as u64,
            last_signal_at: Some(now),
            updated_at: now,
            ..self
        }
    }

    /// With one order more.
    pub open spec fn ordered(self, order_id: Seq<char>, now: TimestampMs) -> SnapshotView {
        SnapshotView {
            orders: (self.orders + 1) as u64,
            last_order_id: Some(order_id),
            last_error: None,
            updated_at: now,
            ..self
        }
    }

    /// With one fill more.
    pub open spec fn filled(self, now: TimestampMs) -> SnapshotView {
        SnapshotView { fills: (self.fills + 1) as u64, updated_at: now, ..self }
    }
}

impl StrategySnapshot {
    /// A strategy that is set up at `now`.
    pub fn fresh_at(
        strategy_id: &StrategyInstanceId,
        account_id: &AccountId,
        instrument: &Instrument,
        now: TimestampMs,
    ) -> (r: Self)
        ensures
            r@ == SnapshotView::fresh(strategy_id@, account_id@, instrument@.id, now),
    {
        StrategySnapshot {
            strategy_id: strategy_id.as_str().to_owned(),
            name: "One-shot directional strategy".to_owned(),
            version: "1.0.0".to_owned(),
            status: StrategyRunStatus::Running,
            environment: "local_paper".to_owned(),
            account_id: account_id.as_str().to_owned(),
            instrument_id: instrument.id.as_str().to_owned(),
            parameters: StrategyParameters::default(),
            revision: 1,
            started_at: now,
            updated_at: now,
            last_signal_at: None,
            last_order_id: None,
            last_error: None,
            signals: 0,
            orders: 0,
            fills: 0,
        }
    }
}

#[derive(Debug)]
pub struct MarketSnapshot {
    pub instrument_id: String,
    pub bid: Decimal,
    pub ask: Decimal,
    pub mid: Decimal,
    pub bid_quantity: Decimal,
    pub ask_quantity: Decimal,
    pub occurred_at: TimestampMs,
    pub age_ms: u64,
}

/// What a [`MarketSnapshot`] holds.
#[verifier::ext_equal]
pub struct MarketSnapshotView {
    pub instrument_id: Seq<char>,
    pub bid: DecimalView,
    pub ask: DecimalView,
    pub mid: DecimalView,
    pub bid_quantity: DecimalView,
    pub ask_quantity: DecimalView,
    pub occurred_at: TimestampMs,
    pub age_ms: u64,
}

impl View for MarketSnapshot {
    type V = MarketSnapshotView;

    open spec fn view(&self) -> MarketSnapshotView {
        MarketSnapshotView {
            instrument_id: self.instrument_id@,
            bid: self.bid@,
            ask: self.ask@,
            mid: self.mid@,
            bid_quantity: self.bid_quantity@,
            ask_quantity: self.ask_quantity@,
            occurred_at: self.occurred_at,
            age_ms: self.age_ms,
        }
    }
}

impl Clone for MarketSnapshot {
    fn clone(&self) -> (r: Self)
        ensures
            r == *self,
    {
        MarketSnapshot {
            instrument_id: self.instrument_id.clone(),
            bid: self.bid,
            ask: self.ask,
            mid: self.mid,
            bid_quantity: self.bid_quantity,
            ask_quantity: self.ask_quantity,
            occurred_at: self.occurred_at,
            age_ms: self.age_ms,
        }
    }
}

/// Everything that one trading process holds.
pub struct RuntimeState {
    pub instrument: Instrument,
    pub account_id: AccountId,
    pub strategy_instance_id: StrategyInstanceId,
    pub quote_asset: String,
    pub base_asset: String,
    pub market: MarketState,
    pub portfolio: Portfolio,
    pub oms: Oms,
    pub risk: RiskEngine,
    pub paper: PaperEngine,
    pub strategy: StrategySnapshot,
}

/// What a [`RuntimeState`] holds.
#[verifier::ext_equal]
pub struct RuntimeView {
    pub instrument: InstrumentView,
    pub account_id: Seq<char>,
    pub strategy_instance_id: Seq<char>,
    pub quote_asset: Seq<char>,
    pub base_asset: Seq<char>,
    pub market: MarketView,
    pub portfolio: PortfolioView,
    pub oms: OmsView,
    pub risk: RiskView,
    pub paper: PaperView,
    pub strategy: SnapshotView,
}

impl View for RuntimeState {
    type V = RuntimeView;

    open spec fn view(&self) -> RuntimeView {
        RuntimeView {
            instrument: self.instrument@,
            account_id: self.account_id@,
            strategy_instance_id: self.strategy_instance_id@,
            quote_asset: self.quote_asset@,
            base_asset: self.base_asset@,
            market: self.market@,
            portfolio: self.portfolio@,
            oms: self.oms@,
            risk: self.risk@,
            paper: self.paper@,
            strategy: self.strategy@,
        }
    }
}

pub open spec fn out_of_scope() -> ErrorView {
    ErrorView::InvalidOrder("intent account/strategy/instrument out of scope"@)
}

/// Whether the configured offset is within a tenth of the price.
pub open spec fn offset_allowed(bps: DecimalView) -> bool {
    bps.abs().le(DecimalView::of(1000, 0))
}

impl RuntimeView {
    pub open spec fn in_scope(self, intent: IntentView) -> bool {
        &&& intent.account_id == self.account_id
        &&& intent.strategy_instance_id == self.strategy_instance_id
        &&& intent.instrument_id == self.instrument.id
    }

    /// What parameters are refused for, if they are; nothing when a number on
    /// the way is out of range.
    pub open spec fn parameters_verdict(
        self,
        p: ParametersView,
    ) -> Option<core::result::Result<(), ErrorView>> {
        if p.quantity.positive() && !self.instrument.qty_in_range(p.quantity) {
            None
        } else if !p.quantity.positive() || !self.instrument.qty_valid(p.quantity) {
            Some(
                Err(
                    ErrorView::Config(
                        "quantity "@ + p.quantity.text() + " violates instrument lot size"@,
                    ),
                ),
            )
        } else if !offset_allowed(p.limit_offset_bps) {
            Some(Err(ErrorView::Config("limit_offset_bps must be between -1000 and 1000"@)))
        } else if p.order_type == OrderType::Stop || p.order_type == OrderType::PostOnly {
            Some(Err(ErrorView::Config("dashboard strategy supports limit or market orders"@)))
        } else {
            Some(Ok(()))
        }
    }

    /// The price of a limit order by the strategy: the touch moved by the
    /// offset, on the tick grid; nothing when a number on the way is out of
    /// range.
    pub open spec fn offset_price(self, p: ParametersView, top: TopView) -> Option<DecimalView> {
        let one = DecimalView::of(1, 0);
        match p.limit_offset_bps.over(DecimalView::of(10_000, 0)) {
            None => None,
            Some(fraction) => {
                let factor = match p.side {
                    OrderSide::Buy => one.plus(fraction),
                    OrderSide::Sell => one.minus(fraction),
                };
                match factor {
                    None => None,
                    Some(f) => match top.touch(p.side).times(f) {
                        None => None,
                        Some(raw) => if self.instrument.tick_size.positive() {
                            decimal::step_multiple(raw, self.instrument.tick_size)
                        } else {
                            Some(raw)
                        },
                    },
                }
            },
        }
    }

    /// The price of the strategy's next order, or why there is none; nothing
    /// when a number on the way is out of range.
    pub open spec fn signal(
        self,
    ) -> Option<core::result::Result<Option<DecimalView>, ErrorView>> {
        let p = self.strategy.parameters;
        if self.strategy.status != StrategyRunStatus::Running {
            Some(
                Err(ErrorView::InvalidOrder("strategy is "@ + self.strategy.status.text())),
            )
        } else {
            match self.market.top(self.instrument.id) {
                None => Some(Err(ErrorView::StaleMarketData { instrument: self.instrument.id })),
                Some(top) => match p.order_type {
                    OrderType::Market => Some(Ok(None)),
                    OrderType::Limit => match self.offset_price(p, top) {
                        None => None,
                        Some(px) => if self.instrument.tick_size.positive() {
                            Some(Ok(Some(px)))
                        } else {
                            Some(
                                Err(
                                    ErrorView::Config("instrument price tick must be positive"@),
                                ),
                            )
                        },
                    },
                    _ => Some(
                        Err(ErrorView::InvalidOrder("unsupported strategy order type"@)),
                    ),
                },
            }
        }
    }

    /// The strategy's next order at a price.
    pub open spec fn intent_at(
        self,
        price: Option<DecimalView>,
        id: Seq<char>,
        client_order_id: Seq<char>,
        now: TimestampMs,
    ) -> IntentView {
        let p = self.strategy.parameters;
        IntentView {
            id,
            strategy_instance_id: self.strategy_instance_id,
            account_id: self.account_id,
            instrument_id: self.instrument.id,
            side: p.side,
            order_type: p.order_type,
            time_in_force: p.time_in_force,
            price,
            quantity: p.quantity,
            reduce_only: ReduceOnly::No,
            position_side: PositionSide::Both,
            leverage: None,
            client_order_id,
            reason: Some("dashboard strategy trigger"@),
            created_at: now,
        }
    }

    /// The prices at which the account is valued.
    pub open spec fn marks(self, reference: Option<DecimalView>) -> Seq<(Seq<char>, DecimalView)> {
        let quote = table::put(Seq::empty(), self.quote_asset, DecimalView::of(1, 0));
        match reference {
            Some(p) => table::put(quote, self.base_asset, p),
            None => quote,
        }
    }

    /// What the account is worth; nothing when that is out of range.
    pub open spec fn equity(self) -> Option<DecimalView> {
        match self.market.reference(self.instrument.id) {
            None => None,
            Some(reference) => self.portfolio.equity(
                self.account_id,
                self.quote_asset,
                self.marks(reference),
            ),
        }
    }

    /// The account's net profit, none where it has no book.
    pub open spec fn net_pnl(self) -> Option<DecimalView> {
        match table::lookup(self.portfolio.pnl, self.account_id) {
            Some(b) => b.net(),
            None => Some(DecimalView::zero()),
        }
    }

    /// What the risk engine is asked of an intent at `now`.
    pub open spec fn question(self, intent: IntentView, now: TimestampMs) -> CheckInput {
        CheckInput {
            intent,
            instrument: self.instrument,
            market_ref: self.market.reference(self.instrument.id)->0,
            market_age_ms: match self.market.age(self.instrument.id, now) {
                Some(age) => Some(age as u64),
                None => None,
            },
            portfolio: self.portfolio,
        }
    }

    /// The risk engine with the account's present worth and profit.
    pub open spec fn informed(self) -> RiskView {
        self.risk.with_pnl_facts(self.equity()->0, self.net_pnl()->0)
    }

    /// What the risk engine says of an intent at `now`; nothing when a number
    /// on the way is out of range.
    pub open spec fn ruling(self, intent: IntentView, now: TimestampMs) -> Option<DecisionView> {
        if self.equity() is None || self.net_pnl() is None {
            None
        } else {
            self.informed().decision(self.question(intent, now), now)
        }
    }

    /// The process after the risk engine has decided.
    pub open spec fn ruled(self, intent: IntentView, now: TimestampMs) -> RuntimeView {
        RuntimeView { risk: self.informed().decided(self.question(intent, now), now), ..self }
    }

    /// What an approved intent is booked with.
    pub open spec fn booked(self, intent: IntentView, now: TimestampMs) -> DecimalView {
        self.question(intent, now).notional()->0->0
    }

    /// Whether what was booked for an intent can be taken back.
    pub open spec fn can_release(self, intent: IntentView, notional: DecimalView) -> bool {
        self.risk.can_release(intent.strategy_instance_id, intent.account_id, notional)
    }

    /// The process with what was booked for an intent taken back.
    pub open spec fn released(self, intent: IntentView, notional: DecimalView) -> RuntimeView {
        RuntimeView {
            risk: self.risk.without_order(
                intent.strategy_instance_id,
                intent.account_id,
                notional,
            ),
            ..self
        }
    }

    /// The order that an approved intent leads to: the one that is there, or a
    /// new one; or a conflict.
    pub open spec fn order_for(
        self,
        intent: IntentView,
        order_id: Seq<char>,
        now: TimestampMs,
    ) -> core::result::Result<OrderView, ErrorView> {
        match self.oms.earlier(intent) {
            Some(known) => known,
            None => Ok(oms::order_of(intent, order_id, now)),
        }
    }

    /// The process with the order of an approved intent kept.
    pub open spec fn with_order_for(
        self,
        intent: IntentView,
        order_id: Seq<char>,
        now: TimestampMs,
    ) -> RuntimeView {
        match self.oms.earlier(intent) {
            Some(_) => self,
            None => RuntimeView {
                oms: self.oms.indexed(oms::order_of(intent, order_id, now)),
                ..self
            },
        }
    }

    /// Why an approved intent is not placed, if it is not.
    pub open spec fn obstacle(
        self,
        intent: IntentView,
        order_id: Seq<char>,
        now: TimestampMs,
    ) -> Option<ErrorView> {
        match self.order_for(intent, order_id, now) {
            Err(e) => Some(e),
            Ok(o) => if !o.may_become(OrderStatus::Submitted) {
                Some(oms::transition_error(o.status, OrderStatus::Submitted))
            } else {
                self.paper.refusal(o.with_status(OrderStatus::Submitted, now))
            },
        }
    }

    /// Whether an order was placed at `now` and the process went on to `after`.
    pub open spec fn placed(
        self,
        intent: IntentView,
        order_id: Seq<char>,
        now: TimestampMs,
        placed: OrderView,
        after: RuntimeView,
    ) -> bool {
        let with = self.with_order_for(intent, order_id, now);
        let o = self.order_for(intent, order_id, now)->Ok_0;
        &&& self.paper.places(
            o.with_status(OrderStatus::Submitted, now),
            now,
            placed,
            after.paper,
        )
        &&& after == (RuntimeView {
            oms: with.oms.indexed(placed),
            paper: after.paper,
            ..with
        })
    }

    /// Whether the account's worth and profit and the age of the quote can be
    /// told.
    pub open spec fn rulable(self) -> bool {
        &&& self.market.age_countable(self.instrument.id)
        &&& self.equity() is Some
        &&& self.net_pnl() is Some
    }

    /// The order of an approved intent as it goes to the paper engine.
    pub open spec fn submitted(
        self,
        intent: IntentView,
        order_id: Seq<char>,
        now: TimestampMs,
    ) -> OrderView {
        self.order_for(intent, order_id, now)->Ok_0.with_status(OrderStatus::Submitted, now)
    }

    /// The process once the fills that wait have been taken from the paper
    /// engine.
    pub open spec fn drained(self) -> RuntimeView {
        RuntimeView { paper: PaperView { pending: Seq::empty(), ..self.paper }, ..self }
    }

    /// What applying the fills that wait does at `now`, and how that ends.
    pub open spec fn after_draining(self, now: TimestampMs) -> (RuntimeView, Ending) {
        self.drained().after_fills(self.paper.pending, self.paper.pending.len() as int, now)
    }

    /// What is to be stored and told of the fills that wait.
    pub open spec fn drain_report(self, now: TimestampMs) -> Seq<AppliedView> {
        self.drained().all_applied(self.paper.pending, self.paper.pending.len() as int, now)
    }

    /// Whether an order that was placed, with `self` the process then, comes to
    /// this result and leaves the process in this state: the fills that wait are
    /// applied, and what was booked is given back when the order is over without
    /// a fill.
    pub open spec fn settles(
        self,
        intent: IntentView,
        placed: OrderView,
        notional: DecimalView,
        now: TimestampMs,
        result: Option<core::result::Result<ExecutionView, ErrorView>>,
        after: RuntimeView,
    ) -> bool {
        let done = self.after_draining(now);
        let applied = self.drain_report(now);
        match done.1 {
            Ending::OutOfRange => result is None && after == done.0,
            Ending::Failed(e) => {
                &&& result == Some(
                    Ok::<_, ErrorView>(ExecutionView { order: placed, applied, failure: Some(e) }),
                )
                &&& after == done.0
            },
            Ending::Done => if placed.status.terminal() && placed.filled_quantity.mantissa == 0
                && !done.0.can_release(intent, notional) {
                result is None && after == done.0
            } else {
                &&& result == Some(
                    Ok::<_, ErrorView>(ExecutionView { order: placed, applied, failure: None }),
                )
                &&& after == if placed.status.terminal() && placed.filled_quantity.mantissa == 0 {
                    done.0.released(intent, notional)
                } else {
                    done.0
                }
            },
        }
    }

    /// Whether an approved intent, with `self` the process after the approval,
    /// comes to this result and leaves the process in this state.
    pub open spec fn carries_out(
        self,
        intent: IntentView,
        order_id: Seq<char>,
        notional: DecimalView,
        now: TimestampMs,
        result: Option<core::result::Result<ExecutionView, ErrorView>>,
        after: RuntimeView,
    ) -> bool {
        let with = self.with_order_for(intent, order_id, now);
        match self.obstacle(intent, order_id, now) {
            Some(e) => if self.can_release(intent, notional) {
                &&& result == Some(Err::<ExecutionView, _>(e))
                &&& after == with.released(intent, notional)
            } else {
                result is None && after == with
            },
            None => if self.paper.placement(self.submitted(intent, order_id, now), now) is None {
                result is None && after == with
            } else {
                exists|placed: OrderView, then: RuntimeView|
                    {
                        &&& #[trigger] self.placed(intent, order_id, now, placed, then)
                        &&& then.settles(intent, placed, notional, now, result, after)
                    }
            },
        }
    }

    /// Whether executing an intent at `now` comes to this result and leaves the
    /// process in this state. There is no result when a number on the way is out
    /// of range; the process then stays as it was when that was found.
    pub open spec fn executes(
        self,
        intent: IntentView,
        order_id: Seq<char>,
        now: TimestampMs,
        result: Option<core::result::Result<ExecutionView, ErrorView>>,
        after: RuntimeView,
    ) -> bool {
        let ruled = self.ruled(intent, now);
        if !self.in_scope(intent) {
            result == Some(Err::<ExecutionView, _>(out_of_scope())) && after == self
        } else if !self.rulable() {
            result is None && after == self
        } else {
            match self.ruling(intent, now) {
                None => result is None && after == (RuntimeView { risk: self.informed(), ..self }),
                Some(DecisionView::Rejected { rule, message }) => {
                    &&& result == Some(
                        Err::<ExecutionView, _>(ErrorView::RiskRejected { rule, message }),
                    )
                    &&& after == ruled
                },
                Some(DecisionView::Approved) => ruled.carries_out(
                    intent,
                    order_id,
                    self.booked(intent, now),
                    now,
                    result,
                    after,
                ),
            }
        }
    }

    /// Whether everything that executing an intent computes is in range.
    pub open spec fn can_execute(
        self,
        intent: IntentView,
        order_id: Seq<char>,
        now: TimestampMs,
    ) -> bool {
        forall|
            result: Option<core::result::Result<ExecutionView, ErrorView>>,
            after: RuntimeView,
        | #[trigger]
            self.executes(intent, order_id, now, result, after) ==> result is Some
    }
}

/// How something ended that may fail or leave the range of numbers.
pub enum Ending {
    Done,
    Failed(ErrorView),
    OutOfRange,
}

/// How something ended that may fail or leave the range of numbers.
#[derive(Debug)]
pub enum Outcome {
    Done,
    Failed(TuxError),
    OutOfRange,
}

impl View for Outcome {
    type V = Ending;

    open spec fn view(&self) -> Ending {
        match self {
            Outcome::Done => Ending::Done,
            Outcome::Failed(e) => Ending::Failed(e@),
            Outcome::OutOfRange => Ending::OutOfRange,
        }
    }
}

/// A fill that was applied, and what is to be stored and told of it: the new
/// ledger events, the order as it stands and the strategy with the fill counted.
#[derive(Debug)]
pub struct AppliedFill {
    pub fill: Fill,
    pub events: Vec<AccountingEvent>,
    pub order: Option<Order>,
    pub snapshot: StrategySnapshot,
}

/// What an [`AppliedFill`] holds.
#[verifier::ext_equal]
pub struct AppliedView {
    pub fill: FillView,
    pub events: Seq<LedgerView>,
    pub order: Option<OrderView>,
    pub snapshot: SnapshotView,
}

impl View for AppliedFill {
    type V = AppliedView;

    open spec fn view(&self) -> AppliedView {
        AppliedView {
            fill: self.fill@,
            events: views::seq_view(self.events@),
            order: views::opt_view(self.order),
            snapshot: self.snapshot@,
        }
    }
}

/// The fills that were applied, and how that ended.
#[derive(Debug)]
pub struct Drained {
    pub applied: Vec<AppliedFill>,
    pub outcome: Outcome,
}

/// An order that was placed, the fills that were applied then, and why that
/// stopped before the last one, if it did.
#[derive(Debug)]
pub struct Execution {
    pub order: Order,
    pub applied: Vec<AppliedFill>,
    pub failure: Option<TuxError>,
}

/// What an [`Execution`] holds.
#[verifier::ext_equal]
pub struct ExecutionView {
    pub order: OrderView,
    pub applied: Seq<AppliedView>,
    pub failure: Option<ErrorView>,
}

impl View for Execution {
    type V = ExecutionView;

    open spec fn view(&self) -> ExecutionView {
        ExecutionView {
            order: self.order@,
            applied: views::seq_view(self.applied@),
            failure: views::opt_view(self.failure),
        }
    }
}

impl Execution {
    /// What a caller is told: the order as it was placed, or why a fill could not
    /// be applied.
    pub fn into_result(self) -> (r: Result<Order>)
        ensures
            match self.failure {
                Some(e) => r == Err::<Order, TuxError>(e),
                None => r == Ok::<Order, TuxError>(self.order),
            },
    {
        match self.failure {
            Some(e) => Err(e),
            None => Ok(self.order),
        }
    }
}

/// The result of executing an intent, by its views.
pub open spec fn result_view(
    r: Option<Result<Execution>>,
) -> Option<core::result::Result<ExecutionView, ErrorView>> {
    match r {
        None => None,
        Some(Ok(x)) => Some(Ok(x@)),
        Some(Err(e)) => Some(Err(e@)),
    }
}

impl RuntimeState {
    /// Sets up a process, with the strategy as it was saved or a new one. The
    /// paper engine holds orders by the rules of the instrument.
    pub fn new(
        instrument: Instrument,
        account_id: AccountId,
        strategy_instance_id: StrategyInstanceId,
        saved: Option<StrategySnapshot>,
        paper: PaperEngine,
        risk: RiskEngine,
    ) -> (r: Self)
        ensures
            exists|now: TimestampMs|
                ids::clock_gives(now) && r@ == (RuntimeView {
                    instrument: instrument@,
                    account_id: account_id@,
                    strategy_instance_id: strategy_instance_id@,
                    quote_asset: instrument@.quote_asset,
                    base_asset: instrument@.base_asset,
                    market: MarketView::nothing(),
                    portfolio: PortfolioView::nothing(),
                    oms: OmsView::nothing(),
                    risk: risk@,
                    paper: paper@.with_instrument(instrument@),
                    strategy: match saved {
                        Some(s) => s@,
                        None => #[trigger] SnapshotView::fresh(
                            strategy_instance_id@,
                            account_id@,
                            instrument@.id,
                            now,
                        ),
                    },
                }),
    {
        let now = now_ms();
        let ghost kept = views::opt_view(saved);
        let mut paper = paper;
        paper.register_instrument(instrument.clone());
        let strategy = match saved {
            Some(s) => s,
            None => StrategySnapshot::fresh_at(
                &strategy_instance_id,
                &account_id,
                &instrument,
                now,
            ),
        };
        let r = RuntimeState {
            quote_asset: instrument.quote_asset.clone(),
            base_asset: instrument.base_asset.clone(),
            instrument,
            account_id,
            strategy_instance_id,
            market: MarketState::new(),
            portfolio: Portfolio::new(),
            oms: Oms::new(),
            risk,
            paper,
            strategy,
        };
        assert(r@.strategy == match kept {
            Some(s) => s,
            None => SnapshotView::fresh(
                strategy_instance_id@,
                account_id@,
                instrument@.id,
                now,
            ),
        });
        r
    }

    pub fn validate_scope(&self, intent: &OrderIntent) -> (r: Result<()>)
        ensures
            r is Ok <==> self@.in_scope(intent@),
            r matches Err(e) ==> e@ == out_of_scope(),
    {
        if intent.account_id != self.account_id || intent.strategy_instance_id
            != self.strategy_instance_id || intent.instrument_id != self.instrument.id {
            return Err(
                TuxError::InvalidOrder(
                    "intent account/strategy/instrument out of scope".to_owned(),
                ),
            );
        }
        Ok(())
    }

    pub fn strategy_snapshot(&self) -> (r: StrategySnapshot)
        ensures
            r@ == self@.strategy,
    {
        self.strategy.clone()
    }

    /// Gives the strategy new parameters at `now`, or says why not; `None`, and
    /// no change, when a number on the way is out of range.
    pub fn try_configure_strategy_at(
        &mut self,
        parameters: StrategyParameters,
        now: TimestampMs,
    ) -> (r: Option<Result<StrategySnapshot>>)
        ensures
            match old(self)@.parameters_verdict(parameters@) {
                None => r is None && final(self)@ == old(self)@,
                Some(Err(e)) => final(self)@ == old(self)@ && (r matches Some(Err(x)) && x@ == e),
                Some(Ok(_)) => if old(self)@.strategy.revision == u64::MAX {
                    r is None && final(self)@ == old(self)@
                } else {
                    &&& final(self)@ == (RuntimeView {
                        strategy: old(self)@.strategy.configured(parameters@, now),
                        ..old(self)@
                    })
                    &&& r matches Some(Ok(s)) && s@ == final(self)@.strategy
                },
            },
    {
        proof {
            decimal::lemma_sign_of_units(parameters.quantity@);
        }
        let lot_ok = if parameters.quantity <= Decimal::zero() {
            false
        } else {
            self.instrument.try_validate_qty(parameters.quantity)?
        };
        if !lot_ok {
            let qty = parameters.quantity.to_text();
            return Some(
                Err(
                    TuxError::Config(
                        crate::text::join3(
                            "quantity ",
                            qty.as_str(),
                            " violates instrument lot size",
                        ),
                    ),
                ),
            );
        }
        if parameters.limit_offset_bps.abs() > Decimal::new(1000, 0) {
            return Some(
                Err(
                    TuxError::Config("limit_offset_bps must be between -1000 and 1000".to_owned()),
                ),
            );
        }
        if matches!(parameters.order_type, OrderType::Stop | OrderType::PostOnly) {
            return Some(
                Err(
                    TuxError::Config(
                        "dashboard strategy supports limit or market orders".to_owned(),
                    ),
                ),
            );
        }
        if self.strategy.revision == u64::MAX {
            return None;
        }
        self.strategy.parameters = parameters;
        self.strategy.revision = self.strategy.revision + 1;
        self.strategy.updated_at = now;
        self.strategy.last_error = None;
        Some(Ok(self.strategy.clone()))
    }

    /// Takes the strategy to another state at `now`.
    pub fn set_strategy_status_at(
        &mut self,
        status: StrategyRunStatus,
        now: TimestampMs,
    ) -> (r: StrategySnapshot)
        ensures
            final(self)@ == (RuntimeView {
                strategy: old(self)@.strategy.in_status(status, now),
                ..old(self)@
            }),
            r@ == final(self)@.strategy,
    {
        self.strategy.status = status;
        self.strategy.updated_at = now;
        if status != StrategyRunStatus::Error {
            self.strategy.last_error = None;
        }
        self.strategy.clone()
    }

    /// The market at `now`, if there is a quote with a mid; the outer `None`
    /// says that a number on the way is out of range.
    pub fn try_current_market_at(&self, now: TimestampMs) -> (r: Option<Option<MarketSnapshot>>)
        requires
            -CLOCK_RANGE_MS <= now <= CLOCK_RANGE_MS,
        ensures
            match r {
                None => self@.market_now(now) is None,
                Some(m) => self@.market_now(now) == Some(views::opt_view(m)),
            },
    {
        let top = match self.market.top(&self.instrument.id) {
            Some(t) => t,
            None => return Some(None),
        };
        let mid = match top.try_mid()? {
            Some(m) => m,
            None => return Some(None),
        };
        if !(CLOCK_RANGE_MS - i64::MAX <= top.at && top.at <= i64::MAX - CLOCK_RANGE_MS) {
            return None;
        }
        Some(
            Some(
                MarketSnapshot {
                    instrument_id: self.instrument.id.as_str().to_owned(),
                    bid: top.bid_price,
                    ask: top.ask_price,
                    mid,
                    bid_quantity: top.bid_qty,
                    ask_quantity: top.ask_qty,
                    occurred_at: top.at,
                    age_ms: top.age_ms(now),
                },
            ),
        )
    }

    /// The price of the strategy's next order.
    fn signal_price(&self) -> (r: Option<Result<Option<Decimal>>>)
        ensures
            match self@.signal() {
                None => r is None,
                Some(Err(e)) => r matches Some(Err(x)) && x@ == e,
                Some(Ok(p)) => r matches Some(Ok(x)) && views::opt_view(x) == p,
            },
    {
        if !self.strategy.status.can_execute() {
            return Some(
                Err(
                    TuxError::InvalidOrder(join2("strategy is ", self.strategy.status.as_str())),
                ),
            );
        }
        let top = match self.market.top(&self.instrument.id) {
            Some(t) => t,
            None => return Some(
                Err(
                    TuxError::StaleMarketData {
                        instrument: self.instrument.id.as_str().to_owned(),
                    },
                ),
            ),
        };
        match self.strategy.parameters.order_type {
            OrderType::Market => Some(Ok(None)),
            OrderType::Limit => {
                let fraction = self.strategy.parameters.limit_offset_bps.checked_div(
                    Decimal::new(10_000, 0),
                )?;
                let raw = match self.strategy.parameters.side {
                    OrderSide::Buy => top.ask_price.checked_mul(
                        Decimal::one().checked_add(fraction)?,
                    )?,
                    OrderSide::Sell => top.bid_price.checked_mul(
                        Decimal::one().checked_sub(fraction)?,
                    )?,
                };
                match try_round_to_step(raw, self.instrument.tick_size)? {
                    Some(px) => Some(Ok(Some(px))),
                    None => Some(
                        Err(
                            TuxError::Config(
                                "instrument price tick must be positive".to_owned(),
                            ),
                        ),
                    ),
                }
            },
            _ => Some(
                Err(TuxError::InvalidOrder("unsupported strategy order type".to_owned())),
            ),
        }
    }

    /// The strategy's next order at `now` under the given identifiers, or why
    /// there is none; `None`, and no change, when a number on the way is out of
    /// range.
    pub fn try_strategy_intent_with(
        &mut self,
        id: IntentId,
        client_order_id: ClientOrderId,
        now: TimestampMs,
    ) -> (r: Option<Result<OrderIntent>>)
        ensures
            match old(self)@.signal() {
                None => r is None && final(self)@ == old(self)@,
                Some(Err(e)) => final(self)@ == old(self)@ && (r matches Some(Err(x)) && x@ == e),
                Some(Ok(price)) => if old(self)@.strategy.signals == u64::MAX {
                    r is None && final(self)@ == old(self)@
                } else {
                    &&& final(self)@ == (RuntimeView {
                        strategy: old(self)@.strategy.signalled(now),
                        ..old(self)@
                    })
                    &&& r matches Some(Ok(x)) && x@ == old(self)@.intent_at(
                        price,
                        id@,
                        client_order_id@,
                        now,
                    )
                },
            },
    {
        let price = match self.signal_price()? {
            Ok(p) => p,
            Err(e) => return Some(Err(e)),
        };
        if self.strategy.signals == u64::MAX {
            return None;
        }
        self.strategy.signals = self.strategy.signals + 1;
        self.strategy.last_signal_at = Some(now);
        self.strategy.updated_at = now;
        Some(
            Ok(
                OrderIntent {
                    id,
                    strategy_instance_id: self.strategy_instance_id.clone(),
                    account_id: self.account_id.clone(),
                    instrument_id: self.instrument.id.clone(),
                    side: self.strategy.parameters.side,
                    order_type: self.strategy.parameters.order_type,
                    time_in_force: self.strategy.parameters.time_in_force,
                    price,
                    quantity: self.strategy.parameters.quantity,
                    reduce_only: ReduceOnly::No,
                    position_side: PositionSide::Both,
                    leverage: None,
                    client_order_id,
                    reason: Some("dashboard strategy trigger".to_owned()),
                    created_at: now,
                },
            ),
        )
    }

    /// Counts a signal at `now`; `None`, and no change, when there are too many.
    pub fn note_strategy_signal_at(&mut self, now: TimestampMs) -> (r: Option<StrategySnapshot>)
        ensures
            if old(self)@.strategy.signals == u64::MAX {
                r is None && final(self)@ == old(self)@
            } else {
                &&& final(self)@ == (RuntimeView {
                    strategy: old(self)@.strategy.signalled(now),
                    ..old(self)@
                })
                &&& r matches Some(s) && s@ == final(self)@.strategy
            },
    {
        if self.strategy.signals == u64::MAX {
            return None;
        }
        self.strategy.signals = self.strategy.signals + 1;
        self.strategy.last_signal_at = Some(now);
        self.strategy.updated_at = now;
        Some(self.strategy.clone())
    }

    /// Counts an order at `now`; `None`, and no change, when there are too many.
    pub fn note_strategy_order_at(
        &mut self,
        order: &Order,
        now: TimestampMs,
    ) -> (r: Option<StrategySnapshot>)
        ensures
            if old(self)@.strategy.orders == u64::MAX {
                r is None && final(self)@ == old(self)@
            } else {
                &&& final(self)@ == (RuntimeView {
                    strategy: old(self)@.strategy.ordered(order@.id, now),
                    ..old(self)@
                })
                &&& r matches Some(s) && s@ == final(self)@.strategy
            },
    {
        if self.strategy.orders == u64::MAX {
            return None;
        }
        self.strategy.orders = self.strategy.orders + 1;
        self.strategy.last_order_id = Some(order.id.as_str().to_owned());
        self.strategy.last_error = None;
        self.strategy.updated_at = now;
        Some(self.strategy.clone())
    }

    /// Takes back what was booked for an intent, or says `false` and changes
    /// nothing when a sum is out of range.
    fn release_risk(&mut self, intent: &OrderIntent, notional: Decimal) -> (r: bool)
        ensures
            r == old(self)@.can_release(intent@, notional@),
            r ==> final(self)@ == old(self)@.released(intent@, notional@),
            !r ==> final(self)@ == old(self)@,
    {
        self.risk.try_note_order_terminal(
            &intent.strategy_instance_id,
            &intent.account_id,
            notional,
        )
    }

    /// Takes back what was booked for an intent and gives an error; `None`, and no
    /// change, when a sum is out of range.
    fn give_up(
        &mut self,
        intent: &OrderIntent,
        notional: Decimal,
        error: TuxError,
    ) -> (r: Option<Result<Execution>>)
        ensures
            match r {
                None => !old(self)@.can_release(intent@, notional@) && final(self)@ == old(self)@,
                Some(x) => {
                    &&& old(self)@.can_release(intent@, notional@)
                    &&& final(self)@ == old(self)@.released(intent@, notional@)
                    &&& x == Err::<Execution, TuxError>(error)
                },
            },
    {
        if self.release_risk(intent, notional) {
            Some(Err(error))
        } else {
            None
        }
    }

    /// What the account is worth; `None` when that is out of range.
    pub fn try_equity_mtm(&self) -> (r: Option<Decimal>)
        ensures
            views::opt_view(r) == self@.equity(),
    {
        let reference = self.market.try_reference_price(&self.instrument.id)?;
        let mut marks: Table<Decimal> = Table::new();
        marks.insert(self.quote_asset.clone(), Decimal::one());
        if let Some(price) = reference {
            marks.insert(self.base_asset.clone(), price);
        }
        self.portfolio.try_equity_mtm(&self.account_id, self.quote_asset.as_str(), &marks)
    }

    pub fn equity_mtm(&self) -> (r: Decimal)
        requires
            self@.equity() is Some,
        ensures
            self@.equity() == Some(r@),
    {
        self.try_equity_mtm().unwrap()
    }

    /// The account's net profit; `None` when that is out of range.
    fn try_net_pnl(&self) -> (r: Option<Decimal>)
        ensures
            views::opt_view(r) == self@.net_pnl(),
    {
        match self.portfolio.pnl_book(&self.account_id) {
            Some(b) => b.try_net_pnl(),
            None => Some(Decimal::zero()),
        }
    }

    /// Asks the risk engine about an intent at `now`.
    fn rule_on(
        &mut self,
        intent: &OrderIntent,
        now: TimestampMs,
    ) -> (r: Option<(RiskDecision, Decimal)>)
        requires
            -CLOCK_RANGE_MS <= now <= CLOCK_RANGE_MS,
        ensures
            match r {
                None => if old(self)@.rulable() {
                    &&& old(self)@.ruling(intent@, now) is None
                    &&& final(self)@ == (RuntimeView { risk: old(self)@.informed(), ..old(self)@ })
                } else {
                    final(self)@ == old(self)@
                },
                Some(x) => {
                    &&& old(self)@.rulable()
                    &&& old(self)@.ruling(intent@, now) == Some(x.0@)
                    &&& final(self)@ == old(self)@.ruled(intent@, now)
                    &&& x.0@ == DecisionView::Approved ==> x.1@ == old(self)@.booked(intent@, now)
                },
            },
    {
        let countable = match self.market.top(&self.instrument.id) {
            Some(t) => CLOCK_RANGE_MS - i64::MAX <= t.at && t.at <= i64::MAX - CLOCK_RANGE_MS,
            None => true,
        };
        if !countable {
            return None;
        }
        let age = self.market.age_ms_at(&self.instrument.id, now);
        let equity = self.try_equity_mtm()?;
        let daily = self.try_net_pnl()?;
        let market_ref = self.market.try_reference_price(&self.instrument.id)?;
        let ghost x = self@.question(intent@, now);
        assert(x == risk::check_input(
            intent,
            &self.instrument,
            market_ref,
            age,
            &self.portfolio,
        ));
        self.risk.update_pnl_facts(equity, daily);
        let decision = self.risk.try_check_intent_at(
            intent,
            &self.instrument,
            market_ref,
            age,
            &self.portfolio,
            now,
        )?;
        let notional = match order_notional(intent, market_ref) {
            Some(Some(n)) => n,
            _ => Decimal::zero(),
        };
        proof {
            if decision@ == DecisionView::Approved {
                assert(x.notional() is Some && x.notional()->0 is Some);
            }
        }
        Some((decision, notional))
    }

    /// Applies the fills that wait after an order was placed, and gives back what
    /// was booked when the order is over without a fill.
    fn settle(
        &mut self,
        intent: &OrderIntent,
        order: Order,
        notional: Decimal,
        now: TimestampMs,
    ) -> (r: Option<Result<Execution>>)
        ensures
            old(self)@.settles(
                intent@,
                order@,
                notional@,
                now,
                result_view(r),
                final(self)@,
            ),
    {
        let drained = self.drain_fills_at(now);
        match drained.outcome {
            Outcome::OutOfRange => return None,
            Outcome::Failed(e) => {
                return Some(Ok(Execution { order, applied: drained.applied, failure: Some(e) }));
            },
            Outcome::Done => {},
        }
        if order.status.is_terminal() && order.filled_quantity.is_zero() {
            if !self.release_risk(intent, notional) {
                return None;
            }
        }
        Some(Ok(Execution { order, applied: drained.applied, failure: None }))
    }

    /// Executes an intent at `now`, a new order getting `order_id`: checks it
    /// against the risk limits, keeps its order, places it and applies the fills;
    /// `None` when a number on the way is out of range.
    pub fn try_execute_intent_at(
        &mut self,
        intent: &OrderIntent,
        order_id: OrderId,
        now: TimestampMs,
    ) -> (r: Option<Result<Execution>>)
        requires
            -CLOCK_RANGE_MS <= now <= CLOCK_RANGE_MS,
        ensures
            old(self)@.executes(intent@, order_id@, now, result_view(r), final(self)@),
    {
        match self.validate_scope(intent) {
            Ok(()) => {},
            Err(e) => return Some(Err(e)),
        }
        let (decision, notional) = self.rule_on(intent, now)?;
        if let RiskDecision::Rejected { rule, message } = decision {
            return Some(Err(TuxError::RiskRejected { rule, message }));
        }
        self.carry_out(intent, order_id, notional, now)
    }

    /// Keeps the order of an approved intent, places it and applies the fills.
    fn carry_out(
        &mut self,
        intent: &OrderIntent,
        order_id: OrderId,
        notional: Decimal,
        now: TimestampMs,
    ) -> (r: Option<Result<Execution>>)
        ensures
            old(self)@.carries_out(
                intent@,
                order_id@,
                notional@,
                now,
                result_view(r),
                final(self)@,
            ),
    {
        let ghost id = order_id@;
        let ghost ruled = self@;
        let order = match self.oms.create_from_intent_with(intent, order_id, now) {
            Ok(o) => o,
            Err(e) => return self.give_up(intent, notional, e),
        };
        assert(self@ == ruled.with_order_for(intent@, id, now));
        let mut submitted = order;
        match OrderStateMachine::transition_at(&mut submitted, OrderStatus::Submitted, now) {
            Ok(()) => {},
            Err(e) => return self.give_up(intent, notional, e),
        }
        assert(submitted@ == ruled.submitted(intent@, id, now));
        let placed = match self.paper.try_place_order_at(&submitted, now)? {
            Ok(p) => p,
            Err(e) => return self.give_up(intent, notional, e),
        };
        self.oms.upsert(placed.clone());
        assert(ruled.placed(intent@, id, now, placed@, self@));
        self.settle(intent, placed, notional, now)
    }

    pub fn kill_switch_engaged(&self) -> (r: bool)
        ensures
            r == self@.risk.kill_switch.engaged,
    {
        self.risk.is_halted()
    }
}

impl RuntimeView {
    /// The market at `now`, if there is a quote with a mid; the outer option
    /// says whether the numbers on the way are in range.
    pub open spec fn market_now(self, now: TimestampMs) -> Option<Option<MarketSnapshotView>> {
        match self.market.top(self.instrument.id) {
            None => Some(None),
            Some(t) => match t.mid() {
                None => None,
                Some(None) => Some(None),
                Some(Some(mid)) => if !self.market.age_countable(self.instrument.id) {
                    None
                } else {
                    Some(
                        Some(
                            MarketSnapshotView {
                                instrument_id: self.instrument.id,
                                bid: t.bid_price,
                                ask: t.ask_price,
                                mid,
                                bid_quantity: t.bid_qty,
                                ask_quantity: t.ask_qty,
                                occurred_at: t.at,
                                age_ms: t.age(now) as u64,
                            },
                        ),
                    )
                },
            },
        }
    }
}

pub open spec fn fill_account_mismatch() -> ErrorView {
    ErrorView::InvalidOrder("fill account mismatch"@)
}

/// The starting balance of an account that has none.
pub open spec fn starting_balance(
    account_id: Seq<char>,
    quote_asset: Seq<char>,
    now: TimestampMs,
) -> BalanceView {
    BalanceView {
        account_id,
        asset: quote_asset,
        free: DecimalView::of(10_000, 0),
        locked: DecimalView::zero(),
        updated_at: now,
    }
}

impl RuntimeView {
    /// A fill, as far as the books are concerned.
    pub open spec fn spot_fill(self, f: FillView) -> SpotFill {
        SpotFill {
            account: f.account_id,
            instrument: self.instrument,
            side: f.side,
            price: f.price,
            qty: f.quantity,
            fee: f.fee.amount,
            fee_asset: f.fee.asset,
        }
    }

    /// What an order is worth by its own price, or a market order by that of a
    /// fill.
    pub open spec fn order_worth(o: OrderView, f: FillView) -> Option<DecimalView> {
        match o.worth(Some(f.price)) {
            Some(Some(n)) => Some(n),
            _ => None,
        }
    }

    /// The process with a fill in its books.
    pub open spec fn with_booked(self, f: FillView, now: TimestampMs) -> RuntimeView {
        RuntimeView { portfolio: self.portfolio.with_fill(self.spot_fill(f), now), ..self }
    }

    /// What a fill does at `now`, and how that ends: it goes into the books, its
    /// order is noted, and the strategy counts it. When a number on the way is out
    /// of range, the process stays as it was when that was found.
    pub open spec fn after_fill(self, f: FillView, now: TimestampMs) -> (RuntimeView, Ending) {
        if f.account_id != self.account_id {
            (self, Ending::Failed(fill_account_mismatch()))
        } else {
            match self.portfolio.fill_verdict(self.spot_fill(f)) {
                None => (self, Ending::OutOfRange),
                Some(Err(e)) => (self, Ending::Failed(e)),
                Some(Ok(_)) => {
                    let booked = self.with_booked(f, now);
                    let noted = booked.noted(f);
                    if !booked.can_note(f) {
                        (booked, Ending::OutOfRange)
                    } else if noted.strategy.fills == u64::MAX {
                        (noted, Ending::OutOfRange)
                    } else {
                        (
                            RuntimeView { strategy: noted.strategy.filled(now), ..noted },
                            Ending::Done,
                        )
                    }
                },
            }
        }
    }

    /// Whether the numbers of a fill are in range.
    pub open spec fn can_apply(self, f: FillView) -> bool {
        f.account_id == self.account_id ==> match self.portfolio.fill_verdict(self.spot_fill(f)) {
            None => false,
            Some(Err(_)) => true,
            Some(Ok(_)) => self.can_note(f) && self.strategy.fills < u64::MAX,
        }
    }

    /// What is to be stored and told of a fill that was applied.
    pub open spec fn applied(self, f: FillView, now: TimestampMs) -> AppliedView {
        let after = self.after_fill(f, now).0;
        AppliedView {
            fill: f,
            events: after.portfolio.ledger.skip(self.portfolio.ledger.len() as int),
            order: table::lookup(self.paper.orders, f.order_id),
            snapshot: after.strategy,
        }
    }

    /// What the first `n` fills do, one after the other, up to the first one that
    /// cannot be applied.
    pub open spec fn after_fills(
        self,
        fills: Seq<FillView>,
        n: int,
        now: TimestampMs,
    ) -> (RuntimeView, Ending)
        decreases n,
    {
        if n <= 0 {
            (self, Ending::Done)
        } else {
            let before = self.after_fills(fills, n - 1, now);
            if before.1 is Done {
                before.0.after_fill(fills[n - 1], now)
            } else {
                before
            }
        }
    }

    /// What is to be stored and told of the first `n` fills.
    pub open spec fn all_applied(
        self,
        fills: Seq<FillView>,
        n: int,
        now: TimestampMs,
    ) -> Seq<AppliedView>
        decreases n,
    {
        if n <= 0 {
            Seq::empty()
        } else {
            let before = self.after_fills(fills, n - 1, now);
            let applied = self.all_applied(fills, n - 1, now);
            if before.1 is Done && before.0.after_fill(fills[n - 1], now).1 is Done {
                applied.push(before.0.applied(fills[n - 1], now))
            } else {
                applied
            }
        }
    }

    /// Whether what a fill did to its order can be noted.
    pub open spec fn can_note(self, f: FillView) -> bool {
        match table::lookup(self.paper.orders, f.order_id) {
            None => true,
            Some(o) => o.status.terminal() ==> (RuntimeView::order_worth(o, f) matches Some(n) && (
            o.strategy_instance_id matches Some(s) ==> self.risk.can_release(s, o.account_id, n))),
        }
    }

    /// The process with what a fill did to its order noted: the order as the
    /// paper engine has it, and its notional given back when it is over.
    pub open spec fn noted(self, f: FillView) -> RuntimeView {
        match table::lookup(self.paper.orders, f.order_id) {
            None => self,
            Some(o) => RuntimeView {
                oms: self.oms.indexed(o),
                risk: match o.strategy_instance_id {
                    Some(s) if o.status.terminal() => self.risk.without_order(
                        s,
                        o.account_id,
                        RuntimeView::order_worth(o, f)->0,
                    ),
                    _ => self.risk,
                },
                ..self
            },
        }
    }

    /// The process with the first `n` balances seeded.
    pub open spec fn with_balances(self, balances: Seq<BalanceView>, n: int) -> RuntimeView
        decreases n,
    {
        if n <= 0 {
            self
        } else {
            let before = self.with_balances(balances, n - 1);
            before.with_balance(balances[n - 1])
        }
    }

    pub open spec fn with_balance(self, b: BalanceView) -> RuntimeView {
        RuntimeView {
            portfolio: PortfolioView {
                balances: table::put(
                    self.portfolio.balances,
                    portfolio::pair_key(b.account_id, b.asset),
                    b,
                ),
                ..self.portfolio
            },
            ..self
        }
    }

    /// The process with one order taken up again after a restart, if it is in
    /// the instrument: an order at work is booked and can match again. Nothing
    /// when a number on the way is out of range.
    pub open spec fn with_restored(self, o: OrderView) -> Option<RuntimeView> {
        if o.instrument_id != self.instrument.id {
            Some(self)
        } else if !o.status.active() {
            Some(RuntimeView { oms: self.oms.indexed(o), ..self })
        } else {
            match self.market.reference(self.instrument.id) {
                None => None,
                Some(reference) => match o.worth(reference) {
                    None => None,
                    Some(worth) => {
                        let n = match worth {
                            Some(n) => n,
                            None => DecimalView::zero(),
                        };
                        let at_work = RuntimeView {
                            oms: self.oms.indexed(o),
                            paper: self.paper.with_order(o, None),
                            ..self
                        };
                        match o.strategy_instance_id {
                            None => Some(at_work),
                            Some(s) => if self.risk.can_book(s, o.account_id, n) {
                                Some(
                                    RuntimeView {
                                        risk: self.risk.with_order(s, o.account_id, n),
                                        ..at_work
                                    },
                                )
                            } else {
                                None
                            },
                        }
                    },
                },
            }
        }
    }

    /// The process with the first `n` orders taken up again.
    pub open spec fn with_all_restored(self, open: Seq<OrderView>, n: int) -> Option<RuntimeView>
        decreases n,
    {
        if n <= 0 {
            Some(self)
        } else {
            match self.with_all_restored(open, n - 1) {
                None => None,
                Some(before) => before.with_restored(open[n - 1]),
            }
        }
    }

    /// How many of the first `n` orders are taken up as orders at work.
    pub open spec fn restored_count(self, open: Seq<OrderView>, n: int) -> nat
        decreases n,
    {
        if n <= 0 {
            0
        } else {
            let o = open[n - 1];
            let before = self.restored_count(open, n - 1);
            if o.instrument_id == self.instrument.id && o.status.active() {
                before + 1
            } else {
                before
            }
        }
    }

    /// The process with the first `n` orders taken up again, up to the first one
    /// for which a number is out of range.
    pub open spec fn restored_so_far(self, open: Seq<OrderView>, n: int) -> RuntimeView
        decreases n,
    {
        if n <= 0 {
            self
        } else {
            match self.with_all_restored(open, n) {
                Some(after) => after,
                None => self.restored_so_far(open, n - 1),
            }
        }
    }

    /// Where the account stands at `now`.
    pub open spec fn equity_point(self, now: TimestampMs) -> EquityView {
        EquityView {
            ts: now,
            account_id: self.account_id,
            equity: self.equity()->0,
            net_pnl: self.net_pnl()->0,
            fees: self.portfolio.book(self.account_id).trading_fees,
        }
    }
}

impl RuntimeState {
    /// Takes a fill into the books at `now` and gives the new ledger events, or
    /// says why not; `None`, and no change, when a number on the way is out of
    /// range.
    fn book_fill(
        &mut self,
        fill: &Fill,
        now: TimestampMs,
    ) -> (r: Option<Result<Vec<AccountingEvent>>>)
        ensures
            if fill@.account_id != old(self)@.account_id {
                &&& final(self)@ == old(self)@
                &&& r matches Some(Err(e)) && e@ == fill_account_mismatch()
            } else {
                let f = old(self)@.spot_fill(fill@);
                match old(self)@.portfolio.fill_verdict(f) {
                    None => r is None && final(self)@ == old(self)@,
                    Some(Err(e)) => final(self)@ == old(self)@ && (r matches Some(Err(x)) && x@
                        == e),
                    Some(Ok(_)) => {
                        &&& final(self)@ == old(self)@.with_booked(fill@, now)
                        &&& r matches Some(Ok(events)) && views::seq_view(events@)
                            == final(self)@.portfolio.ledger.skip(
                            old(self)@.portfolio.ledger.len() as int,
                        )
                    },
                }
            },
    {
        if fill.account_id != self.account_id {
            return Some(Err(TuxError::InvalidOrder("fill account mismatch".to_owned())));
        }
        let start = self.portfolio.ledger().len();
        match self.portfolio.try_apply_spot_fill_at(
            &fill.account_id,
            &self.instrument,
            fill.side,
            fill.price,
            fill.quantity,
            fill.fee.amount,
            fill.fee.asset.as_str(),
            now,
        )? {
            Ok(()) => {},
            Err(e) => return Some(Err(e)),
        }
        let ledger = self.portfolio.ledger();
        let ghost all = views::seq_view(ledger@);
        let mut events: Vec<AccountingEvent> = Vec::new();
        let mut i = start;
        assert(views::seq_view(events@) =~= all.subrange(start as int, start as int));
        while i < ledger.len()
            invariant
                start <= i,
                start <= ledger@.len() ==> i <= ledger@.len(),
                all == views::seq_view(ledger@),
                start <= ledger@.len() ==> views::seq_view(events@) == all.subrange(
                    start as int,
                    i as int,
                ),
            decreases ledger@.len() - i,
        {
            let e = ledger[i].clone();
            proof {
                views::lemma_seq_view_push(events@, e);
                assert(all.subrange(start as int, i + 1) =~= all.subrange(
                    start as int,
                    i as int,
                ).push(e@));
            }
            events.push(e);
            i = i + 1;
        }
        assert(all.subrange(start as int, all.len() as int) =~= all.skip(start as int));
        Some(Ok(events))
    }

    /// Notes what a fill did to its order and gives the order, if the paper
    /// engine has it; `None`, and no change, when a number on the way is out of
    /// range.
    fn note_filled_order(&mut self, fill: &Fill) -> (r: Option<Option<Order>>)
        ensures
            r is Some <==> old(self)@.can_note(fill@),
            r is None ==> final(self)@ == old(self)@,
            r matches Some(o) ==> {
                &&& final(self)@ == old(self)@.noted(fill@)
                &&& views::opt_view(o) == table::lookup(
                    old(self)@.paper.orders,
                    fill@.order_id,
                )
            },
    {
        let order = match self.paper.query_order_blocking(&fill.order_id) {
            Ok(o) => o,
            Err(_) => return Some(None),
        };
        if order.status.is_terminal() {
            let notional = match try_worth_at(
                order.order_type,
                order.price,
                order.quantity,
                Some(fill.price),
            )? {
                Some(n) => n,
                None => Decimal::zero(),
            };
            if let Some(strategy_id) = &order.strategy_instance_id {
                if !self.risk.try_note_order_terminal(strategy_id, &order.account_id, notional) {
                    return None;
                }
            }
        }
        self.oms.upsert(order.clone());
        Some(Some(order))
    }

    /// Counts a fill at `now`; `None`, and no change, when there are too many.
    fn count_fill(&mut self, now: TimestampMs) -> (r: Option<StrategySnapshot>)
        ensures
            if old(self)@.strategy.fills == u64::MAX {
                r is None && final(self)@ == old(self)@
            } else {
                &&& final(self)@ == (RuntimeView {
                    strategy: old(self)@.strategy.filled(now),
                    ..old(self)@
                })
                &&& r matches Some(s) && s@ == final(self)@.strategy
            },
    {
        if self.strategy.fills == u64::MAX {
            return None;
        }
        self.strategy.fills = self.strategy.fills + 1;
        self.strategy.updated_at = now;
        Some(self.strategy.clone())
    }

    /// Applies a fill at `now`: takes it into the books, notes what it did to its
    /// order and counts it, or says why not; `None` when a number on the way is out
    /// of range.
    pub fn try_apply_fill_at(
        &mut self,
        fill: &Fill,
        now: TimestampMs,
    ) -> (r: Option<Result<AppliedFill>>)
        ensures
            final(self)@ == old(self)@.after_fill(fill@, now).0,
            match old(self)@.after_fill(fill@, now).1 {
                Ending::Done => r matches Some(Ok(x)) && x@ == old(self)@.applied(fill@, now),
                Ending::Failed(e) => r matches Some(Err(x)) && x@ == e,
                Ending::OutOfRange => r is None,
            },
    {
        let events = match self.book_fill(fill, now)? {
            Ok(events) => events,
            Err(e) => return Some(Err(e)),
        };
        let order = self.note_filled_order(fill)?;
        let snapshot = self.count_fill(now)?;
        Some(Ok(AppliedFill { fill: fill.clone(), events, order, snapshot }))
    }

    /// Takes the fills that wait from the paper engine and applies them at `now`,
    /// one after the other, up to the first one that cannot be applied.
    pub fn drain_fills_at(&mut self, now: TimestampMs) -> (r: Drained)
        ensures
            (final(self)@, r.outcome@) == old(self)@.after_draining(now),
            views::seq_view(r.applied@) == old(self)@.drain_report(now),
    {
        let fills = self.paper.take_fills();
        let ghost all = views::seq_view(fills@);
        let ghost start = self@;
        assert(start == old(self)@.drained());
        let mut applied: Vec<AppliedFill> = Vec::new();
        let mut i: usize = 0;
        assert(views::seq_view(applied@) =~= start.all_applied(all, 0, now));
        while i < fills.len()
            invariant
                i <= fills@.len(),
                all == views::seq_view(fills@),
                start.after_fills(all, i as int, now) == (self@, Ending::Done),
                views::seq_view(applied@) == start.all_applied(all, i as int, now),
                all == old(self)@.paper.pending,
                start == old(self)@.drained(),
            decreases fills@.len() - i,
        {
            assert(fills@[i as int]@ == all[i as int]);
            match self.try_apply_fill_at(&fills[i], now) {
                Some(Ok(x)) => {
                    proof {
                        views::lemma_seq_view_push(applied@, x);
                    }
                    applied.push(x);
                },
                Some(Err(e)) => {
                    proof {
                        lemma_fills_stop(start, all, i + 1, all.len() as int, now);
                    }
                    return Drained { applied, outcome: Outcome::Failed(e) };
                },
                None => {
                    proof {
                        lemma_fills_stop(start, all, i + 1, all.len() as int, now);
                    }
                    return Drained { applied, outcome: Outcome::OutOfRange };
                },
            }
            i = i + 1;
        }
        Drained { applied, outcome: Outcome::Done }
    }

    /// Where the account stands at `now`, with its balances; the risk engine
    /// learns of it. `None`, and no change, when a number on the way is out of
    /// range.
    pub fn try_equity_point_at(
        &mut self,
        now: TimestampMs,
    ) -> (r: Option<(EquityPoint, Vec<Balance>)>)
        ensures
            r is Some <==> old(self)@.equity() is Some && old(self)@.net_pnl() is Some,
            r is None ==> final(self)@ == old(self)@,
            r matches Some(x) ==> {
                &&& x.0@ == old(self)@.equity_point(now)
                &&& views::seq_view(x.1@) == old(self)@.portfolio.balances_of(
                    old(self)@.account_id,
                    old(self)@.portfolio.balances.len() as int,
                )
                &&& final(self)@ == (RuntimeView { risk: old(self)@.informed(), ..old(self)@ })
            },
    {
        let equity = self.try_equity_mtm()?;
        let net_pnl = self.try_net_pnl()?;
        let fees = match self.portfolio.pnl_book(&self.account_id) {
            Some(b) => b.components.trading_fees,
            None => Decimal::zero(),
        };
        let held = self.portfolio.balances_for(&self.account_id);
        let mut balances: Vec<Balance> = Vec::new();
        let mut i: usize = 0;
        while i < held.len()
            invariant
                i <= held@.len(),
                balances@.len() == i,
                forall|j: int| 0 <= j < i ==> (#[trigger] balances@[j])@ == held@[j]@,
            decreases held@.len() - i,
        {
            balances.push(held[i].clone());
            i = i + 1;
        }
        assert(views::seq_view(balances@) =~= views::seq_view(held@));
        self.risk.update_pnl_facts(equity, net_pnl);
        Some(
            (
                EquityPoint {
                    ts: now,
                    account_id: self.account_id.as_str().to_owned(),
                    equity,
                    net_pnl,
                    fees,
                },
                balances,
            ),
        )
    }

    /// Seeds the balances that were stored, or the starting balance where none
    /// were.
    pub fn restore_balances_at(&mut self, balances: Vec<Balance>, now: TimestampMs)
        ensures
            final(self)@ == if balances@.len() == 0 {
                old(self)@.with_balance(
                    starting_balance(old(self)@.account_id, old(self)@.quote_asset, now),
                )
            } else {
                old(self)@.with_balances(
                    views::seq_view(balances@),
                    balances@.len() as int,
                )
            },
    {
        if balances.len() == 0 {
            let b = Balance {
                account_id: self.account_id.clone(),
                asset: self.quote_asset.clone(),
                free: Decimal::new(10_000, 0),
                locked: Decimal::zero(),
                updated_at: now,
            };
            self.portfolio.seed_balance(b);
        } else {
            let ghost all = views::seq_view(balances@);
            let ghost start = self@;
            let mut i: usize = 0;
            while i < balances.len()
                invariant
                    i <= balances@.len(),
                    all == views::seq_view(balances@),
                    self@ == start.with_balances(all, i as int),
                decreases balances@.len() - i,
            {
                let b = balances[i].clone();
                assert(b@ == all[i as int]);
                self.portfolio.seed_balance(b);
                i = i + 1;
            }
        }
    }

    /// Takes up stored orders again and says how many of them are at work;
    /// `None` when a number is out of range for one of them, with the orders before
    /// that one taken up.
    pub fn try_restore_orders(&mut self, open: &Vec<Order>) -> (r: Option<usize>)
        ensures
            r is Some <==> old(self)@.with_all_restored(
                views::seq_view(open@),
                open@.len() as int,
            ) is Some,
            r matches Some(n) ==> {
                &&& Some(final(self)@) == old(self)@.with_all_restored(
                    views::seq_view(open@),
                    open@.len() as int,
                )
                &&& n == old(self)@.restored_count(views::seq_view(open@), open@.len() as int)
            },
            final(self)@ == old(self)@.restored_so_far(
                views::seq_view(open@),
                open@.len() as int,
            ),
    {
        let ghost all = views::seq_view(open@);
        let ghost start = self@;
        let mut count: usize = 0;
        let mut i: usize = 0;
        while i < open.len()
            invariant
                i <= open@.len(),
                all == views::seq_view(open@),
                start == old(self)@,
                start.with_all_restored(all, i as int) == Some(self@),
                self@.instrument == start.instrument,
                count == start.restored_count(all, i as int),
                count <= i,
            decreases open@.len() - i,
        {
            let order = &open[i];
            let ghost before = self@;
            assert(order@ == all[i as int]);
            if order.instrument_id == self.instrument.id {
                if order.status.is_active() {
                    if !self.restore_active(order) {
                        proof {
                            assert(start.restored_so_far(all, i as int) == before);
                            lemma_restore_stays_out(start, all, i + 1, all.len() as int);
                        }
                        return None;
                    }
                    count = count + 1;
                }
                self.oms.upsert(order.clone());
            }
            assert(before.with_restored(order@) == Some(self@));
            i = i + 1;
        }
        Some(count)
    }

    /// Books an order at work again and lets it match, or says `false` when a
    /// number on the way is out of range.
    fn restore_active(&mut self, order: &Order) -> (r: bool)
        requires
            order@.instrument_id == old(self)@.instrument.id,
            order@.status.active(),
        ensures
            r == old(self)@.with_restored(order@) is Some,
            !r ==> final(self)@ == old(self)@,
            r ==> Some(
                RuntimeView { oms: final(self)@.oms.indexed(order@), ..final(self)@ },
            ) == old(self)@.with_restored(order@),
            final(self)@.oms == old(self)@.oms,
    {
        let reference = match self.market.try_reference_price(&self.instrument.id) {
            Some(p) => p,
            None => return false,
        };
        let notional = match try_worth_at(
            order.order_type,
            order.price,
            order.quantity,
            reference,
        ) {
            None => return false,
            Some(Some(n)) => n,
            Some(None) => Decimal::zero(),
        };
        if let Some(strategy_id) = &order.strategy_instance_id {
            if !self.risk.try_note_order_restored(strategy_id, &order.account_id, notional) {
                return false;
            }
        }
        self.paper.restore_order(order.clone());
        true
    }
}

proof fn lemma_restore_stays_out(s: RuntimeView, open: Seq<OrderView>, m: int, n: int)
    requires
        m <= n,
        s.with_all_restored(open, m) is None,
    ensures
        s.with_all_restored(open, n) is None,
        s.restored_so_far(open, n) == s.restored_so_far(open, m),
    decreases n,
{
    if m < n {
        lemma_restore_stays_out(s, open, m, n - 1);
    }
}

proof fn lemma_fills_stop(s: RuntimeView, fills: Seq<FillView>, m: int, n: int, now: TimestampMs)
    requires
        0 <= m <= n,
        !(s.after_fills(fills, m, now).1 is Done),
    ensures
        s.after_fills(fills, n, now) == s.after_fills(fills, m, now),
        s.all_applied(fills, n, now) == s.all_applied(fills, m, now),
    decreases n,
{
    if m < n {
        lemma_fills_stop(s, fills, m, n - 1, now);
    }
}

impl RuntimeState {
    /// Gives the strategy new parameters, or says why not.
    pub fn configure_strategy(
        &mut self,
        parameters: StrategyParameters,
    ) -> (r: Result<StrategySnapshot>)
        requires
            old(self)@.parameters_verdict(parameters@) is Some,
            old(self)@.parameters_verdict(parameters@)->0 is Ok ==> old(self)@.strategy.revision
                < u64::MAX,
        ensures
            match old(self)@.parameters_verdict(parameters@)->0 {
                Err(e) => final(self)@ == old(self)@ && (r matches Err(x) && x@ == e),
                Ok(_) => {
                    &&& exists|now: TimestampMs|
                        ids::clock_gives(now) && final(self)@ == (RuntimeView {
                            strategy: #[trigger] old(self)@.strategy.configured(parameters@, now),
                            ..old(self)@
                        })
                    &&& r matches Ok(s) && s@ == final(self)@.strategy
                },
            },
    {
        self.try_configure_strategy_at(parameters, now_ms()).unwrap()
    }

    pub fn set_strategy_status(&mut self, status: StrategyRunStatus) -> (r: StrategySnapshot)
        ensures
            exists|now: TimestampMs|
                ids::clock_gives(now) && final(self)@ == (RuntimeView {
                    strategy: #[trigger] old(self)@.strategy.in_status(status, now),
                    ..old(self)@
                }),
            r@ == final(self)@.strategy,
    {
        self.set_strategy_status_at(status, now_ms())
    }

    /// The market now, if there is a quote with a mid; the outer `None` says
    /// that a number on the way is out of range.
    pub fn try_current_market(&self) -> (r: Option<Option<MarketSnapshot>>)
        ensures
            exists|now: TimestampMs|
                ids::clock_gives(now) && match r {
                    None => #[trigger] self@.market_now(now) is None,
                    Some(m) => self@.market_now(now) == Some(views::opt_view(m)),
                },
    {
        let now = now_ms();
        let r = self.try_current_market_at(now);
        assert(r is None == self@.market_now(now) is None);
        r
    }

    /// The market now, if there is a quote with a mid.
    pub fn current_market(&self) -> (r: Option<MarketSnapshot>)
        requires
            forall|now: TimestampMs|
                ids::clock_gives(now) ==> #[trigger] self@.market_now(now) is Some,
        ensures
            exists|now: TimestampMs|
                ids::clock_gives(now) && #[trigger] self@.market_now(now) == Some(
                    views::opt_view(r),
                ),
    {
        self.try_current_market().unwrap()
    }

    /// The strategy's next order now, or why there is none; `None`, and no
    /// change, when a number on the way is out of range.
    pub fn try_strategy_intent(&mut self) -> (r: Option<Result<OrderIntent>>)
        ensures
            match old(self)@.signal() {
                None => r is None && final(self)@ == old(self)@,
                Some(Err(e)) => final(self)@ == old(self)@ && (r matches Some(Err(x)) && x@ == e),
                Some(Ok(price)) => if old(self)@.strategy.signals == u64::MAX || !oms::can_shorten(
                    old(self)@.strategy_instance_id,
                ) {
                    r is None && final(self)@ == old(self)@
                } else {
                    r matches Some(Ok(x)) && exists|
                        id: Seq<char>,
                        clid: Seq<char>,
                        now: TimestampMs,
                    |
                        {
                            &&& x@ == #[trigger] old(self)@.intent_at(price, id, clid, now)
                            &&& ids::tagged("int_"@, id)
                            &&& oms::made_now(old(self)@.strategy_instance_id, clid)
                            &&& ids::clock_gives(now)
                            &&& final(self)@ == (RuntimeView {
                                strategy: old(self)@.strategy.signalled(now),
                                ..old(self)@
                            })
                        }
                },
            },
    {
        let clid = match oms::try_generate_client_order_id(&self.strategy_instance_id) {
            Some(c) => c,
            None => {
                return match self.signal_price()? {
                    Ok(_) => None,
                    Err(e) => Some(Err(e)),
                };
            },
        };
        self.try_strategy_intent_with(IntentId::new(), clid, now_ms())
    }

    /// The strategy's next order now, or why there is none.
    pub fn strategy_intent(&mut self) -> (r: Result<OrderIntent>)
        requires
            old(self)@.signal() is Some,
            old(self)@.signal()->0 is Ok ==> old(self)@.strategy.signals < u64::MAX
                && oms::can_shorten(old(self)@.strategy_instance_id),
        ensures
            match old(self)@.signal()->0 {
                Err(e) => final(self)@ == old(self)@ && (r matches Err(x) && x@ == e),
                Ok(price) => r matches Ok(x) && exists|
                    id: Seq<char>,
                    clid: Seq<char>,
                    now: TimestampMs,
                |
                    {
                        &&& x@ == #[trigger] old(self)@.intent_at(price, id, clid, now)
                        &&& ids::tagged("int_"@, id)
                        &&& oms::made_now(old(self)@.strategy_instance_id, clid)
                        &&& ids::clock_gives(now)
                        &&& final(self)@ == (RuntimeView {
                            strategy: old(self)@.strategy.signalled(now),
                            ..old(self)@
                        })
                    },
            },
    {
        self.try_strategy_intent().unwrap()
    }

    /// Counts a signal.
    pub fn note_strategy_signal(&mut self) -> (r: StrategySnapshot)
        requires
            old(self)@.strategy.signals < u64::MAX,
        ensures
            exists|now: TimestampMs|
                ids::clock_gives(now) && final(self)@ == (RuntimeView {
                    strategy: #[trigger] old(self)@.strategy.signalled(now),
                    ..old(self)@
                }),
            r@ == final(self)@.strategy,
    {
        self.note_strategy_signal_at(now_ms()).unwrap()
    }

    /// Counts an order.
    pub fn note_strategy_order(&mut self, order: &Order) -> (r: StrategySnapshot)
        requires
            old(self)@.strategy.orders < u64::MAX,
        ensures
            exists|now: TimestampMs|
                ids::clock_gives(now) && final(self)@ == (RuntimeView {
                    strategy: #[trigger] old(self)@.strategy.ordered(order@.id, now),
                    ..old(self)@
                }),
            r@ == final(self)@.strategy,
    {
        self.note_strategy_order_at(order, now_ms()).unwrap()
    }

    /// Executes an intent now; `None` when a number on the way is out of range.
    pub fn try_execute_intent(&mut self, intent: &OrderIntent) -> (r: Option<Result<Execution>>)
        ensures
            exists|id: Seq<char>, now: TimestampMs|
                {
                    &&& ids::tagged("ord_"@, id)
                    &&& ids::clock_gives(now)
                    &&& #[trigger] old(self)@.executes(
                        intent@,
                        id,
                        now,
                        result_view(r),
                        final(self)@,
                    )
                },
    {
        let id = OrderId::new();
        let ghost new_id = id@;
        let now = now_ms();
        let r = self.try_execute_intent_at(intent, id, now);
        assert(old(self)@.executes(intent@, new_id, now, result_view(r), self@));
        r
    }

    /// Executes an intent now: checks it against the risk limits, keeps its
    /// order, places it and applies the fills.
    pub fn execute_intent(&mut self, intent: &OrderIntent) -> (r: Result<Execution>)
        requires
            forall|id: Seq<char>, now: TimestampMs|
                ids::tagged("ord_"@, id) && ids::clock_gives(now) ==> #[trigger] old(
                    self,
                )@.can_execute(intent@, id, now),
        ensures
            exists|id: Seq<char>, now: TimestampMs|
                {
                    &&& ids::tagged("ord_"@, id)
                    &&& ids::clock_gives(now)
                    &&& #[trigger] old(self)@.executes(
                        intent@,
                        id,
                        now,
                        result_view(Some(r)),
                        final(self)@,
                    )
                },
    {
        let r = self.try_execute_intent(intent);
        proof {
            let (id, now) = choose|id: Seq<char>, now: TimestampMs|
                {
                    &&& ids::tagged("ord_"@, id)
                    &&& ids::clock_gives(now)
                    &&& #[trigger] old(self)@.executes(intent@, id, now, result_view(r), self@)
                };
            assert(old(self)@.can_execute(intent@, id, now));
        }
        r.unwrap()
    }

    /// Applies a fill: takes it into the books, notes what it did to its order
    /// and counts it, or says why not.
    pub fn apply_fill(&mut self, fill: &Fill) -> (r: Result<AppliedFill>)
        requires
            old(self)@.can_apply(fill@),
        ensures
            exists|now: TimestampMs|
                {
                    &&& ids::clock_gives(now)
                    &&& final(self)@ == (#[trigger] old(self)@.after_fill(fill@, now)).0
                    &&& match old(self)@.after_fill(fill@, now).1 {
                        Ending::Done => r matches Ok(x) && x@ == old(self)@.applied(fill@, now),
                        Ending::Failed(e) => r matches Err(x) && x@ == e,
                        Ending::OutOfRange => false,
                    }
                },
    {
        let now = now_ms();
        let r = self.try_apply_fill_at(fill, now);
        assert(old(self)@.after_fill(fill@, now).0 == self@);
        r.unwrap()
    }

    /// Takes the fills that wait from the paper engine and applies them, one after
    /// the other, up to the first one that cannot be applied.
    pub fn drain_fills(&mut self) -> (r: Drained)
        ensures
            exists|now: TimestampMs|
                {
                    &&& ids::clock_gives(now)
                    &&& (final(self)@, r.outcome@) == #[trigger] old(self)@.after_draining(now)
                    &&& views::seq_view(r.applied@) == old(self)@.drain_report(now)
                },
    {
        let now = now_ms();
        self.drain_fills_at(now)
    }
}

/// Fills change neither the market, nor the instrument, nor the paper engine.
proof fn lemma_fills_keep(s: RuntimeView, fills: Seq<FillView>, n: int, now: TimestampMs)
    ensures
        s.after_fills(fills, n, now).0.market == s.market,
        s.after_fills(fills, n, now).0.instrument == s.instrument,
        s.after_fills(fills, n, now).0.paper == s.paper,
    decreases n,
{
    if n > 0 {
        lemma_fills_keep(s, fills, n - 1, now);
    }
}

/// Nothing is placed that the risk engine did not approve, and a refused intent
/// leaves orders, books, paper engine and strategy as they were. Executing does
/// not touch the market.
pub proof fn law_only_approved_is_placed(
    s: RuntimeView,
    intent: IntentView,
    order_id: Seq<char>,
    now: TimestampMs,
    result: Option<core::result::Result<ExecutionView, ErrorView>>,
    after: RuntimeView,
)
    requires
        s.executes(intent, order_id, now, result, after),
    ensures
        (result matches Some(r) && r is Ok) ==> s.in_scope(intent) && s.ruling(intent, now) == Some(
            DecisionView::Approved,
        ),
        s.ruling(intent, now) != Some(DecisionView::Approved) ==> {
            &&& after.oms == s.oms
            &&& after.paper == s.paper
            &&& after.portfolio == s.portfolio
            &&& after.strategy == s.strategy
        },
        !s.in_scope(intent) ==> after == s,
        after.market == s.market,
{
    if s.in_scope(intent) && s.rulable() && s.ruling(intent, now) == Some(DecisionView::Approved) {
        lemma_carrying_out_keeps_market(
            s.ruled(intent, now),
            intent,
            order_id,
            s.booked(intent, now),
            now,
            result,
            after,
        );
    }
}

proof fn lemma_carrying_out_keeps_market(
    s: RuntimeView,
    intent: IntentView,
    order_id: Seq<char>,
    notional: DecimalView,
    now: TimestampMs,
    result: Option<core::result::Result<ExecutionView, ErrorView>>,
    after: RuntimeView,
)
    requires
        s.carries_out(intent, order_id, notional, now, result, after),
    ensures
        after.market == s.market,
{
    if s.obstacle(intent, order_id, now) is None && s.paper.placement(
        s.submitted(intent, order_id, now),
        now,
    ) is Some {
        let (placed, then) = choose|placed: OrderView, then: RuntimeView|
            {
                &&& #[trigger] s.placed(intent, order_id, now, placed, then)
                &&& then.settles(intent, placed, notional, now, result, after)
            };
        lemma_fills_keep(then.drained(), then.paper.pending, then.paper.pending.len() as int, now);
    }
}

/// While the kill switch is engaged no intent is executed.
pub proof fn law_kill_switch_stops_execution(
    s: RuntimeView,
    intent: IntentView,
    order_id: Seq<char>,
    now: TimestampMs,
    result: Option<core::result::Result<ExecutionView, ErrorView>>,
    after: RuntimeView,
)
    requires
        s.risk.kill_switch.engaged,
        s.executes(intent, order_id, now, result, after),
    ensures
        !(result matches Some(r) && r is Ok),
        after.oms == s.oms,
        after.paper == s.paper,
        after.portfolio == s.portfolio,
{
    assert(s.informed().switch_rule() is Reject);
    assert(s.ruling(intent, now) != Some(DecisionView::Approved));
}

/// Whether what an intent is booked with is added and taken off without
/// rounding.
pub open spec fn booking_is_exact(s: RuntimeView, intent: IntentView, now: TimestampMs) -> bool {
    let n = s.booked(intent, now);
    let a = risk::booked(s.risk.open_notional_by_strategy, intent.strategy_instance_id);
    let b = risk::booked(s.risk.open_notional_by_account, intent.account_id);
    &&& n.wf() && a.wf() && b.wf()
    &&& a.adds_exactly(n) && a.exact_sum(n).subtracts_exactly(n)
    &&& b.adds_exactly(n) && b.exact_sum(n).subtracts_exactly(n)
}

/// Whether two states of the risk engine have the same open for an intent's
/// strategy and account.
pub open spec fn same_open(a: RiskView, b: RiskView, intent: IntentView) -> bool {
    &&& risk::booked(a.open_notional_by_strategy, intent.strategy_instance_id).same(
        risk::booked(b.open_notional_by_strategy, intent.strategy_instance_id),
    )
    &&& risk::booked(a.open_notional_by_account, intent.account_id).same(
        risk::booked(b.open_notional_by_account, intent.account_id),
    )
    &&& risk::counted(a.active_orders_by_strategy, intent.strategy_instance_id) == risk::counted(
        b.active_orders_by_strategy,
        intent.strategy_instance_id,
    )
}

/// What an approval booked, given back once, leaves what was open before.
proof fn lemma_given_back(s: RuntimeView, intent: IntentView, now: TimestampMs)
    requires
        s.rulable(),
        s.ruling(intent, now) == Some(DecisionView::Approved),
        booking_is_exact(s, intent, now),
    ensures
        same_open(
            s.ruled(intent, now).risk.without_order(
                intent.strategy_instance_id,
                intent.account_id,
                s.booked(intent, now),
            ),
            s.risk,
            intent,
        ),
{
    let x = s.question(intent, now);
    let w = s.informed().windowed(x, now);
    let e = RiskView { consecutive_rejects: 0, order_times: w.order_times.push(now), ..w };
    risk::law_release_undoes_booking(
        e,
        intent.strategy_instance_id,
        intent.account_id,
        s.booked(intent, now),
    );
}

/// An order that could not be placed gives back what its approval took, where
/// the sums need no rounding.
pub proof fn law_unplaced_gives_back(
    s: RuntimeView,
    intent: IntentView,
    order_id: Seq<char>,
    now: TimestampMs,
    result: Option<core::result::Result<ExecutionView, ErrorView>>,
    after: RuntimeView,
)
    requires
        s.executes(intent, order_id, now, result, after),
        s.ruling(intent, now) == Some(DecisionView::Approved),
        result matches Some(r) && r is Err,
        s.in_scope(intent),
        booking_is_exact(s, intent, now),
    ensures
        same_open(after.risk, s.risk, intent),
{
    lemma_given_back(s, intent, now);
}

/// An order other than a market order that fills end gives back what its intent
/// was booked with, however the market stands by then.
pub proof fn law_filled_gives_back_its_booking(
    s: RuntimeView,
    intent: IntentView,
    now: TimestampMs,
    later: RuntimeView,
    f: FillView,
    o: OrderView,
    order_id: Seq<char>,
)
    requires
        s.ruling(intent, now) == Some(DecisionView::Approved),
        intent.order_type != OrderType::Market,
        intent.price is Some,
        o.same_terms(oms::order_of(intent, order_id, now)),
        table::lookup(later.paper.orders, f.order_id) == Some(o),
        o.status.terminal(),
    ensures
        later.noted(f).risk == later.risk.without_order(
            intent.strategy_instance_id,
            intent.account_id,
            s.booked(intent, now),
        ),
{
}

/// A new limit order that is placed and filled at once leaves open what was open
/// before. Stated where no other fills wait and the sums need no rounding.
pub proof fn law_filled_at_once_gives_back(
    s: RuntimeView,
    intent: IntentView,
    order_id: Seq<char>,
    now: TimestampMs,
    x: ExecutionView,
    after: RuntimeView,
)
    requires
        s.executes(
            intent,
            order_id,
            now,
            Some(Ok::<ExecutionView, ErrorView>(x)),
            after,
        ),
        x.failure is None,
        x.order.status.terminal(),
        x.order.filled_quantity.mantissa != 0,
        intent.order_type == OrderType::Limit,
        intent.price is Some,
        s.oms.earlier(intent) is None,
        s.paper.pending.len() == 0,
        booking_is_exact(s, intent, now),
    ensures
        same_open(after.risk, s.risk, intent),
{
    let ruled = s.ruled(intent, now);
    let (placed, then) = choose|placed: OrderView, then: RuntimeView|
        {
            &&& #[trigger] ruled.placed(intent, order_id, now, placed, then)
            &&& then.settles(
                intent,
                placed,
                s.booked(intent, now),
                now,
                Some(Ok::<ExecutionView, ErrorView>(x)),
                after,
            )
        };
    lemma_settled_at_once(ruled, s, intent, order_id, now, placed, then, x, after);
    lemma_given_back(s, intent, now);
}

/// A new limit order that was filled at once has been noted and given back.
#[verifier::spinoff_prover]
#[verifier::rlimit(60)]
proof fn lemma_settled_at_once(
    ruled: RuntimeView,
    s: RuntimeView,
    intent: IntentView,
    order_id: Seq<char>,
    now: TimestampMs,
    placed: OrderView,
    then: RuntimeView,
    x: ExecutionView,
    after: RuntimeView,
)
    requires
        ruled.placed(intent, order_id, now, placed, then),
        then.settles(
            intent,
            placed,
            s.booked(intent, now),
            now,
            Some(Ok::<ExecutionView, ErrorView>(x)),
            after,
        ),
        s.ruling(intent, now) == Some(DecisionView::Approved),
        x.failure is None,
        x.order.status.terminal(),
        x.order.filled_quantity.mantissa != 0,
        intent.order_type == OrderType::Limit,
        intent.price is Some,
        ruled.oms.earlier(intent) is None,
        ruled.paper.pending.len() == 0,
    ensures
        after.risk == ruled.risk.without_order(
            intent.strategy_instance_id,
            intent.account_id,
            s.booked(intent, now),
        ),
{
    let order = ruled.submitted(intent, order_id, now);
    sim::law_placed_is_found(ruled.paper, order, now, placed, then.paper, order.id);
    sim::law_terms_are_kept(ruled.paper, order, order.instrument_id, arbitrary(), now, 0);
    let fills = then.paper.pending;
    assert(fills.len() == 1);
    let f = fills[0];
    assert(f.order_id == order.id);
    let start = then.drained();
    reveal_with_fuel(RuntimeView::after_fills, 2);
    assert(start.after_fills(fills, 1, now) == start.after_fill(f, now));
    law_filled_gives_back_its_booking(
        s,
        intent,
        now,
        start.with_booked(f, now),
        f,
        placed,
        order_id,
    );
}

/// Whether a limit price is reached without rounding, up to the tick grid.
pub open spec fn offsets_exactly(
    touch: DecimalView,
    bps: DecimalView,
    tick: DecimalView,
    buys: bool,
) -> bool {
    let one = DecimalView::of(1, 0);
    let fraction = bps.over(DecimalView::of(10_000, 0))->0;
    let factor = if buys {
        one.exact_sum(fraction)
    } else {
        one.exact_difference(fraction)
    };
    let raw = touch.exact_product(factor);
    &&& touch.wf() && bps.wf() && tick.wf()
    &&& bps.divides_exactly(DecimalView::of(10_000, 0))
    &&& if buys {
        one.adds_exactly(fraction)
    } else {
        one.subtracts_exactly(fraction)
    }
    &&& touch.multiplies_exactly(factor)
    &&& raw.divides_exactly(tick)
    &&& decimal::steps_fit(raw, tick)
}

/// A limit order of the strategy is priced off the other side of the quote: a
/// purchase at the ask raised by the offset, a sale at the bid lowered by it, in
/// basis points, rounded down to the tick grid. Stated where nothing else needs
/// rounding and the moved price is not negative.
pub proof fn law_offset_moves_the_touch(s: RuntimeView, p: ParametersView, top: TopView)
    requires
        s.instrument.tick_size.units() > 0,
        match p.side {
            OrderSide::Buy => offsets_exactly(
                top.ask_price,
                p.limit_offset_bps,
                s.instrument.tick_size,
                true,
            ),
            OrderSide::Sell => offsets_exactly(
                top.bid_price,
                p.limit_offset_bps,
                s.instrument.tick_size,
                false,
            ),
        },
    ensures
        ({
            let one = decimal::pow10(28);
            let whole = 10_000 * one;
            let bps = p.limit_offset_bps.units();
            let tick = s.instrument.tick_size.units();
            let moved = match p.side {
                OrderSide::Buy => top.ask_price.units() * (whole + bps),
                OrderSide::Sell => top.bid_price.units() * (whole - bps),
            };
            &&& s.offset_price(p, top) is Some
            &&& (s.offset_price(p, top)->0).units() % tick == 0
            &&& moved >= 0 ==> {
                &&& (s.offset_price(p, top)->0).units() * whole <= moved
                &&& moved < ((s.offset_price(p, top)->0).units() + tick) * whole
            }
        }),
{
    let one = DecimalView::of(1, 0);
    let top_bps = DecimalView::of(10_000, 0);
    let tick = s.instrument.tick_size;
    let bps = p.limit_offset_bps;
    let buys = p.side == OrderSide::Buy;
    let touch = if buys {
        top.ask_price
    } else {
        top.bid_price
    };
    let fraction = bps.over(top_bps)->0;
    let factor = if buys {
        one.exact_sum(fraction)
    } else {
        one.exact_difference(fraction)
    };
    let raw = touch.exact_product(factor);
    decimal::lemma_sign_of_units(tick);
    decimal::law_quotient_is_exact(bps, top_bps);
    decimal::lemma_pow10_positive(28);
    let z = decimal::pow10(28) as int;
    assert(one.units() == z) by (nonlinear_arith)
        requires
            one.units() == 1 * z,
    ;
    assert(top_bps.units() == 10_000 * z);
    let (f, b, t) = (fraction.units(), bps.units(), touch.units());
    assert(10_000 * f == b) by (nonlinear_arith)
        requires
            f * (10_000 * z) == b * z,
            z >= 1,
    ;
    if buys {
        decimal::lemma_exact_sum(one, fraction);
    } else {
        decimal::lemma_exact_difference(one, fraction);
    }
    decimal::law_product_is_exact(touch, factor);
    decimal::law_steps_are_exact(raw, tick);
    assert(top.touch(p.side) == touch);
    let g = factor.units();
    let r = raw.units();
    let k = tick.units();
    let moved = if buys {
        t * (10_000 * z + b)
    } else {
        t * (10_000 * z - b)
    };
    assert(r * (10_000 * z) == moved) by (nonlinear_arith)
        requires
            r * z == t * g,
            buys ==> g == z + f && moved == t * (10_000 * z + b),
            !buys ==> g == z - f && moved == t * (10_000 * z - b),
            10_000 * f == b,
    ;
    let px = (s.offset_price(p, top)->0).units();
    assert(px == decimal::towards_zero(r, k));
    lemma_towards_zero(r, k);
    if moved >= 0 {
        assert(r >= 0) by (nonlinear_arith)
            requires
                r * (10_000 * z) >= 0,
                z >= 1,
        ;
        assert(px * (10_000 * z) <= r * (10_000 * z) && r * (10_000 * z) < (px + k) * (10_000 * z))
            by (nonlinear_arith)
            requires
                px <= r < px + k,
                z >= 1,
        ;
    }
}

pub proof fn lemma_towards_zero(v: int, k: int)
    requires
        k > 0,
    ensures
        decimal::towards_zero(v, k) % k == 0,
        v >= 0 ==> decimal::towards_zero(v, k) <= v < decimal::towards_zero(v, k) + k,
{
    let q = if v < 0 {
        -((-v) / k)
    } else {
        v / k
    };
    vstd::arithmetic::div_mod::lemma_fundamental_div_mod(v, k);
    vstd::arithmetic::mul::lemma_mul_is_commutative(k, v / k);
    assert(-((-v) / k * k) == (-((-v) / k)) * k) by (nonlinear_arith);
    vstd::arithmetic::div_mod::lemma_mod_multiples_basic(q, k);
}

/// The strategy gives a signal exactly while it is running and its instrument is
/// quoted: without a price for a market order, at the offset price for a limit
/// order where the instrument has a tick grid, and none for other types.
pub proof fn law_signal_needs_a_running_strategy_and_a_quote(s: RuntimeView)
    ensures
        s.strategy.status != StrategyRunStatus::Running ==> s.signal() == Some(
            Err::<Option<DecimalView>, ErrorView>(
                ErrorView::InvalidOrder("strategy is "@ + s.strategy.status.text()),
            ),
        ),
        s.strategy.status == StrategyRunStatus::Running ==> match table::lookup(
            s.market.tops,
            s.instrument.id,
        ) {
            None => s.signal() == Some(
                Err::<Option<DecimalView>, ErrorView>(
                    ErrorView::StaleMarketData { instrument: s.instrument.id },
                ),
            ),
            Some(top) => {
                let p = s.strategy.parameters;
                &&& p.order_type == OrderType::Market ==> s.signal() == Some(
                    Ok::<Option<DecimalView>, ErrorView>(None),
                )
                &&& p.order_type == OrderType::Limit && s.instrument.tick_size.units() > 0
                    && s.offset_price(p, top) is Some ==> s.signal() == Some(
                    Ok::<Option<DecimalView>, ErrorView>(s.offset_price(p, top)),
                )
                &&& p.order_type != OrderType::Market && p.order_type != OrderType::Limit ==> {
                    &&& s.signal() is Some
                    &&& s.signal()->0 is Err
                }
                &&& p.order_type == OrderType::Limit && s.instrument.tick_size.units() <= 0
                    && s.offset_price(p, top) is Some ==> {
                    &&& s.signal() is Some
                    &&& s.signal()->0 is Err
                }
            },
        },
{
    decimal::lemma_sign_of_units(s.instrument.tick_size);
}

/// An order of the strategy is for the process's account, strategy and
/// instrument, and asks for what its parameters say at the given price.
pub proof fn law_strategy_order_follows_parameters(
    s: RuntimeView,
    price: Option<DecimalView>,
    id: Seq<char>,
    client_order_id: Seq<char>,
    now: TimestampMs,
)
    ensures
        ({
            let i = s.intent_at(price, id, client_order_id, now);
            let p = s.strategy.parameters;
            &&& i.account_id == s.account_id
            &&& i.strategy_instance_id == s.strategy_instance_id
            &&& i.instrument_id == s.instrument.id
            &&& i.side == p.side && i.order_type == p.order_type
            &&& i.time_in_force == p.time_in_force && i.quantity == p.quantity
            &&& i.price == price
            &&& i.id == id && i.client_order_id == client_order_id && i.created_at == now
            &&& i.leverage is None && i.reduce_only == ReduceOnly::No
            &&& s.in_scope(i)
        }),
{
}

/// Parameters are taken exactly when the quantity is positive and on the lot
/// grid, the offset is at most a tenth of the price either way, and the order is
/// a limit or a market order. Stated where the numbers are in range.
pub proof fn law_parameters_are_checked(s: RuntimeView, p: ParametersView)
    requires
        s.instrument.qty_in_range(p.quantity),
    ensures
        s.parameters_verdict(p) == Some(Ok::<(), ErrorView>(())) <==> {
            &&& p.quantity.units() > 0
            &&& s.instrument.qty_valid(p.quantity)
            &&& -1000 * decimal::pow10(28) <= p.limit_offset_bps.units() <= 1000 * decimal::pow10(
                28,
            )
            &&& p.order_type == OrderType::Limit || p.order_type == OrderType::Market
        },
        s.parameters_verdict(p) is Some,
{
    decimal::lemma_sign_of_units(p.quantity);
    decimal::lemma_abs_units(p.limit_offset_bps);
    assert(DecimalView::of(1000, 0).units() == 1000 * decimal::pow10(28));
}

/// The account is valued with the quote asset at one and the base asset at the
/// price that counts for the instrument; its profit is that of its book.
pub proof fn law_account_is_valued_at_the_market(
    s: RuntimeView,
    reference: Option<DecimalView>,
    asset: Seq<char>,
)
    ensures
        asset == s.base_asset && reference is Some ==> table::lookup(s.marks(reference), asset)
            == reference,
        asset == s.quote_asset && (reference is None || asset != s.base_asset) ==> table::lookup(
            s.marks(reference),
            asset,
        ) == Some(DecimalView::of(1, 0)),
        asset != s.quote_asset && (reference is None || asset != s.base_asset) ==> table::lookup(
            s.marks(reference),
            asset,
        ) is None,
        s.market.reference(s.instrument.id) matches Some(r) ==> s.equity() == s.portfolio.equity(
            s.account_id,
            s.quote_asset,
            s.marks(r),
        ),
        match table::lookup(s.portfolio.pnl, s.account_id) {
            Some(b) => s.net_pnl() == b.net(),
            None => s.net_pnl() is Some && (s.net_pnl()->0).units() == 0,
        },
{
    let none: Seq<(Seq<char>, DecimalView)> = Seq::empty();
    let one = DecimalView::of(1, 0);
    let quote = table::put(none, s.quote_asset, one);
    table::law_put(none, s.quote_asset, one, asset);
    if reference is Some {
        table::law_put(quote, s.base_asset, reference->0, asset);
    }
    assert(table::index_of(none, asset) is None);
    decimal::lemma_sign_of_units(DecimalView::zero());
}

/// The risk engine is asked of the intent with the instrument, the price that
/// counts, the age of the quote and the books as they are, after it was told
/// what the account is worth and has gained.
pub proof fn law_risk_is_asked_with_present_facts(
    s: RuntimeView,
    intent: IntentView,
    now: TimestampMs,
    price: Option<DecimalView>,
)
    requires
        s.market.reference(s.instrument.id) == Some(price),
        s.equity() is Some,
        s.net_pnl() is Some,
    ensures
        ({
            let x = s.question(intent, now);
            &&& x.intent == intent && x.instrument == s.instrument && x.portfolio == s.portfolio
            &&& x.market_ref == price
            &&& match table::lookup(s.market.tops, s.instrument.id) {
                None => x.market_age_ms is None,
                Some(t) => {
                    &&& x.market_age_ms is Some
                    &&& 0 <= now - t.at <= u64::MAX ==> x.market_age_ms->0 == now - t.at
                    &&& now < t.at ==> x.market_age_ms->0 == 0
                },
            }
            &&& s.informed().daily_realized_pnl == s.net_pnl()->0
            &&& (s.equity()->0).units() <= s.informed().high_water_equity.units()
            &&& s.informed().limits == s.risk.limits
            &&& s.informed().kill_switch == s.risk.kill_switch
        }),
{
}

/// An intent of another account, strategy or instrument is refused and changes
/// nothing.
pub proof fn law_foreign_intent_is_refused(
    s: RuntimeView,
    intent: IntentView,
    order_id: Seq<char>,
    now: TimestampMs,
    result: Option<core::result::Result<ExecutionView, ErrorView>>,
    after: RuntimeView,
)
    requires
        s.executes(intent, order_id, now, result, after),
        intent.account_id != s.account_id || intent.strategy_instance_id != s.strategy_instance_id
            || intent.instrument_id != s.instrument.id,
    ensures
        result is Some && result->0 is Err,
        after == s,
{
}

/// An intent of this process that the risk engine rejects comes back with the
/// rule and its message.
pub proof fn law_rejection_is_passed_on(
    s: RuntimeView,
    intent: IntentView,
    order_id: Seq<char>,
    now: TimestampMs,
    result: Option<core::result::Result<ExecutionView, ErrorView>>,
    after: RuntimeView,
    rule: Seq<char>,
    message: Seq<char>,
)
    requires
        s.executes(intent, order_id, now, result, after),
        intent.account_id == s.account_id,
        intent.strategy_instance_id == s.strategy_instance_id,
        intent.instrument_id == s.instrument.id,
        s.rulable(),
        s.informed().decision(s.question(intent, now), now) == Some(
            DecisionView::Rejected { rule, message },
        ),
    ensures
        result == Some(
            Err::<ExecutionView, ErrorView>(ErrorView::RiskRejected { rule, message }),
        ),
        after.risk.consecutive_rejects == s.risk.consecutive_rejects + 1,
{
}

/// A new intent that is executed leads to the order that it asks for: the
/// result names it, and the paper engine has it as it stands in the result.
#[verifier::spinoff_prover]
#[verifier::rlimit(60)]
pub proof fn law_executed_order_is_the_intents(
    s: RuntimeView,
    intent: IntentView,
    order_id: Seq<char>,
    now: TimestampMs,
    x: ExecutionView,
    after: RuntimeView,
)
    requires
        s.executes(
            intent,
            order_id,
            now,
            Some(Ok::<ExecutionView, ErrorView>(x)),
            after,
        ),
        s.oms.earlier(intent) is None,
    ensures
        x.order.id == order_id,
        x.order.client_order_id == intent.client_order_id,
        x.order.account_id == intent.account_id,
        x.order.strategy_instance_id == Some(intent.strategy_instance_id),
        x.order.instrument_id == intent.instrument_id,
        x.order.side == intent.side,
        x.order.order_type == intent.order_type,
        x.order.price == intent.price,
        x.order.quantity == intent.quantity,
        table::lookup(after.paper.orders, order_id) == Some(x.order),
        after.paper.pending.len() == 0,
{
    let ruled = s.ruled(intent, now);
    let notional = s.booked(intent, now);
    let (placed, then) = choose|placed: OrderView, then: RuntimeView|
        {
            &&& #[trigger] ruled.placed(intent, order_id, now, placed, then)
            &&& then.settles(
                intent,
                placed,
                notional,
                now,
                Some(Ok::<ExecutionView, ErrorView>(x)),
                after,
            )
        };
    let order = ruled.submitted(intent, order_id, now);
    sim::law_placed_is_found(ruled.paper, order, now, placed, then.paper, order.id);
    sim::law_terms_are_kept(ruled.paper, order, order.instrument_id, arbitrary(), now, 0);
    lemma_fills_keep(then.drained(), then.paper.pending, then.paper.pending.len() as int, now);
}

/// A fill of another account is refused and changes nothing.
pub proof fn law_foreign_fill_is_refused(s: RuntimeView, f: FillView, now: TimestampMs)
    requires
        f.account_id != s.account_id,
    ensures
        s.after_fill(f, now).0 == s,
        s.after_fill(f, now).1 is Failed,
{
}

/// A fill that is applied goes into the books with its own price, quantity, side
/// and fee, is counted by the strategy, and brings its order up to date where
/// the paper engine has it. The market and the paper engine stay. An order that
/// is over leaves the risk engine's books; one that is not stays in them.
pub proof fn law_fill_reaches_all_books(s: RuntimeView, f: FillView, now: TimestampMs)
    requires
        s.after_fill(f, now).1 is Done,
    ensures
        ({
            let after = s.after_fill(f, now).0;
            let booked = SpotFill {
                account: f.account_id,
                instrument: s.instrument,
                side: f.side,
                price: f.price,
                qty: f.quantity,
                fee: f.fee.amount,
                fee_asset: f.fee.asset,
            };
            &&& s.portfolio.fill_verdict(booked) == Some(Ok::<(), ErrorView>(()))
            &&& after.portfolio == s.portfolio.with_fill(booked, now)
            &&& after.strategy.fills == s.strategy.fills + 1
            &&& after.strategy.updated_at == now
            &&& after.strategy.orders == s.strategy.orders
            &&& after.market == s.market && after.paper == s.paper
            &&& match table::lookup(s.paper.orders, f.order_id) {
                None => after.oms == s.oms && after.risk == s.risk,
                Some(o) => {
                    &&& table::lookup(after.oms.orders, o.id) == Some(o)
                    &&& !o.status.terminal() || o.strategy_instance_id is None ==> after.risk
                        == s.risk
                    &&& o.status.terminal() && o.strategy_instance_id is Some ==> {
                        let strategy = o.strategy_instance_id->0;
                        let n = risk::counted(s.risk.active_orders_by_strategy, strategy);
                        risk::counted(after.risk.active_orders_by_strategy, strategy) == if n > 0 {
                            (n - 1) as u32
                        } else {
                            0
                        }
                    }
                },
            }
        }),
{
    if let Some(o) = table::lookup(s.paper.orders, f.order_id) {
        table::law_put(s.oms.orders, o.id, o, o.id);
        if let Some(strategy) = o.strategy_instance_id {
            let n = risk::counted(s.risk.active_orders_by_strategy, strategy);
            table::law_put(
                s.risk.active_orders_by_strategy,
                strategy,
                if n > 0 {
                    (n - 1) as u32
                } else {
                    0
                },
                strategy,
            );
        }
    }
}

/// Fills are applied one after the other and each once: when all of them could
/// be applied the strategy has counted as many more, and each is told of, in
/// order.
pub proof fn law_every_fill_is_applied_once(
    s: RuntimeView,
    fills: Seq<FillView>,
    n: int,
    now: TimestampMs,
    i: int,
)
    requires
        0 <= i < n <= fills.len(),
        s.after_fills(fills, n, now).1 is Done,
    ensures
        s.after_fills(fills, n, now).0.strategy.fills == s.strategy.fills + n,
        s.all_applied(fills, n, now).len() == n,
        s.all_applied(fills, n, now)[i].fill == fills[i],
    decreases n,
{
    if n > 1 {
        law_every_fill_is_applied_once(s, fills, n - 1, now, 0);
        if i < n - 1 {
            law_every_fill_is_applied_once(s, fills, n - 1, now, i);
        }
    } else {
        assert(s.after_fills(fills, 0, now) == (s, Ending::Done));
        assert(s.all_applied(fills, 0, now).len() == 0);
    }
    law_fill_reaches_all_books(s.after_fills(fills, n - 1, now).0, fills[n - 1], now);
}

/// The fills that come first decide: where one cannot be applied, those behind
/// it change nothing.
pub proof fn law_failed_fill_stops_the_rest(
    s: RuntimeView,
    fills: Seq<FillView>,
    m: int,
    n: int,
    now: TimestampMs,
)
    requires
        0 <= m <= n <= fills.len(),
        !(s.after_fills(fills, m, now).1 is Done),
    ensures
        s.after_fills(fills, n, now) == s.after_fills(fills, m, now),
        s.all_applied(fills, n, now) == s.all_applied(fills, m, now),
    decreases n,
{
    if m < n {
        law_failed_fill_stops_the_rest(s, fills, m, n - 1, now);
    }
}

/// An order of another instrument is not taken up again. One of the instrument
/// is known again under its id, and one that is at work can match again and
/// counts as open.
pub proof fn law_restored_order_is_taken_up(s: RuntimeView, o: OrderView)
    requires
        s.with_restored(o) is Some,
    ensures
        ({
            let after = s.with_restored(o)->0;
            &&& o.instrument_id != s.instrument.id ==> after == s
            &&& o.instrument_id == s.instrument.id ==> {
                &&& table::lookup(after.oms.orders, o.id) == Some(o)
                &&& o.status.active() ==> table::lookup(after.paper.orders, o.id) == Some(o)
                &&& o.status.active() && o.strategy_instance_id is Some ==> risk::counted(
                    after.risk.active_orders_by_strategy,
                    o.strategy_instance_id->0,
                ) == risk::counted(s.risk.active_orders_by_strategy, o.strategy_instance_id->0) + 1
                &&& !o.status.active() ==> after.paper == s.paper && after.risk == s.risk
                &&& o.strategy_instance_id is None ==> after.risk == s.risk
            }
            &&& after.portfolio == s.portfolio && after.market == s.market
            &&& after.strategy == s.strategy
        }),
{
    table::law_put(s.oms.orders, o.id, o, o.id);
    table::law_put(s.paper.orders, o.id, o, o.id);
    if let Some(strategy) = o.strategy_instance_id {
        let n = risk::counted(s.risk.active_orders_by_strategy, strategy);
        table::law_put(
            s.risk.active_orders_by_strategy,
            strategy,
            (n + 1) as u32,
            strategy,
        );
    }
}

/// An order at work counts as open with its notional again, for its strategy and
/// its account. Stated where the sums need no rounding.
pub proof fn law_restored_order_is_booked(
    s: RuntimeView,
    o: OrderView,
    strategy: Seq<char>,
    price: DecimalView,
    notional: DecimalView,
)
    requires
        s.with_restored(o) is Some,
        o.instrument_id == s.instrument.id,
        o.status.active(),
        o.strategy_instance_id == Some(strategy),
        o.order_type != OrderType::Market,
        o.price == Some(price),
        price.times(o.quantity) == Some(notional),
        notional.wf(),
        risk::booked(s.risk.open_notional_by_strategy, strategy).wf(),
        risk::booked(s.risk.open_notional_by_account, o.account_id).wf(),
        risk::booked(s.risk.open_notional_by_strategy, strategy).adds_exactly(notional),
        risk::booked(s.risk.open_notional_by_account, o.account_id).adds_exactly(notional),
    ensures
        ({
            let after = s.with_restored(o)->0.risk;
            &&& risk::booked(after.open_notional_by_strategy, strategy).units() == risk::booked(
                s.risk.open_notional_by_strategy,
                strategy,
            ).units() + notional.units()
            &&& risk::booked(after.open_notional_by_account, o.account_id).units() == risk::booked(
                s.risk.open_notional_by_account,
                o.account_id,
            ).units() + notional.units()
        }),
{
    risk::law_order_is_booked(s.risk, strategy, o.account_id, notional, strategy);
}

/// One stored order more counts as taken up exactly when it is in the instrument
/// and was submitted and is not finished.
pub proof fn law_restored_orders_are_counted(s: RuntimeView, open: Seq<OrderView>, n: int)
    requires
        0 <= n < open.len(),
    ensures
        s.restored_count(open, 0) == 0,
        s.restored_count(open, n + 1) == s.restored_count(open, n) + (if open[n].instrument_id
            == s.instrument.id && (open[n].status == OrderStatus::Submitted || open[n].status
            == OrderStatus::Acknowledged || open[n].status == OrderStatus::PartiallyFilled
            || open[n].status == OrderStatus::CancelPending) {
            1nat
        } else {
            0nat
        }),
{
}

/// The account's standing is its worth, its net profit and the trading fees in
/// its book, at the time it was asked for.
pub proof fn law_standing_is_of_the_account(s: RuntimeView, now: TimestampMs)
    requires
        s.equity() is Some,
        s.net_pnl() is Some,
    ensures
        s.equity_point(now).ts == now,
        s.equity_point(now).account_id == s.account_id,
        s.equity() == Some(s.equity_point(now).equity),
        s.net_pnl() == Some(s.equity_point(now).net_pnl),
        match table::lookup(s.portfolio.pnl, s.account_id) {
            Some(b) => s.equity_point(now).fees == b.trading_fees,
            None => s.equity_point(now).fees.units() == 0,
        },
{
    decimal::lemma_sign_of_units(DecimalView::zero());
}

/// The market is shown as it was quoted, with its mid and its age, and not at
/// all while a side is missing.
pub proof fn law_market_is_shown_as_quoted(s: RuntimeView, now: TimestampMs, m: MarketSnapshotView)
    ensures
        s.market_now(now) == Some(Some(m)) ==> {
            &&& table::lookup(s.market.tops, s.instrument.id) matches Some(t) && {
                &&& m.instrument_id == s.instrument.id
                &&& m.bid == t.bid_price && m.ask == t.ask_price
                &&& m.bid_quantity == t.bid_qty && m.ask_quantity == t.ask_qty
                &&& m.bid.units() > 0 && m.ask.units() > 0
                &&& t.mid() == Some(Some(m.mid))
                &&& m.occurred_at == t.at
                &&& 0 <= now - t.at <= u64::MAX ==> m.age_ms == now - t.at
                &&& now < t.at ==> m.age_ms == 0
            }
        },
        table::lookup(s.market.tops, s.instrument.id) is None ==> s.market_now(now) == Some(
            None::<MarketSnapshotView>,
        ),
        table::lookup(s.market.tops, s.instrument.id) matches Some(t) ==> (t.bid_price.units() <= 0
            || t.ask_price.units() <= 0) ==> s.market_now(now) == Some(None::<MarketSnapshotView>),
{
    if let Some(t) = table::lookup(s.market.tops, s.instrument.id) {
        decimal::lemma_sign_of_units(t.bid_price);
        decimal::lemma_sign_of_units(t.ask_price);
    }
}

/// What a strategy counts only grows, by one each: a new revision with its
/// parameters, a signal, an order, a fill. A change of state changes no count,
/// and only the error state keeps an error.
pub proof fn law_strategy_counts(
    s: SnapshotView,
    p: ParametersView,
    status: StrategyRunStatus,
    id: Seq<char>,
    now: TimestampMs,
)
    requires
        s.revision < u64::MAX,
        s.signals < u64::MAX,
        s.orders < u64::MAX,
        s.fills < u64::MAX,
    ensures
        s.configured(p, now).revision == s.revision + 1,
        s.configured(p, now).parameters == p,
        s.configured(p, now).status == s.status,
        s.configured(p, now).signals == s.signals,
        s.configured(p, now).last_error is None,
        s.in_status(status, now).status == status,
        s.in_status(status, now).revision == s.revision,
        s.in_status(status, now).parameters == s.parameters,
        s.in_status(status, now).last_error == if status == StrategyRunStatus::Error {
            s.last_error
        } else {
            None
        },
        s.signalled(now).signals == s.signals + 1,
        s.signalled(now).last_signal_at == Some(now),
        s.signalled(now).orders == s.orders,
        s.signalled(now).fills == s.fills,
        s.ordered(id, now).orders == s.orders + 1,
        s.ordered(id, now).last_order_id == Some(id),
        s.ordered(id, now).last_error is None,
        s.ordered(id, now).signals == s.signals,
        s.ordered(id, now).fills == s.fills,
        s.filled(now).fills == s.fills + 1,
        s.filled(now).orders == s.orders,
        s.filled(now).signals == s.signals,
        s.configured(p, now).updated_at == now,
        s.in_status(status, now).updated_at == now,
        s.signalled(now).updated_at == now,
        s.ordered(id, now).updated_at == now,
        s.filled(now).updated_at == now,
{
}

/// A balance that was read back stands under its account and asset, and no other
/// balance is affected.
pub proof fn law_balance_is_read_back(s: RuntimeView, b: BalanceView, key: Seq<char>)
    ensures
        table::lookup(s.with_balance(b).portfolio.balances, b.account_id + ":"@ + b.asset) == Some(
            b,
        ),
        key != b.account_id + ":"@ + b.asset ==> table::lookup(
            s.with_balance(b).portfolio.balances,
            key,
        ) == table::lookup(s.portfolio.balances, key),
        s.with_balance(b).portfolio.pnl == s.portfolio.pnl,
        s.with_balance(b).portfolio.positions == s.portfolio.positions,
        s.with_balance(b).portfolio.ledger == s.portfolio.ledger,
{
    table::law_put(s.portfolio.balances, portfolio::pair_key(b.account_id, b.asset), b, key);
}

/// An intent that is repeated does not lead to a second order: where its order
/// went out before, or it asks for something else under the same id, it fails and
/// the paper engine stays as it is.
#[verifier::spinoff_prover]
#[verifier::rlimit(60)]
pub proof fn law_repeated_intent_places_nothing(
    s: RuntimeView,
    intent: IntentView,
    order_id: Seq<char>,
    now: TimestampMs,
    result: Option<core::result::Result<ExecutionView, ErrorView>>,
    after: RuntimeView,
)
    requires
        s.executes(intent, order_id, now, result, after),
        s.oms.earlier(intent) matches Some(known) && (known matches Ok(o) ==> {
            ||| o.status == OrderStatus::Acknowledged
            ||| o.status == OrderStatus::PartiallyFilled
            ||| o.status == OrderStatus::CancelPending
            ||| o.status.terminal()
        }),
    ensures
        !(result matches Some(r) && r is Ok),
        after.paper == s.paper,
        after.oms == s.oms,
        after.portfolio == s.portfolio,
{
    let ruled = s.ruled(intent, now);
    if s.in_scope(intent) && s.rulable() && s.ruling(intent, now) == Some(DecisionView::Approved) {
        assert(ruled.oms == s.oms);
        assert(ruled.paper == s.paper);
        assert(ruled.portfolio == s.portfolio);
        assert(ruled.with_order_for(intent, order_id, now) == ruled);
        assert(ruled.obstacle(intent, order_id, now) is Some);
    }
}

/// An order that is over as soon as it is placed, without a fill, gives back
/// what its approval took. Stated for a new intent where no other fills wait and
/// the sums need no rounding.
#[verifier::spinoff_prover]
#[verifier::rlimit(60)]
pub proof fn law_unfilled_end_gives_back(
    s: RuntimeView,
    intent: IntentView,
    order_id: Seq<char>,
    now: TimestampMs,
    x: ExecutionView,
    after: RuntimeView,
)
    requires
        s.executes(
            intent,
            order_id,
            now,
            Some(Ok::<ExecutionView, ErrorView>(x)),
            after,
        ),
        x.failure is None,
        x.order.status.terminal(),
        x.order.filled_quantity.units() == 0,
        s.oms.earlier(intent) is None,
        s.paper.pending.len() == 0,
        booking_is_exact(s, intent, now),
    ensures
        same_open(after.risk, s.risk, intent),
        after.portfolio == s.portfolio,
        x.applied.len() == 0,
{
    let ruled = s.ruled(intent, now);
    let notional = s.booked(intent, now);
    let (placed, then) = choose|placed: OrderView, then: RuntimeView|
        {
            &&& #[trigger] ruled.placed(intent, order_id, now, placed, then)
            &&& then.settles(
                intent,
                placed,
                notional,
                now,
                Some(Ok::<ExecutionView, ErrorView>(x)),
                after,
            )
        };
    decimal::lemma_sign_of_units(x.order.filled_quantity);
    let order = ruled.submitted(intent, order_id, now);
    let p = ruled.paper.placement(order, now)->0;
    if let Some(t) = p.trade {
        sim::law_placed_trade_is_within_the_display(ruled.paper, order, now, p, t);
        decimal::lemma_sign_of_units(t.1);
        assert(order.filled_quantity == DecimalView::zero());
        assert(placed.filled_quantity == t.1);
    }
    sim::law_placed_fill_waits(ruled.paper, order, now, placed, then.paper, p);
    let start = then.drained();
    assert(start.after_fills(then.paper.pending, 0, now) == (start, Ending::Done));
    assert(start.all_applied(then.paper.pending, 0, now).len() == 0);
    lemma_given_back(s, intent, now);
}

/// What a fill gives back when its order is over is what the order is worth: its
/// quantity at its own price, or for a market order at the price of the fill.
pub proof fn law_order_is_worth_its_price(o: OrderView, f: FillView)
    ensures
        o.order_type == OrderType::Market || o.price is None ==> RuntimeView::order_worth(o, f)
            == f.price.times(o.quantity),
        o.order_type != OrderType::Market && o.price is Some ==> RuntimeView::order_worth(o, f) == (
        o.price->0).times(o.quantity),
{
}

/// What is told of a fill that was applied: the fill, the ledger events that it
/// added, its order as the paper engine has it, and the strategy with one fill
/// more.
pub proof fn law_applied_fill_is_told(s: RuntimeView, f: FillView, now: TimestampMs)
    requires
        s.after_fill(f, now).1 is Done,
    ensures
        ({
            let a = s.applied(f, now);
            let after = s.after_fill(f, now).0;
            &&& a.fill == f
            &&& after.portfolio.ledger == s.portfolio.ledger + a.events
            &&& a.events.len() == if f.fee.amount.units() > 0 {
                2nat
            } else {
                1nat
            }
            &&& a.order == table::lookup(s.paper.orders, f.order_id)
            &&& a.snapshot == after.strategy
            &&& a.snapshot.fills == s.strategy.fills + 1
        }),
{
    law_fill_reaches_all_books(s, f, now);
    let booked = s.spot_fill(f);
    portfolio::law_fill_is_in_the_ledger(s.portfolio, booked, now);
    let a = s.applied(f, now);
    let after = s.after_fill(f, now).0;
    assert(s.portfolio.ledger + a.events =~= after.portfolio.ledger);
}

/// Every stored balance is read back: it stands under its account and asset
/// unless a later one took its place.
pub proof fn law_all_balances_are_read_back(
    s: RuntimeView,
    balances: Seq<BalanceView>,
    n: int,
    i: int,
)
    requires
        0 <= i < n <= balances.len(),
        forall|j: int|
            i < j < n ==> (#[trigger] balances[j]).account_id + ":"@ + balances[j].asset
                != balances[i].account_id + ":"@ + balances[i].asset,
    ensures
        table::lookup(
            s.with_balances(balances, n).portfolio.balances,
            balances[i].account_id + ":"@ + balances[i].asset,
        ) == Some(balances[i]),
    decreases n,
{
    let before = s.with_balances(balances, n - 1);
    let b = balances[n - 1];
    law_balance_is_read_back(before, b, balances[i].account_id + ":"@ + balances[i].asset);
    if i < n - 1 {
        law_all_balances_are_read_back(s, balances, n - 1, i);
        assert(balances[n - 1].account_id + ":"@ + balances[n - 1].asset != balances[i].account_id
            + ":"@ + balances[i].asset);
    }
}

/// Every stored order of the instrument is known again under its id, unless a
/// later one has the same id.
pub proof fn law_all_orders_are_taken_up(
    s: RuntimeView,
    open: Seq<OrderView>,
    n: int,
    i: int,
)
    requires
        0 <= i < n <= open.len(),
        s.with_all_restored(open, n) is Some,
        open[i].instrument_id == s.instrument.id,
        forall|j: int| i < j < n ==> (#[trigger] open[j]).id != open[i].id,
    ensures
        table::lookup(s.with_all_restored(open, n)->0.oms.orders, open[i].id) == Some(open[i]),
        open[i].status.active() ==> table::lookup(
            s.with_all_restored(open, n)->0.paper.orders,
            open[i].id,
        ) == Some(open[i]),
    decreases n,
{
    let before = s.with_all_restored(open, n - 1)->0;
    lemma_restoring_keeps_instrument(s, open, n - 1);
    if i < n - 1 {
        law_all_orders_are_taken_up(s, open, n - 1, i);
        assert(open[n - 1].id != open[i].id);
        table::law_put(before.oms.orders, open[n - 1].id, open[n - 1], open[i].id);
        table::law_put(before.paper.orders, open[n - 1].id, open[n - 1], open[i].id);
    } else {
        law_restored_order_is_taken_up(before, open[i]);
    }
}

proof fn lemma_restoring_keeps_instrument(s: RuntimeView, open: Seq<OrderView>, n: int)
    requires
        s.with_all_restored(open, n) is Some,
    ensures
        s.with_all_restored(open, n)->0.instrument == s.instrument,
    decreases n,
{
    if n > 0 {
        lemma_restoring_keeps_instrument(s, open, n - 1);
    }
}

/// Parameters that are refused are refused for what is wrong with them.
pub proof fn law_refused_parameters_say_why(s: RuntimeView, p: ParametersView)
    requires
        s.instrument.qty_in_range(p.quantity),
    ensures
        p.quantity.units() <= 0 || !s.instrument.qty_valid(p.quantity) ==> s.parameters_verdict(p)
            == Some(
            Err::<(), ErrorView>(
                ErrorView::Config(
                    "quantity "@ + p.quantity.text() + " violates instrument lot size"@,
                ),
            ),
        ),
        p.quantity.units() > 0 && s.instrument.qty_valid(p.quantity) && (
        p.limit_offset_bps.units() > 1000 * decimal::pow10(28) || p.limit_offset_bps.units()
            < -1000 * decimal::pow10(28)) ==> s.parameters_verdict(p) == Some(
            Err::<(), ErrorView>(
                ErrorView::Config("limit_offset_bps must be between -1000 and 1000"@),
            ),
        ),
{
    decimal::lemma_sign_of_units(p.quantity);
    decimal::lemma_abs_units(p.limit_offset_bps);
    assert(DecimalView::of(1000, 0).units() == 1000 * decimal::pow10(28));
}

/// A strategy that has just been set up runs, has counted nothing and is at its
/// first revision.
pub proof fn law_fresh_strategy_has_counted_nothing(
    strategy_id: Seq<char>,
    account_id: Seq<char>,
    instrument: Seq<char>,
    now: TimestampMs,
)
    ensures
        ({
            let s = SnapshotView::fresh(strategy_id, account_id, instrument, now);
            &&& s.strategy_id == strategy_id && s.account_id == account_id
            &&& s.instrument_id == instrument && s.started_at == now && s.updated_at == now
            &&& s.status == StrategyRunStatus::Running && s.revision == 1
            &&& s.signals == 0 && s.orders == 0 && s.fills == 0
            &&& s.last_signal_at is None && s.last_order_id is None && s.last_error is None
        }),
{
}

/// An account that has nothing yet starts with ten thousand of its quote asset,
/// all of it free.
pub proof fn law_starting_balance_is_free(account: Seq<char>, quote: Seq<char>, now: TimestampMs)
    ensures
        ({
            let b = starting_balance(account, quote, now);
            &&& b.account_id == account && b.asset == quote && b.updated_at == now
            &&& b.free.units() == 10_000 * decimal::pow10(28) && b.locked.units() == 0
        }),
{
    decimal::lemma_sign_of_units(DecimalView::zero());
    assert(DecimalView::of(10_000, 0).units() == 10_000 * decimal::pow10(28));
}

/// A fill of the account that the books can take is applied, where its order is
/// unknown or not over yet and the count does not end.
pub proof fn law_fill_is_applied_where_it_can_be(s: RuntimeView, f: FillView, now: TimestampMs)
    requires
        f.account_id == s.account_id,
        s.portfolio.fill_verdict(
            SpotFill {
                account: f.account_id,
                instrument: s.instrument,
                side: f.side,
                price: f.price,
                qty: f.quantity,
                fee: f.fee.amount,
                fee_asset: f.fee.asset,
            },
        ) == Some(Ok::<(), ErrorView>(())),
        table::lookup(s.paper.orders, f.order_id) matches Some(o) ==> !o.status.terminal(),
        s.strategy.fills < u64::MAX,
    ensures
        s.after_fill(f, now).1 is Done,
        s.can_apply(f),
{
}

/// An order is taken up again wherever its worth is in range and can be booked;
/// one that is not at work, or of another instrument, always.
pub proof fn law_restoring_succeeds(s: RuntimeView, o: OrderView, price: DecimalView)
    requires
        s.market.reference(s.instrument.id) is Some,
        o.order_type != OrderType::Market && o.price == Some(price) && price.times(
            o.quantity,
        ) is Some || !o.status.active() || o.instrument_id != s.instrument.id,
        o.status.active() ==> (o.strategy_instance_id matches Some(strategy) ==> {
            let n = price.times(o.quantity)->0;
            &&& risk::booked(s.risk.open_notional_by_strategy, strategy).plus(n) is Some
            &&& risk::booked(s.risk.open_notional_by_account, o.account_id).plus(n) is Some
            &&& risk::counted(s.risk.active_orders_by_strategy, strategy) < u32::MAX
        }),
    ensures
        s.with_restored(o) is Some,
{
}

} // verus!

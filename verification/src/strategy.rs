//! Strategy SDK. Isolated from API keys; emits `OrderIntent` only.

use vstd::prelude::*;
use vstd::string::*;

use crate::decimal::{Decimal, DecimalView};
use crate::domain::{
    IntentView, OrderIntent, OrderSide, OrderType, PositionSide, ReduceOnly, StrategyConfig,
    TimeInForce,
};
use crate::error::Result;
use crate::events::{MarketEvent, TickerView};
use crate::ids::{
    now_ms, AccountId, ClientOrderId, Environment, IntentId, StrategyInstanceId, TimestampMs,
};
use crate::ids;
use crate::views;

verus! {

/// A strategy's own state as a JSON document.
pub type StrategySnapshot = String;

#[derive(Debug)]
pub struct StrategyContext {
    pub instance_id: StrategyInstanceId,
    pub account_id: AccountId,
    pub environment: Environment,
    pub config: StrategyConfig,
}

impl Clone for StrategyContext {
    fn clone(&self) -> (r: Self)
        ensures
            r == *self,
    {
        StrategyContext {
            instance_id: self.instance_id.clone(),
            account_id: self.account_id.clone(),
            environment: self.environment,
            config: self.config.clone(),
        }
    }
}

/// What the host keeps for a strategy, as a JSON document.
#[derive(Debug)]
pub struct StrategyState {
    pub data: String,
}

impl Clone for StrategyState {
    fn clone(&self) -> (r: Self)
        ensures
            r == *self,
    {
        StrategyState { data: self.data.clone() }
    }
}

impl Default for StrategyState {
    fn default() -> (r: Self)
        ensures
            r.data@ == "null"@,
    {
        StrategyState { data: "null".to_owned() }
    }
}

#[derive(Debug, Clone, Copy, PartialEq, Eq, Structural)]
pub enum StopReason {
    Operator,
    RiskHalt,
    Crash,
    Redeploy,
    Shutdown,
}

/// Whether a strategy let a call pass without doing or wanting anything.
pub open spec fn idle<S>(before: S, after: S, answer: Result<Vec<OrderIntent>>) -> bool {
    after == before && (answer matches Ok(intents) && intents@.len() == 0)
}

/// Whether a strategy let a call pass without doing anything.
pub open spec fn passive<S>(before: S, after: S, answer: Result<()>) -> bool {
    after == before && answer is Ok
}

/// What a strategy does with what it is told. What it does not care for, it lets
/// pass.
pub trait Strategy: Sized {
    fn on_start(&mut self, context: &StrategyContext) -> (r: Result<()>);

    fn on_market(&mut self, _event: &MarketEvent, _state: &StrategyState) -> (r: Result<
        Vec<OrderIntent>,
    >)
        default_ensures
            idle(*old(self), *final(self), r),
    {
        Ok(Vec::new())
    }

    fn on_config_update(&mut self, _old_config: &StrategyConfig, _new_config: &StrategyConfig) -> (r:
        Result<()>)
        default_ensures
            passive(*old(self), *final(self), r),
    {
        Ok(())
    }

    fn on_timer(&mut self, _time: TimestampMs) -> (r: Result<Vec<OrderIntent>>)
        default_ensures
            idle(*old(self), *final(self), r),
    {
        Ok(Vec::new())
    }

    fn snapshot(&self) -> (r: StrategySnapshot)
        default_ensures
            r@ == "null"@,
    {
        "null".to_owned()
    }

    fn restore(&mut self, _snap: &StrategySnapshot) -> (r: Result<()>)
        default_ensures
            passive(*old(self), *final(self), r),
    {
        Ok(())
    }

    fn on_stop(&mut self, _reason: StopReason) -> (r: Result<()>)
        default_ensures
            passive(*old(self), *final(self), r),
    {
        Ok(())
    }
}

/// Runs one strategy in its context. Each call goes to the strategy: what comes
/// back, and what the strategy is then, is what its own method gives.
pub struct StrategyHost<S: Strategy> {
    pub context: StrategyContext,
    strategy: S,
    state: StrategyState,
}

impl<S: Strategy> StrategyHost<S> {
    /// The context that the strategy runs in.
    pub closed spec fn runs_in(&self) -> StrategyContext {
        self.context
    }

    /// The strategy that the host runs.
    pub closed spec fn hosted(&self) -> S {
        self.strategy
    }

    /// What the host keeps for the strategy.
    pub closed spec fn keeps(&self) -> StrategyState {
        self.state
    }

    pub fn new(context: StrategyContext, strategy: S) -> (r: Self)
        ensures
            r.runs_in() == context,
            r.hosted() == strategy,
            r.keeps().data@ == "null"@,
    {
        StrategyHost { context, strategy, state: StrategyState::default() }
    }

    pub fn start(&mut self) -> (r: Result<()>)
        ensures
            exists|s: &mut S|
                {
                    &&& *s == old(self).hosted()
                    &&& *final(s) == final(self).hosted()
                    &&& #[trigger] call_ensures(S::on_start, (s, &old(self).runs_in()), r)
                },
            final(self).runs_in() == old(self).runs_in(),
            final(self).keeps() == old(self).keeps(),
    {
        self.strategy.on_start(&self.context)
    }

    pub fn on_market(&mut self, event: &MarketEvent) -> (r: Result<Vec<OrderIntent>>)
        ensures
            exists|s: &mut S|
                {
                    &&& *s == old(self).hosted()
                    &&& *final(s) == final(self).hosted()
                    &&& #[trigger] call_ensures(S::on_market, (s, event, &old(self).keeps()), r)
                },
            final(self).runs_in() == old(self).runs_in(),
            final(self).keeps() == old(self).keeps(),
    {
        let r = self.strategy.on_market(event, &self.state);
        assert(self.state == old(self).keeps());
        r
    }

    pub fn on_timer(&mut self, t: TimestampMs) -> (r: Result<Vec<OrderIntent>>)
        ensures
            exists|s: &mut S|
                {
                    &&& *s == old(self).hosted()
                    &&& *final(s) == final(self).hosted()
                    &&& #[trigger] call_ensures(S::on_timer, (s, t), r)
                },
            final(self).runs_in() == old(self).runs_in(),
            final(self).keeps() == old(self).keeps(),
    {
        self.strategy.on_timer(t)
    }

    /// Lets the strategy take the new configuration, and keeps it when the
    /// strategy does.
    pub fn update_config(&mut self, old_config: &StrategyConfig, new: &StrategyConfig) -> (r: Result<
        (),
    >)
        ensures
            exists|s: &mut S|
                {
                    &&& *s == old(self).hosted()
                    &&& *final(s) == final(self).hosted()
                    &&& #[trigger] call_ensures(S::on_config_update, (s, old_config, new), r)
                },
            r is Ok ==> final(self).runs_in() == (StrategyContext {
                config: *new,
                ..old(self).runs_in()
            }),
            r is Err ==> final(self).runs_in() == old(self).runs_in(),
            final(self).keeps() == old(self).keeps(),
    {
        let answer = self.strategy.on_config_update(old_config, new);
        if answer.is_ok() {
            self.context.config = new.clone();
        }
        answer
    }

    pub fn stop(&mut self, reason: StopReason) -> (r: Result<()>)
        ensures
            exists|s: &mut S|
                {
                    &&& *s == old(self).hosted()
                    &&& *final(s) == final(self).hosted()
                    &&& #[trigger] call_ensures(S::on_stop, (s, reason), r)
                },
            final(self).runs_in() == old(self).runs_in(),
            final(self).keeps() == old(self).keeps(),
    {
        self.strategy.on_stop(reason)
    }
}

/// Demo strategy: buy once on first book tick (proves the full pipeline).
pub struct OneShotBuyStrategy {
    sent: bool,
    qty: Decimal,
}

/// What a [`OneShotBuyStrategy`] holds.
pub struct OneShotView {
    pub sent: bool,
    pub qty: DecimalView,
}

impl View for OneShotBuyStrategy {
    type V = OneShotView;

    closed spec fn view(&self) -> OneShotView {
        OneShotView { sent: self.sent, qty: self.qty@ }
    }
}

impl OneShotView {
    /// The purchase at the ask of the first book tick.
    pub open spec fn purchase(
        self,
        tick: TickerView,
        id: Seq<char>,
        client_order_id: Seq<char>,
        now: TimestampMs,
    ) -> IntentView {
        IntentView {
            id,
            strategy_instance_id: "oneshot"@,
            account_id: "paper_acc"@,
            instrument_id: tick.instrument_id,
            side: OrderSide::Buy,
            order_type: OrderType::Limit,
            time_in_force: TimeInForce::Gtc,
            price: Some(tick.ask_price),
            quantity: self.qty,
            reduce_only: ReduceOnly::No,
            position_side: PositionSide::Both,
            leverage: None,
            client_order_id,
            reason: Some("oneshot buy"@),
            created_at: now,
        }
    }
}

impl OneShotBuyStrategy {
    pub fn new(qty: Decimal) -> (r: Self)
        ensures
            r@ == (OneShotView { sent: false, qty: qty@ }),
    {
        OneShotBuyStrategy { sent: false, qty }
    }

    /// What the strategy wants after an event, with the given identifiers.
    pub fn react(
        &mut self,
        event: &MarketEvent,
        id: IntentId,
        client_order_id: ClientOrderId,
        now: TimestampMs,
    ) -> (r: Vec<OrderIntent>)
        ensures
            match event {
                MarketEvent::BookTicker(t) if !old(self)@.sent => {
                    &&& final(self)@ == (OneShotView { sent: true, ..old(self)@ })
                    &&& views::seq_view(r@) == seq![
                        old(self)@.purchase(t@, id@, client_order_id@, now),
                    ]
                },
                _ => final(self)@ == old(self)@ && r@.len() == 0,
            },
    {
        let mut r: Vec<OrderIntent> = Vec::new();
        if self.sent {
            return r;
        }
        let tick = match event {
            MarketEvent::BookTicker(t) => t,
            MarketEvent::Trade(_) => return r,
        };
        self.sent = true;
        let intent = OrderIntent {
            id,
            strategy_instance_id: StrategyInstanceId::from("oneshot"),
            account_id: AccountId::from("paper_acc"),
            instrument_id: tick.instrument_id.clone(),
            side: OrderSide::Buy,
            order_type: OrderType::Limit,
            time_in_force: TimeInForce::Gtc,
            price: Some(tick.ask_price),
            quantity: self.qty,
            reduce_only: ReduceOnly::No,
            position_side: PositionSide::Both,
            leverage: None,
            client_order_id,
            reason: Some("oneshot buy".to_owned()),
            created_at: now,
        };
        r.push(intent);
        assert(views::seq_view(r@) =~= seq![intent@]);
        r
    }
}

impl OneShotBuyStrategy {
    /// What the strategy may become and want after an event.
    pub open spec fn may_react(
        before: Self,
        event: MarketEvent,
        after: Self,
        answer: Result<Vec<OrderIntent>>,
    ) -> bool {
        answer matches Ok(intents) && match event {
            MarketEvent::BookTicker(t) if !before@.sent => {
                &&& after@ == (OneShotView { sent: true, ..before@ })
                &&& exists|id: Seq<char>, clid: Seq<char>, now: TimestampMs|
                    {
                        &&& views::seq_view(intents@) == seq![
                            #[trigger] before@.purchase(t@, id, clid, now),
                        ]
                        &&& ids::tagged("int_"@, id)
                        &&& ids::tagged("clid_"@, clid)
                        &&& ids::clock_gives(now)
                    }
            },
            _ => after@ == before@ && intents@.len() == 0,
        }
    }
}

impl Strategy for OneShotBuyStrategy {
    fn on_start(&mut self, _context: &StrategyContext) -> (r: Result<()>)
        ensures
            passive(*old(self), *final(self), r),
    {
        Ok(())
    }

    fn on_market(&mut self, event: &MarketEvent, _state: &StrategyState) -> (r: Result<
        Vec<OrderIntent>,
    >)
        ensures
            OneShotBuyStrategy::may_react(*old(self), *event, *final(self), r),
    {
        let id = IntentId::new();
        let client_order_id = ClientOrderId::new();
        Ok(self.react(event, id, client_order_id, now_ms()))
    }
}

/// The one purchase is a limit order that buys the strategy's quantity of the
/// quoted instrument at its ask.
pub proof fn law_purchase_is_at_the_ask(
    s: OneShotView,
    tick: TickerView,
    id: Seq<char>,
    client_order_id: Seq<char>,
    now: TimestampMs,
)
    ensures
        ({
            let i = s.purchase(tick, id, client_order_id, now);
            &&& i.side == OrderSide::Buy && i.order_type == OrderType::Limit
            &&& i.time_in_force == TimeInForce::Gtc
            &&& i.price == Some(tick.ask_price)
            &&& i.quantity == s.qty
            &&& i.instrument_id == tick.instrument_id
            &&& i.id == id && i.client_order_id == client_order_id
            &&& i.created_at == now && i.leverage is None && i.reduce_only == ReduceOnly::No
        }),
{
}

} // verus!

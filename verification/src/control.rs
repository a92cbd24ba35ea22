//! What the dashboard may ask for, and what it is answered.

use vstd::prelude::*;
use vstd::string::*;

use crate::decimal::{Decimal, DecimalView};
use crate::decimal;
use crate::domain::{
    IntentView, OrderIntent, OrderSide, OrderType, PositionSide, ReduceOnly, TimeInForce,
};
use crate::error::TuxError;
use crate::ids::{now_ms, ClientOrderId, IntentId, TimestampMs};
use crate::ids;
use crate::oms;
use crate::runtime::{
    ParametersView, RuntimeState, RuntimeView, StrategyParameters, StrategyRunStatus,
};
use crate::text::{ascii_lower, join2, join4, same_text, u64_text};
use crate::text;
use crate::views;

verus! {

/// How many rows a request asks for.
#[derive(Debug, Clone, Copy)]
pub struct LimitQ {
    pub limit: Option<u32>,
}

/// How many rows are listed: what was asked for, within 1 and 500.
pub open spec fn clamped_limit(value: Option<u32>, default: u32) -> u32 {
    let n = match value {
        Some(n) => n,
        None => default,
    };
    if n < 1 {
        1
    } else if n > 500 {
        500
    } else {
        n
    }
}

pub fn limit_or(value: Option<u32>, default: u32) -> (r: u32)
    ensures
        r == clamped_limit(value, default),
        1 <= r <= 500,
{
    let n = match value {
        Some(n) => n,
        None => default,
    };
    if n < 1 {
        1
    } else if n > 500 {
        500
    } else {
        n
    }
}

/// What a text is read as, or why it is not.
pub open spec fn read_decimal(
    value: Seq<char>,
    field: Seq<char>,
) -> core::result::Result<DecimalView, Seq<char>> {
    match decimal::parsed_decimal(value) {
        Some(d) => Ok(d),
        None => Err("invalid "@ + field),
    }
}

pub fn parse_decimal(value: &str, field: &str) -> (r: core::result::Result<Decimal, String>)
    ensures
        match read_decimal(value@, field@) {
            Ok(d) => r matches Ok(x) && x@ == d,
            Err(e) => r matches Err(x) && x@ == e,
        },
{
    match Decimal::parse(value) {
        Some(d) => Ok(d),
        None => Err(join2("invalid ", field)),
    }
}

/// What a side is read as, in whatever case.
pub open spec fn read_side(value: Seq<char>) -> core::result::Result<OrderSide, Seq<char>> {
    let v = text::lower_text(value);
    if v == "buy"@ {
        Ok(OrderSide::Buy)
    } else if v == "sell"@ {
        Ok(OrderSide::Sell)
    } else {
        Err("side must be buy or sell"@)
    }
}

pub fn parse_side(value: &str) -> (r: core::result::Result<OrderSide, String>)
    ensures
        match read_side(value@) {
            Ok(s) => r == Ok::<OrderSide, String>(s),
            Err(e) => r matches Err(x) && x@ == e,
        },
{
    let v = ascii_lower(value);
    if same_text(v.as_str(), "buy") {
        Ok(OrderSide::Buy)
    } else if same_text(v.as_str(), "sell") {
        Ok(OrderSide::Sell)
    } else {
        Err("side must be buy or sell".to_owned())
    }
}

/// What an order type is read as, in whatever case.
pub open spec fn read_order_type(value: Seq<char>) -> core::result::Result<OrderType, Seq<char>> {
    let v = text::lower_text(value);
    if v == "limit"@ {
        Ok(OrderType::Limit)
    } else if v == "market"@ {
        Ok(OrderType::Market)
    } else if v == "post_only"@ {
        Ok(OrderType::PostOnly)
    } else {
        Err("order_type must be limit, market, or post_only"@)
    }
}

pub fn parse_order_type(value: &str) -> (r: core::result::Result<OrderType, String>)
    ensures
        match read_order_type(value@) {
            Ok(s) => r == Ok::<OrderType, String>(s),
            Err(e) => r matches Err(x) && x@ == e,
        },
{
    let v = ascii_lower(value);
    if same_text(v.as_str(), "limit") {
        Ok(OrderType::Limit)
    } else if same_text(v.as_str(), "market") {
        Ok(OrderType::Market)
    } else if same_text(v.as_str(), "post_only") {
        Ok(OrderType::PostOnly)
    } else {
        Err("order_type must be limit, market, or post_only".to_owned())
    }
}

/// What a time in force is read as, in whatever case.
pub open spec fn read_tif(value: Seq<char>) -> core::result::Result<TimeInForce, Seq<char>> {
    let v = text::lower_text(value);
    if v == "gtc"@ {
        Ok(TimeInForce::Gtc)
    } else if v == "ioc"@ {
        Ok(TimeInForce::Ioc)
    } else if v == "fok"@ {
        Ok(TimeInForce::Fok)
    } else {
        Err("time_in_force must be gtc, ioc, or fok"@)
    }
}

pub fn parse_tif(value: &str) -> (r: core::result::Result<TimeInForce, String>)
    ensures
        match read_tif(value@) {
            Ok(s) => r == Ok::<TimeInForce, String>(s),
            Err(e) => r matches Err(x) && x@ == e,
        },
{
    let v = ascii_lower(value);
    if same_text(v.as_str(), "gtc") {
        Ok(TimeInForce::Gtc)
    } else if same_text(v.as_str(), "ioc") {
        Ok(TimeInForce::Ioc)
    } else if same_text(v.as_str(), "fok") {
        Ok(TimeInForce::Fok)
    } else {
        Err("time_in_force must be gtc, ioc, or fok".to_owned())
    }
}

/// A request to configure the strategy.
#[derive(Debug, Clone)]
pub struct StrategyConfigRequest {
    pub quantity: String,
    pub side: String,
    pub order_type: String,
    pub time_in_force: String,
    pub limit_offset_bps: String,
}

/// What the requested parameters are, or the first that cannot be read.
pub open spec fn read_parameters(
    quantity: Seq<char>,
    side: Seq<char>,
    order_type: Seq<char>,
    time_in_force: Seq<char>,
    limit_offset_bps: Seq<char>,
) -> core::result::Result<ParametersView, Seq<char>> {
    match read_decimal(quantity, "quantity"@) {
        Err(e) => Err(e),
        Ok(quantity) => match read_side(side) {
            Err(e) => Err(e),
            Ok(side) => match read_order_type(order_type) {
                Err(e) => Err(e),
                Ok(order_type) => match read_tif(time_in_force) {
                    Err(e) => Err(e),
                    Ok(time_in_force) => match read_decimal(
                        limit_offset_bps,
                        "limit_offset_bps"@,
                    ) {
                        Err(e) => Err(e),
                        Ok(limit_offset_bps) => Ok(
                            ParametersView {
                                side,
                                order_type,
                                time_in_force,
                                quantity,
                                limit_offset_bps,
                            },
                        ),
                    },
                },
            },
        },
    }
}

/// The parameters that a request asks for.
pub fn parse_parameters(
    request: &StrategyConfigRequest,
) -> (r: core::result::Result<StrategyParameters, String>)
    ensures
        match read_parameters(
            request.quantity@,
            request.side@,
            request.order_type@,
            request.time_in_force@,
            request.limit_offset_bps@,
        ) {
            Ok(p) => r matches Ok(x) && x@ == p,
            Err(e) => r matches Err(x) && x@ == e,
        },
{
    let quantity = match parse_decimal(request.quantity.as_str(), "quantity") {
        Ok(d) => d,
        Err(e) => return Err(e),
    };
    let side = match parse_side(request.side.as_str()) {
        Ok(s) => s,
        Err(e) => return Err(e),
    };
    let order_type = match parse_order_type(request.order_type.as_str()) {
        Ok(t) => t,
        Err(e) => return Err(e),
    };
    let time_in_force = match parse_tif(request.time_in_force.as_str()) {
        Ok(t) => t,
        Err(e) => return Err(e),
    };
    let limit_offset_bps = match parse_decimal(
        request.limit_offset_bps.as_str(),
        "limit_offset_bps",
    ) {
        Ok(d) => d,
        Err(e) => return Err(e),
    };
    Ok(StrategyParameters { side, order_type, time_in_force, quantity, limit_offset_bps })
}

/// A request for an order by hand.
#[derive(Debug, Clone)]
pub struct ManualOrderRequest {
    pub side: String,
    pub order_type: String,
    pub time_in_force: Option<String>,
    pub quantity: String,
    pub price: Option<String>,
}

/// What an order by hand asks for.
pub struct ManualView {
    pub side: OrderSide,
    pub order_type: OrderType,
    pub time_in_force: TimeInForce,
    pub quantity: DecimalView,
    pub price: Option<DecimalView>,
}

/// The price of an order by hand: none for a market order, else one is needed.
pub open spec fn read_price(
    order_type: OrderType,
    price: Option<Seq<char>>,
) -> core::result::Result<Option<DecimalView>, Seq<char>> {
    if order_type == OrderType::Market {
        Ok(None)
    } else {
        match price {
            None => Err("price is required"@),
            Some(s) => match read_decimal(s, "price"@) {
                Ok(d) => Ok(Some(d)),
                Err(e) => Err(e),
            },
        }
    }
}

/// What an order by hand asks for, or the first part that cannot be read. Good
/// till cancelled is meant where nothing else is said.
pub open spec fn read_manual(
    side: Seq<char>,
    order_type: Seq<char>,
    time_in_force: Option<Seq<char>>,
    quantity: Seq<char>,
    price: Option<Seq<char>>,
) -> core::result::Result<ManualView, Seq<char>> {
    let tif = match time_in_force {
        Some(t) => t,
        None => "gtc"@,
    };
    match read_side(side) {
        Err(e) => Err(e),
        Ok(side) => match read_order_type(order_type) {
            Err(e) => Err(e),
            Ok(order_type) => match read_tif(tif) {
                Err(e) => Err(e),
                Ok(time_in_force) => match read_decimal(quantity, "quantity"@) {
                    Err(e) => Err(e),
                    Ok(quantity) => match read_price(order_type, price) {
                        Err(e) => Err(e),
                        Ok(price) => Ok(
                            ManualView { side, order_type, time_in_force, quantity, price },
                        ),
                    },
                },
            },
        },
    }
}

impl RuntimeView {
    /// The intent for an order by hand.
    pub open spec fn manual_intent(
        self,
        m: ManualView,
        id: Seq<char>,
        client_order_id: Seq<char>,
        now: TimestampMs,
    ) -> IntentView {
        IntentView {
            id,
            strategy_instance_id: self.strategy_instance_id,
            account_id: self.account_id,
            instrument_id: self.instrument.id,
            side: m.side,
            order_type: m.order_type,
            time_in_force: m.time_in_force,
            price: m.price,
            quantity: m.quantity,
            reduce_only: ReduceOnly::No,
            position_side: PositionSide::Both,
            leverage: None,
            client_order_id,
            reason: Some("dashboard manual intervention"@),
            created_at: now,
        }
    }
}

/// The intent for an order by hand at `now`, under the given identifiers.
pub fn manual_intent_with(
    rt: &RuntimeState,
    request: &ManualOrderRequest,
    id: IntentId,
    client_order_id: ClientOrderId,
    now: TimestampMs,
) -> (r: core::result::Result<OrderIntent, String>)
    ensures
        match read_manual(
            request.side@,
            request.order_type@,
            views::opt_view(request.time_in_force),
            request.quantity@,
            views::opt_view(request.price),
        ) {
            Ok(m) => r matches Ok(x) && x@ == rt@.manual_intent(m, id@, client_order_id@, now),
            Err(e) => r matches Err(x) && x@ == e,
        },
{
    let side = match parse_side(request.side.as_str()) {
        Ok(s) => s,
        Err(e) => return Err(e),
    };
    let order_type = match parse_order_type(request.order_type.as_str()) {
        Ok(t) => t,
        Err(e) => return Err(e),
    };
    let tif = match &request.time_in_force {
        Some(t) => t.as_str(),
        None => "gtc",
    };
    let time_in_force = match parse_tif(tif) {
        Ok(t) => t,
        Err(e) => return Err(e),
    };
    let quantity = match parse_decimal(request.quantity.as_str(), "quantity") {
        Ok(d) => d,
        Err(e) => return Err(e),
    };
    let price = match order_type {
        OrderType::Market => None,
        _ => match &request.price {
            None => return Err("price is required".to_owned()),
            Some(s) => match parse_decimal(s.as_str(), "price") {
                Ok(d) => Some(d),
                Err(e) => return Err(e),
            },
        },
    };
    Ok(
        OrderIntent {
            id,
            strategy_instance_id: rt.strategy_instance_id.clone(),
            account_id: rt.account_id.clone(),
            instrument_id: rt.instrument.id.clone(),
            side,
            order_type,
            time_in_force,
            price,
            quantity,
            reduce_only: ReduceOnly::No,
            position_side: PositionSide::Both,
            leverage: None,
            client_order_id,
            reason: Some("dashboard manual intervention".to_owned()),
            created_at: now,
        },
    )
}

/// The intent for an order by hand now; `None` when the request can be read but
/// the strategy instance id cannot be shortened.
pub fn try_manual_intent(
    rt: &RuntimeState,
    request: &ManualOrderRequest,
) -> (r: Option<core::result::Result<OrderIntent, String>>)
    ensures
        match read_manual(
            request.side@,
            request.order_type@,
            views::opt_view(request.time_in_force),
            request.quantity@,
            views::opt_view(request.price),
        ) {
            Err(e) => r matches Some(Err(x)) && x@ == e,
            Ok(m) => if !oms::can_shorten(rt@.strategy_instance_id) {
                r is None
            } else {
                r matches Some(Ok(x)) && exists|id: Seq<char>, clid: Seq<char>, now: TimestampMs|
                    {
                        &&& x@ == #[trigger] rt@.manual_intent(m, id, clid, now)
                        &&& ids::tagged("int_"@, id)
                        &&& oms::made_now(rt@.strategy_instance_id, clid)
                        &&& ids::clock_gives(now)
                    }
            },
        },
{
    let now = now_ms();
    let id = IntentId::new();
    let ghost tag = id@;
    let unnamed = ClientOrderId::from("");
    let mut intent = match manual_intent_with(rt, request, id, unnamed, now) {
        Ok(i) => i,
        Err(e) => return Some(Err(e)),
    };
    intent.client_order_id = oms::try_generate_client_order_id(&rt.strategy_instance_id)?;
    proof {
        let m = read_manual(
            request.side@,
            request.order_type@,
            views::opt_view(request.time_in_force),
            request.quantity@,
            views::opt_view(request.price),
        )->Ok_0;
        assert(intent@ =~= rt@.manual_intent(m, tag, intent.client_order_id@, now));
    }
    Some(Ok(intent))
}

/// What the strategy is told to do.
#[derive(Debug, Clone, Copy, PartialEq, Eq, Structural)]
pub enum ControlAction {
    Pause,
    Resume,
    Stop,
    Trigger,
}

impl ControlAction {
    pub open spec fn text(self) -> Seq<char> {
        match self {
            ControlAction::Pause => "pause"@,
            ControlAction::Resume => "resume"@,
            ControlAction::Stop => "stop"@,
            ControlAction::Trigger => "trigger"@,
        }
    }

    pub fn as_str(self) -> (r: &'static str)
        ensures
            r@ == self.text(),
    {
        match self {
            ControlAction::Pause => "pause",
            ControlAction::Resume => "resume",
            ControlAction::Stop => "stop",
            ControlAction::Trigger => "trigger",
        }
    }

    /// The state that the action leads to; a trigger leads to an order instead.
    pub open spec fn status(self) -> Option<StrategyRunStatus> {
        match self {
            ControlAction::Pause => Some(StrategyRunStatus::Paused),
            ControlAction::Resume => Some(StrategyRunStatus::Running),
            ControlAction::Stop => Some(StrategyRunStatus::Stopped),
            ControlAction::Trigger => None,
        }
    }

    pub fn target_status(self) -> (r: Option<StrategyRunStatus>)
        ensures
            r == self.status(),
    {
        match self {
            ControlAction::Pause => Some(StrategyRunStatus::Paused),
            ControlAction::Resume => Some(StrategyRunStatus::Running),
            ControlAction::Stop => Some(StrategyRunStatus::Stopped),
            ControlAction::Trigger => None,
        }
    }
}

/// What an action is read as, in whatever case.
pub open spec fn read_action(value: Seq<char>) -> core::result::Result<ControlAction, Seq<char>> {
    let v = text::lower_text(value);
    if v == "pause"@ {
        Ok(ControlAction::Pause)
    } else if v == "resume"@ {
        Ok(ControlAction::Resume)
    } else if v == "stop"@ {
        Ok(ControlAction::Stop)
    } else if v == "trigger"@ {
        Ok(ControlAction::Trigger)
    } else {
        Err("unsupported strategy action"@)
    }
}

pub fn parse_action(value: &str) -> (r: core::result::Result<ControlAction, String>)
    ensures
        match read_action(value@) {
            Ok(s) => r == Ok::<ControlAction, String>(s),
            Err(e) => r matches Err(x) && x@ == e,
        },
{
    let v = ascii_lower(value);
    if same_text(v.as_str(), "pause") {
        Ok(ControlAction::Pause)
    } else if same_text(v.as_str(), "resume") {
        Ok(ControlAction::Resume)
    } else if same_text(v.as_str(), "stop") {
        Ok(ControlAction::Stop)
    } else if same_text(v.as_str(), "trigger") {
        Ok(ControlAction::Trigger)
    } else {
        Err("unsupported strategy action".to_owned())
    }
}

/// Why a request is answered with an error.
#[derive(Debug, Clone, Copy, PartialEq, Eq, Structural)]
pub enum ApiFailure {
    /// The request cannot be read or is not allowed.
    BadRequest,
    /// The strategy has no order to give.
    Conflict,
    /// The order was refused.
    Unprocessable,
    /// The service itself failed.
    Internal,
    /// There is no market data.
    Unavailable,
}

impl ApiFailure {
    /// The HTTP status that the failure is answered with.
    pub open spec fn code(self) -> u16 {
        match self {
            ApiFailure::BadRequest => 400,
            ApiFailure::Conflict => 409,
            ApiFailure::Unprocessable => 422,
            ApiFailure::Internal => 500,
            ApiFailure::Unavailable => 503,
        }
    }

    pub fn status_code(self) -> (r: u16)
        ensures
            r == self.code(),
    {
        match self {
            ApiFailure::BadRequest => 400,
            ApiFailure::Conflict => 409,
            ApiFailure::Unprocessable => 422,
            ApiFailure::Internal => 500,
            ApiFailure::Unavailable => 503,
        }
    }
}

/// How far a request came before it failed.
#[derive(Debug, Clone, Copy, PartialEq, Eq, Structural)]
pub enum Stage {
    /// The request was being read, or its parameters were refused.
    Read,
    /// The strategy was asked for its next order.
    Signal,
    /// The order was being executed.
    Execute,
    /// Something was being written down or read back.
    Persist,
    /// The market was asked for.
    Market,
}

impl Stage {
    /// How a failure at this stage is answered.
    pub open spec fn failure(self) -> ApiFailure {
        match self {
            Stage::Read => ApiFailure::BadRequest,
            Stage::Signal => ApiFailure::Conflict,
            Stage::Execute => ApiFailure::Unprocessable,
            Stage::Persist => ApiFailure::Internal,
            Stage::Market => ApiFailure::Unavailable,
        }
    }

    pub fn answer(self) -> (r: ApiFailure)
        ensures
            r == self.failure(),
    {
        match self {
            Stage::Read => ApiFailure::BadRequest,
            Stage::Signal => ApiFailure::Conflict,
            Stage::Execute => ApiFailure::Unprocessable,
            Stage::Persist => ApiFailure::Internal,
            Stage::Market => ApiFailure::Unavailable,
        }
    }
}

/// A request that changes something.
#[derive(Debug, Clone, Copy, PartialEq, Eq, Structural)]
pub enum Request {
    /// Give the strategy other parameters.
    Configure,
    /// Tell the strategy what to do.
    Control(ControlAction),
    /// Place an order by hand.
    Manual,
}

/// One thing to do for a request.
#[derive(Debug, Clone, Copy, PartialEq, Eq, Structural)]
pub enum Task {
    /// Read what was asked for.
    Read,
    /// Give the strategy its parameters.
    Configure,
    /// Take the strategy to another state.
    SetStatus,
    /// Ask the strategy for an order.
    Signal,
    /// Execute the order.
    Execute,
    /// Note the order with the strategy.
    NoteOrder,
    /// Write down where the account stands.
    PersistEquity,
    /// Enter the success into the history.
    RecordSuccess,
    /// Enter the failure into the history.
    RecordFailure,
}

/// What comes after a task.
#[derive(Debug, Clone, Copy, PartialEq, Eq, Structural)]
pub enum Next {
    Do(Task),
    /// The request is answered as done.
    Done,
    /// The request is answered with a failure.
    Refuse(ApiFailure),
}

impl Request {
    /// What is done first.
    pub open spec fn first(self) -> Task {
        match self {
            Request::Configure | Request::Manual => Task::Read,
            Request::Control(action) => if action.status() is Some {
                Task::SetStatus
            } else {
                Task::Signal
            },
        }
    }

    /// What comes after a task that failed. Whether the account or a failure
    /// could be written down does not matter.
    pub open spec fn after_failure(self, task: Task) -> Next {
        match task {
            Task::Read | Task::Configure => Next::Refuse(Stage::Read.failure()),
            Task::Signal => Next::Refuse(Stage::Signal.failure()),
            Task::Execute => Next::Do(Task::RecordFailure),
            Task::SetStatus | Task::NoteOrder | Task::RecordSuccess => Next::Refuse(
                Stage::Persist.failure(),
            ),
            Task::PersistEquity | Task::RecordFailure => self.after_success(task),
        }
    }

    /// What comes after a task that succeeded.
    pub open spec fn after_success(self, task: Task) -> Next {
        let manual = self == Request::Manual;
        match task {
            Task::Read => if self == Request::Configure {
                Next::Do(Task::Configure)
            } else {
                Next::Do(Task::Execute)
            },
            Task::Configure | Task::SetStatus => Next::Do(Task::RecordSuccess),
            Task::Signal => Next::Do(Task::Execute),
            Task::Execute => Next::Do(Task::NoteOrder),
            Task::NoteOrder => if manual {
                Next::Do(Task::RecordSuccess)
            } else {
                Next::Do(Task::PersistEquity)
            },
            Task::RecordSuccess => if manual {
                Next::Do(Task::PersistEquity)
            } else {
                Next::Done
            },
            Task::PersistEquity => if manual {
                Next::Done
            } else {
                Next::Do(Task::RecordSuccess)
            },
            Task::RecordFailure => Next::Refuse(Stage::Execute.failure()),
        }
    }

    /// What comes after a task that succeeded or failed.
    pub open spec fn following(self, task: Task, ok: bool) -> Next {
        if ok {
            self.after_success(task)
        } else {
            self.after_failure(task)
        }
    }

    /// How many tasks there may still be, this one included.
    pub open spec fn tasks_left(self, task: Task) -> nat {
        match task {
            Task::Read | Task::Signal => 5,
            Task::Execute => 4,
            Task::NoteOrder | Task::Configure | Task::SetStatus => 3,
            Task::RecordSuccess => if self == Request::Manual {
                2
            } else {
                1
            },
            Task::PersistEquity => if self == Request::Manual {
                1
            } else {
                2
            },
            Task::RecordFailure => 1,
        }
    }

    pub fn first_task(self) -> (r: Task)
        ensures
            r == self.first(),
    {
        match self {
            Request::Configure | Request::Manual => Task::Read,
            Request::Control(action) => match action.target_status() {
                Some(_) => Task::SetStatus,
                None => Task::Signal,
            },
        }
    }

    /// What comes after a task that succeeded or failed.
    pub fn next(self, task: Task, ok: bool) -> (r: Next)
        ensures
            r == self.following(task, ok),
    {
        let manual = matches!(self, Request::Manual);
        match task {
            Task::PersistEquity => if manual {
                Next::Done
            } else {
                Next::Do(Task::RecordSuccess)
            },
            Task::RecordFailure => Next::Refuse(Stage::Execute.answer()),
            Task::Read => if !ok {
                Next::Refuse(Stage::Read.answer())
            } else if matches!(self, Request::Configure) {
                Next::Do(Task::Configure)
            } else {
                Next::Do(Task::Execute)
            },
            Task::Configure => if ok {
                Next::Do(Task::RecordSuccess)
            } else {
                Next::Refuse(Stage::Read.answer())
            },
            Task::SetStatus => if ok {
                Next::Do(Task::RecordSuccess)
            } else {
                Next::Refuse(Stage::Persist.answer())
            },
            Task::Signal => if ok {
                Next::Do(Task::Execute)
            } else {
                Next::Refuse(Stage::Signal.answer())
            },
            Task::Execute => if ok {
                Next::Do(Task::NoteOrder)
            } else {
                Next::Do(Task::RecordFailure)
            },
            Task::NoteOrder => if !ok {
                Next::Refuse(Stage::Persist.answer())
            } else if manual {
                Next::Do(Task::RecordSuccess)
            } else {
                Next::Do(Task::PersistEquity)
            },
            Task::RecordSuccess => if !ok {
                Next::Refuse(Stage::Persist.answer())
            } else if manual {
                Next::Do(Task::PersistEquity)
            } else {
                Next::Done
            },
        }
    }
}

/// Every request is answered after at most five tasks.
pub proof fn law_request_is_answered(request: Request, task: Task, ok: bool)
    ensures
        request.tasks_left(request.first()) <= 5,
        request.following(task, ok) matches Next::Do(next) ==> request.tasks_left(next)
            < request.tasks_left(task),
        request.tasks_left(task) >= 1,
{
}

/// What a refused request is answered: a request that cannot be read or whose
/// parameters are refused is a bad one, a strategy without an order is a
/// conflict, a refused order is entered into the history and cannot be
/// processed, and whatever could not be written down is the service's failure.
/// Nothing else is refused.
pub proof fn law_refusal_is_answered(request: Request, task: Task, ok: bool)
    ensures
        request.following(task, ok) == Next::Refuse(ApiFailure::BadRequest) <==> !ok && (task
            == Task::Read || task == Task::Configure),
        request.following(task, ok) == Next::Refuse(ApiFailure::Conflict) <==> !ok && task
            == Task::Signal,
        request.following(Task::Execute, false) == Next::Do(Task::RecordFailure),
        request.following(task, ok) == Next::Refuse(ApiFailure::Unprocessable) <==> task
            == Task::RecordFailure,
        request.following(task, ok) == Next::Do(Task::RecordFailure) <==> !ok && task
            == Task::Execute,
        request.following(task, ok) == Next::Refuse(ApiFailure::Internal) <==> !ok && (task
            == Task::SetStatus || task == Task::NoteOrder || task == Task::RecordSuccess),
        request.following(task, ok) != Next::Refuse(ApiFailure::Unavailable),
{
}

/// No order is placed without being noted and entered into the history before
/// the request is answered as done.
pub proof fn law_done_is_recorded(request: Request, task: Task, ok: bool)
    requires
        request.following(task, ok) == Next::Done,
    ensures
        request == Request::Manual ==> task == Task::PersistEquity,
        request != Request::Manual ==> task == Task::RecordSuccess && ok,
        forall|before: Task, done: bool| #[trigger]
            Request::Manual.following(before, done) == Next::Do(Task::PersistEquity) ==> before
                == Task::RecordSuccess && done,
        forall|before: Task, done: bool|
            (#[trigger] Request::Manual.following(before, done) == Next::Do(Task::RecordSuccess)
                ==> done && (before == Task::NoteOrder || before == Task::Configure || before
                == Task::SetStatus)),
{
}

/// An entry in the strategy's history.
#[derive(Debug, Clone)]
pub struct Operation {
    pub action: String,
    pub status: String,
    pub actor: String,
    pub detail: String,
}

/// What an [`Operation`] holds.
#[verifier::ext_equal]
pub struct OperationView {
    pub action: Seq<char>,
    pub status: Seq<char>,
    pub actor: Seq<char>,
    pub detail: Seq<char>,
}

impl View for Operation {
    type V = OperationView;

    open spec fn view(&self) -> OperationView {
        OperationView {
            action: self.action@,
            status: self.status@,
            actor: self.actor@,
            detail: self.detail@,
        }
    }
}

impl OperationView {
    pub open spec fn entry(actor: Seq<char>, action: Seq<char>, ok: bool, detail: Seq<char>) -> Self {
        OperationView {
            action,
            status: if ok {
                "succeeded"@
            } else {
                "failed"@
            },
            actor,
            detail,
        }
    }
}

impl Operation {
    /// An entry by somebody about something that succeeded or failed.
    pub fn entry(actor: &str, action: &str, ok: bool, detail: &str) -> (r: Self)
        ensures
            r@ == OperationView::entry(actor@, action@, ok, detail@),
    {
        Operation {
            action: action.to_owned(),
            status: (if ok {
                "succeeded"
            } else {
                "failed"
            }).to_owned(),
            actor: actor.to_owned(),
            detail: detail.to_owned(),
        }
    }

    /// The strategy was configured.
    pub fn configured(revision: u64) -> (r: Self)
        ensures
            r@ == OperationView::entry(
                "dashboard"@,
                "update_config"@,
                true,
                "strategy configuration updated to revision "@ + text::nat_text(revision as nat),
            ),
    {
        let n = u64_text(revision);
        let detail = join2("strategy configuration updated to revision ", n.as_str());
        Operation::entry("dashboard", "update_config", true, detail.as_str())
    }

    /// An action was carried out.
    pub fn controlled(action: ControlAction) -> (r: Self)
        ensures
            r@ == OperationView::entry(
                "dashboard"@,
                action.text(),
                true,
                "dashboard action "@ + action.text(),
            ),
    {
        let detail = join2("dashboard action ", action.as_str());
        Operation::entry("dashboard", action.as_str(), true, detail.as_str())
    }

    /// An order that was asked for failed.
    pub fn failed(action: &str, error: &TuxError) -> (r: Self)
        ensures
            r@ == OperationView::entry("dashboard"@, action@, false, error@.text()),
    {
        let detail = error.to_text();
        Operation::entry("dashboard", action, false, detail.as_str())
    }

    /// An order by hand was placed.
    pub fn manual(request: &ManualOrderRequest) -> (r: Self)
        ensures
            r@ == OperationView::entry(
                "dashboard"@,
                "manual_order"@,
                true,
                request.side@ + " "@ + request.quantity@ + " "@ + (request.order_type@ + " @ "@ + (
                match request.price {
                    Some(p) => p@,
                    None => "market"@,
                })),
            ),
    {
        let price = match &request.price {
            Some(p) => p.as_str(),
            None => "market",
        };
        let head = join4(request.side.as_str(), " ", request.quantity.as_str(), " ");
        let tail = text::join3(request.order_type.as_str(), " @ ", price);
        let detail = join2(head.as_str(), tail.as_str());
        Operation::entry("dashboard", "manual_order", true, detail.as_str())
    }
}

/// As many rows are listed as were asked for, or as is usual where nothing was
/// asked for, but at least one and at most five hundred.
pub proof fn law_list_length_is_clamped(value: Option<u32>, default: u32, n: u32)
    requires
        value == Some(n) || value is None && n == default,
    ensures
        1 <= n <= 500 ==> clamped_limit(value, default) == n,
        n == 0 ==> clamped_limit(value, default) == 1,
        n > 500 ==> clamped_limit(value, default) == 500,
{
}

/// A word is read in whatever case it is written: it is taken exactly when it is
/// one of the words there are, and stands for what the word says.
pub proof fn law_words_are_read(value: Seq<char>)
    ensures
        ({
            let v = text::lower_text(value);
            &&& read_side(value) is Ok <==> v == "buy"@ || v == "sell"@
            &&& read_side(value) == Ok::<OrderSide, Seq<char>>(OrderSide::Buy) <==> v == "buy"@
            &&& read_side(value) == Ok::<OrderSide, Seq<char>>(OrderSide::Sell) <==> v == "sell"@
            &&& read_order_type(value) is Ok <==> v == "limit"@ || v == "market"@ || v
                == "post_only"@
            &&& read_order_type(value) == Ok::<OrderType, Seq<char>>(OrderType::Limit) <==> v
                == "limit"@
            &&& read_order_type(value) == Ok::<OrderType, Seq<char>>(OrderType::Market) <==> v
                == "market"@
            &&& read_order_type(value) == Ok::<OrderType, Seq<char>>(OrderType::PostOnly) <==> v
                == "post_only"@
            &&& read_tif(value) is Ok <==> v == "gtc"@ || v == "ioc"@ || v == "fok"@
            &&& read_tif(value) == Ok::<TimeInForce, Seq<char>>(TimeInForce::Gtc) <==> v == "gtc"@
            &&& read_tif(value) == Ok::<TimeInForce, Seq<char>>(TimeInForce::Ioc) <==> v == "ioc"@
            &&& read_tif(value) == Ok::<TimeInForce, Seq<char>>(TimeInForce::Fok) <==> v == "fok"@
            &&& read_action(value) is Ok <==> v == "pause"@ || v == "resume"@ || v == "stop"@ || v
                == "trigger"@
            &&& read_action(value) == Ok::<ControlAction, Seq<char>>(ControlAction::Pause) <==> v
                == "pause"@
            &&& read_action(value) == Ok::<ControlAction, Seq<char>>(ControlAction::Resume) <==> v
                == "resume"@
            &&& read_action(value) == Ok::<ControlAction, Seq<char>>(ControlAction::Stop) <==> v
                == "stop"@
            &&& read_action(value) == Ok::<ControlAction, Seq<char>>(ControlAction::Trigger) <==> v
                == "trigger"@
        }),
{
    reveal_strlit("buy");
    reveal_strlit("sell");
    reveal_strlit("limit");
    reveal_strlit("market");
    reveal_strlit("post_only");
    reveal_strlit("gtc");
    reveal_strlit("ioc");
    reveal_strlit("fok");
    reveal_strlit("pause");
    reveal_strlit("resume");
    reveal_strlit("stop");
    reveal_strlit("trigger");
    assert("buy"@.len() == 3 && "sell"@.len() == 4);
    assert("limit"@.len() == 5 && "market"@.len() == 6 && "post_only"@.len() == 9);
    assert("gtc"@[0] == 'g' && "ioc"@[0] == 'i' && "fok"@[0] == 'f');
    assert("pause"@.len() == 5 && "resume"@.len() == 6 && "stop"@.len() == 4);
    assert("trigger"@.len() == 7);
}

/// The case of a word does not matter.
pub proof fn law_case_of_words_does_not_matter(a: Seq<char>)
    ensures
        read_side(text::upper_text(a)) == read_side(a),
        read_order_type(text::upper_text(a)) == read_order_type(a),
        read_tif(text::upper_text(a)) == read_tif(a),
        read_action(text::upper_text(a)) == read_action(a),
{
    text::law_case_does_not_matter_once_lowered(a);
}

/// The name of an action is read as that action.
pub proof fn law_action_round_trip(a: ControlAction)
    ensures
        read_action(a.text()) == Ok::<ControlAction, Seq<char>>(a),
{
    reveal_strlit("pause");
    reveal_strlit("resume");
    reveal_strlit("stop");
    reveal_strlit("trigger");
    assert("pause"@.len() == 5 && "resume"@.len() == 6 && "stop"@.len() == 4);
    assert("trigger"@.len() == 7);
    assert(text::lower_text(a.text()) =~= a.text());
}

/// Parameters are read exactly when each of their parts can be read, and say
/// what the parts say.
pub proof fn law_parameters_are_read(
    quantity: Seq<char>,
    side: Seq<char>,
    order_type: Seq<char>,
    time_in_force: Seq<char>,
    limit_offset_bps: Seq<char>,
)
    ensures
        ({
            let r = read_parameters(quantity, side, order_type, time_in_force, limit_offset_bps);
            &&& r is Ok <==> decimal::parsed_decimal(quantity) is Some && read_side(side) is Ok
                && read_order_type(order_type) is Ok && read_tif(time_in_force) is Ok
                && decimal::parsed_decimal(limit_offset_bps) is Some
            &&& r matches Ok(p) ==> {
                &&& Some(p.quantity) == decimal::parsed_decimal(quantity)
                &&& Some(p.limit_offset_bps) == decimal::parsed_decimal(limit_offset_bps)
                &&& read_side(side) == Ok::<OrderSide, Seq<char>>(p.side)
                &&& read_order_type(order_type) == Ok::<OrderType, Seq<char>>(p.order_type)
                &&& read_tif(time_in_force) == Ok::<TimeInForce, Seq<char>>(p.time_in_force)
            }
        }),
{
}

/// An order by hand is read exactly when its parts can be read and it names a
/// price where it is no market order. It says what the parts say, good till
/// cancelled where no time in force is named, and a market order has no price
/// whatever was named.
pub proof fn law_manual_order_is_read(
    side: Seq<char>,
    order_type: Seq<char>,
    time_in_force: Option<Seq<char>>,
    quantity: Seq<char>,
    price: Option<Seq<char>>,
)
    ensures
        ({
            let r = read_manual(side, order_type, time_in_force, quantity, price);
            let market = read_order_type(order_type) == Ok::<OrderType, Seq<char>>(
                OrderType::Market,
            );
            &&& r is Ok <==> {
                &&& read_side(side) is Ok
                &&& read_order_type(order_type) is Ok
                &&& time_in_force matches Some(t) ==> read_tif(t) is Ok
                &&& decimal::parsed_decimal(quantity) is Some
                &&& market || (price matches Some(s) && decimal::parsed_decimal(s) is Some)
            }
            &&& r matches Ok(m) ==> {
                &&& read_side(side) == Ok::<OrderSide, Seq<char>>(m.side)
                &&& read_order_type(order_type) == Ok::<OrderType, Seq<char>>(m.order_type)
                &&& Some(m.quantity) == decimal::parsed_decimal(quantity)
                &&& market ==> m.price is None
                &&& !market ==> m.price is Some && price is Some && m.price
                    == decimal::parsed_decimal(price->0)
                &&& match time_in_force {
                    Some(t) => read_tif(t) == Ok::<TimeInForce, Seq<char>>(m.time_in_force),
                    None => m.time_in_force == TimeInForce::Gtc,
                }
            }
        }),
{
    reveal_strlit("gtc");
    assert(text::lower_text("gtc"@) =~= "gtc"@);
}

/// An order by hand is for the process's account, strategy and instrument, and
/// asks for what was asked by hand.
pub proof fn law_manual_order_is_of_the_account(
    s: RuntimeView,
    m: ManualView,
    id: Seq<char>,
    client_order_id: Seq<char>,
    now: TimestampMs,
)
    ensures
        ({
            let i = s.manual_intent(m, id, client_order_id, now);
            &&& i.account_id == s.account_id
            &&& i.strategy_instance_id == s.strategy_instance_id
            &&& i.instrument_id == s.instrument.id
            &&& i.side == m.side && i.order_type == m.order_type
            &&& i.time_in_force == m.time_in_force
            &&& i.quantity == m.quantity && i.price == m.price
            &&& i.id == id && i.client_order_id == client_order_id && i.created_at == now
            &&& i.leverage is None && i.reduce_only == ReduceOnly::No
            &&& s.in_scope(i)
        }),
{
}

/// The way of a request on which nothing fails. Parameters are read, given to
/// the strategy and recorded. A change of state is made and recorded. A trigger
/// asks for an order, executes and notes it, writes down the account and is
/// recorded. An order by hand is read, executed, noted and recorded, and then the
/// account is written down.
pub proof fn law_request_takes_its_way(a: ControlAction)
    ensures
        Request::Configure.first() == Task::Read,
        Request::Configure.following(Task::Read, true) == Next::Do(Task::Configure),
        Request::Configure.following(Task::Configure, true) == Next::Do(Task::RecordSuccess),
        Request::Configure.following(Task::RecordSuccess, true) == Next::Done,
        a != ControlAction::Trigger ==> Request::Control(a).first() == Task::SetStatus,
        Request::Control(a).following(Task::SetStatus, true) == Next::Do(Task::RecordSuccess),
        Request::Control(ControlAction::Trigger).first() == Task::Signal,
        Request::Control(a).following(Task::Signal, true) == Next::Do(Task::Execute),
        Request::Control(a).following(Task::Execute, true) == Next::Do(Task::NoteOrder),
        Request::Control(a).following(Task::NoteOrder, true) == Next::Do(Task::PersistEquity),
        Request::Control(a).following(Task::PersistEquity, true) == Next::Do(Task::RecordSuccess),
        Request::Control(a).following(Task::PersistEquity, false) == Next::Do(Task::RecordSuccess),
        Request::Control(a).following(Task::RecordSuccess, true) == Next::Done,
        Request::Manual.first() == Task::Read,
        Request::Manual.following(Task::Read, true) == Next::Do(Task::Execute),
        Request::Manual.following(Task::Execute, true) == Next::Do(Task::NoteOrder),
        Request::Manual.following(Task::NoteOrder, true) == Next::Do(Task::RecordSuccess),
        Request::Manual.following(Task::RecordSuccess, true) == Next::Do(Task::PersistEquity),
        Request::Manual.following(Task::PersistEquity, true) == Next::Done,
        Request::Manual.following(Task::PersistEquity, false) == Next::Done,
        a.status() is None <==> a == ControlAction::Trigger,
        a.status() == Some(StrategyRunStatus::Running) <==> a == ControlAction::Resume,
        a.status() == Some(StrategyRunStatus::Paused) <==> a == ControlAction::Pause,
        a.status() == Some(StrategyRunStatus::Stopped) <==> a == ControlAction::Stop,
{
}

/// Every failure has a status of its own, that of the request's fault below five
/// hundred and that of the service's fault from there on.
pub proof fn law_failure_codes(a: ApiFailure, b: ApiFailure)
    ensures
        a.code() == b.code() ==> a == b,
        400 <= a.code() < 600,
        a.code() >= 500 <==> a == ApiFailure::Internal || a == ApiFailure::Unavailable,
        Stage::Read.failure().code() == 400,
        Stage::Signal.failure().code() == 409,
        Stage::Execute.failure().code() == 422,
        Stage::Persist.failure().code() == 500,
        Stage::Market.failure().code() == 503,
{
}

/// An entry of the history says who did what, with what result.
pub proof fn law_entry_says_what_came(
    actor: Seq<char>,
    action: Seq<char>,
    ok: bool,
    detail: Seq<char>,
)
    ensures
        ({
            let e = OperationView::entry(actor, action, ok, detail);
            &&& e.actor == actor && e.action == action && e.detail == detail
            &&& ok ==> e.status == "succeeded"@
            &&& !ok ==> e.status == "failed"@
        }),
{
}

} // verus!

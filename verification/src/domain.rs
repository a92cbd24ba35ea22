//! Unified domain model.

use vstd::prelude::*;
use vstd::string::*;

use crate::decimal::{try_is_multiple_of, Decimal, DecimalView};
use crate::decimal;
use crate::ids::{
    AccountId, ClientOrderId, ConfigVersionId, Environment, FillId, IntentId, OrderId, Product,
    StrategyId, StrategyInstanceId, TimestampMs, Venue,
};
use crate::text::join4;
use crate::views;

verus! {

/// An instrument, by its symbol.
#[derive(Debug, Eq, Hash)]
pub struct InstrumentId(pub String);

impl View for InstrumentId {
    type V = Seq<char>;

    open spec fn view(&self) -> Seq<char> {
        self.0@
    }
}

impl InstrumentId {
    pub fn new(s: &str) -> (r: Self)
        ensures
            r@ == s@,
    {
        InstrumentId(s.to_owned())
    }

    pub fn as_str(&self) -> (r: &str)
        ensures
            r@ == self@,
    {
        self.0.as_str()
    }
}

impl Clone for InstrumentId {
    fn clone(&self) -> (r: Self)
        ensures
            r == *self,
    {
        InstrumentId(self.0.clone())
    }
}

impl PartialEq for InstrumentId {
    fn eq(&self, other: &Self) -> (r: bool) {
        self.0 == other.0
    }
}

impl vstd::std_specs::cmp::PartialEqSpecImpl for InstrumentId {
    open spec fn obeys_eq_spec() -> bool {
        true
    }

    open spec fn eq_spec(&self, other: &Self) -> bool {
        self@ == other@
    }
}

#[derive(Debug, PartialEq, Eq)]
pub struct Instrument {
    pub id: InstrumentId,
    pub venue: Venue,
    pub product: Product,
    pub base_asset: String,
    pub quote_asset: String,
    pub tick_size: Decimal,
    pub step_size: Decimal,
    pub min_qty: Decimal,
    pub min_notional: Option<Decimal>,
    /// Spot = 1. Contracts: contracts → underlying.
    pub contract_multiplier: Decimal,
    pub margin_asset: String,
    pub settle_asset: String,
    pub supports_funding: bool,
}

/// What a [`Instrument`] holds.
#[verifier::ext_equal]
pub struct InstrumentView {
    pub id: Seq<char>,
    pub venue: Venue,
    pub product: Product,
    pub base_asset: Seq<char>,
    pub quote_asset: Seq<char>,
    pub tick_size: DecimalView,
    pub step_size: DecimalView,
    pub min_qty: DecimalView,
    pub min_notional: Option<DecimalView>,
    pub contract_multiplier: DecimalView,
    pub margin_asset: Seq<char>,
    pub settle_asset: Seq<char>,
    pub supports_funding: bool,
}

impl View for Instrument {
    type V = InstrumentView;

    open spec fn view(&self) -> InstrumentView {
        InstrumentView {
            id: self.id@,
            venue: self.venue,
            product: self.product,
            base_asset: self.base_asset@,
            quote_asset: self.quote_asset@,
            tick_size: self.tick_size@,
            step_size: self.step_size@,
            min_qty: self.min_qty@,
            min_notional: views::opt_view(self.min_notional),
            contract_multiplier: self.contract_multiplier@,
            margin_asset: self.margin_asset@,
            settle_asset: self.settle_asset@,
            supports_funding: self.supports_funding,
        }
    }
}

impl Clone for Instrument {
    fn clone(&self) -> (r: Self)
        ensures
            r == *self,
    {
        Instrument {
            id: self.id.clone(),
            venue: self.venue,
            product: self.product,
            base_asset: self.base_asset.clone(),
            quote_asset: self.quote_asset.clone(),
            tick_size: self.tick_size,
            step_size: self.step_size,
            min_qty: self.min_qty,
            min_notional: self.min_notional,
            contract_multiplier: self.contract_multiplier,
            margin_asset: self.margin_asset.clone(),
            settle_asset: self.settle_asset.clone(),
            supports_funding: self.supports_funding,
        }
    }
}

impl InstrumentView {
    /// Whether `price` is positive and on the tick grid.
    pub open spec fn price_valid(self, price: DecimalView) -> bool {
        price.positive() && decimal::multiple_of(price, self.tick_size)
    }

    /// Whether the price can be put on the tick grid without leaving the range
    /// of numbers.
    pub open spec fn price_in_range(self, price: DecimalView) -> bool {
        price.positive() && self.tick_size.positive() ==> decimal::step_multiple(
            price,
            self.tick_size,
        ) is Some
    }

    /// Whether `qty` is not below the minimum and on the step grid.
    pub open spec fn qty_valid(self, qty: DecimalView) -> bool {
        self.min_qty.le(qty) && decimal::multiple_of(qty, self.step_size)
    }

    /// Whether the quantity can be put on the step grid without leaving the
    /// range of numbers.
    pub open spec fn qty_in_range(self, qty: DecimalView) -> bool {
        self.min_qty.le(qty) && self.step_size.positive() ==> decimal::step_multiple(
            qty,
            self.step_size,
        ) is Some
    }

    /// Whether `notional` is not below the minimum, if there is one.
    pub open spec fn notional_valid(self, notional: DecimalView) -> bool {
        self.min_notional matches Some(m) ==> m.le(notional)
    }
}

impl Instrument {
    /// A spot instrument: quoted, margined and settled in `quote`, with the
    /// step as its minimum quantity.
    pub fn spot(
        id: &str,
        venue: Venue,
        base: &str,
        quote: &str,
        tick_size: Decimal,
        step_size: Decimal,
    ) -> (r: Self)
        ensures
            r@ == (InstrumentView {
                id: id@,
                venue,
                product: Product::Spot,
                base_asset: base@,
                quote_asset: quote@,
                tick_size: tick_size@,
                step_size: step_size@,
                min_qty: step_size@,
                min_notional: None,
                contract_multiplier: DecimalView::of(1, 0),
                margin_asset: quote@,
                settle_asset: quote@,
                supports_funding: false,
            }),
    {
        Instrument {
            id: InstrumentId::new(id),
            venue,
            product: Product::Spot,
            base_asset: base.to_owned(),
            quote_asset: quote.to_owned(),
            tick_size,
            step_size,
            min_qty: step_size,
            min_notional: None,
            contract_multiplier: Decimal::one(),
            margin_asset: quote.to_owned(),
            settle_asset: quote.to_owned(),
            supports_funding: false,
        }
    }

    pub fn try_validate_price(&self, price: Decimal) -> (r: Option<bool>)
        ensures
            r is Some <==> self@.price_in_range(price@),
            r matches Some(b) ==> b == self@.price_valid(price@),
            price@.positive() && self@.tick_size.positive() && decimal::steps_fit(
                price@,
                self@.tick_size,
            ) ==> r == Some(price@.units() % self@.tick_size.units() == 0),
    {
        proof {
            decimal::lemma_sign_of_units(price@);
        }
        if price > Decimal::zero() {
            try_is_multiple_of(price, self.tick_size)
        } else {
            Some(false)
        }
    }

    pub fn validate_price(&self, price: Decimal) -> (r: bool)
        requires
            self@.price_in_range(price@),
        ensures
            r == self@.price_valid(price@),
            price@.positive() && self@.tick_size.positive() && decimal::steps_fit(
                price@,
                self@.tick_size,
            ) ==> r == (price@.units() % self@.tick_size.units() == 0),
    {
        self.try_validate_price(price).unwrap()
    }

    pub fn try_validate_qty(&self, qty: Decimal) -> (r: Option<bool>)
        ensures
            r is Some <==> self@.qty_in_range(qty@),
            r matches Some(b) ==> b == self@.qty_valid(qty@),
            self@.min_qty.le(qty@) && self@.step_size.positive() && decimal::steps_fit(
                qty@,
                self@.step_size,
            ) ==> r == Some(qty@.units() % self@.step_size.units() == 0),
    {
        if qty >= self.min_qty {
            try_is_multiple_of(qty, self.step_size)
        } else {
            Some(false)
        }
    }

    pub fn validate_qty(&self, qty: Decimal) -> (r: bool)
        requires
            self@.qty_in_range(qty@),
        ensures
            r == self@.qty_valid(qty@),
            self@.min_qty.le(qty@) && self@.step_size.positive() && decimal::steps_fit(
                qty@,
                self@.step_size,
            ) ==> r == (qty@.units() % self@.step_size.units() == 0),
    {
        self.try_validate_qty(qty).unwrap()
    }

    pub fn validate_notional(&self, notional: Decimal) -> (r: bool)
        ensures
            r == self@.notional_valid(notional@),
    {
        match self.min_notional {
            Some(m) => notional >= m,
            None => true,
        }
    }
}

#[derive(Debug, Clone, Copy, PartialEq, Eq, Hash, Structural)]
pub enum AccountKind {
    Paper,
    Demo,
    Live,
}

#[derive(Debug, PartialEq, Eq)]
pub struct Account {
    pub id: AccountId,
    pub venue: Venue,
    pub kind: AccountKind,
    pub label: String,
    pub trading_enabled: bool,
}

impl Clone for Account {
    fn clone(&self) -> (r: Self)
        ensures
            r == *self,
    {
        Account {
            id: self.id.clone(),
            venue: self.venue,
            kind: self.kind,
            label: self.label.clone(),
            trading_enabled: self.trading_enabled,
        }
    }
}

#[derive(Debug, PartialEq, Eq)]
pub struct Balance {
    pub account_id: AccountId,
    pub asset: String,
    pub free: Decimal,
    pub locked: Decimal,
    pub updated_at: TimestampMs,
}

/// What a [`Balance`] holds.
#[verifier::ext_equal]
pub struct BalanceView {
    pub account_id: Seq<char>,
    pub asset: Seq<char>,
    pub free: DecimalView,
    pub locked: DecimalView,
    pub updated_at: TimestampMs,
}

impl View for Balance {
    type V = BalanceView;

    open spec fn view(&self) -> BalanceView {
        BalanceView {
            account_id: self.account_id@,
            asset: self.asset@,
            free: self.free@,
            locked: self.locked@,
            updated_at: self.updated_at,
        }
    }
}

impl Clone for Balance {
    fn clone(&self) -> (r: Self)
        ensures
            r == *self,
    {
        Balance {
            account_id: self.account_id.clone(),
            asset: self.asset.clone(),
            free: self.free,
            locked: self.locked,
            updated_at: self.updated_at,
        }
    }
}

impl Balance {
    pub fn try_total(&self) -> (r: Option<Decimal>)
        ensures
            views::opt_view(r) == self@.free.plus(self@.locked),
    {
        self.free.checked_add(self.locked)
    }

    /// What the account holds of the asset, free and locked.
    pub fn total(&self) -> (r: Decimal)
        requires
            self@.free.plus(self@.locked) is Some,
        ensures
            Some(r@) == self@.free.plus(self@.locked),
    {
        self.try_total().unwrap()
    }
}

#[derive(Debug, Clone, Copy, PartialEq, Eq, Hash, Structural)]
pub enum PositionMode {
    OneWay,
    Hedge,
}

#[derive(Debug, Clone, Copy, PartialEq, Eq, Hash, Structural)]
pub enum MarginMode {
    Cross,
    Isolated,
}

#[derive(Debug, PartialEq, Eq)]
pub struct Position {
    pub account_id: AccountId,
    pub instrument_id: InstrumentId,
    pub position_mode: PositionMode,
    pub margin_mode: MarginMode,
    pub position_side: PositionSide,
    pub size: Decimal,
    pub entry_price: Decimal,
    pub mark_price: Decimal,
    pub liquidation_price: Option<Decimal>,
    pub leverage: Decimal,
    pub unrealized_pnl: Decimal,
    pub margin: Decimal,
    pub updated_at: TimestampMs,
}

/// What a [`Position`] holds.
#[verifier::ext_equal]
pub struct PositionView {
    pub account_id: Seq<char>,
    pub instrument_id: Seq<char>,
    pub position_mode: PositionMode,
    pub margin_mode: MarginMode,
    pub position_side: PositionSide,
    pub size: DecimalView,
    pub entry_price: DecimalView,
    pub mark_price: DecimalView,
    pub liquidation_price: Option<DecimalView>,
    pub leverage: DecimalView,
    pub unrealized_pnl: DecimalView,
    pub margin: DecimalView,
    pub updated_at: TimestampMs,
}

impl View for Position {
    type V = PositionView;

    open spec fn view(&self) -> PositionView {
        PositionView {
            account_id: self.account_id@,
            instrument_id: self.instrument_id@,
            position_mode: self.position_mode,
            margin_mode: self.margin_mode,
            position_side: self.position_side,
            size: self.size@,
            entry_price: self.entry_price@,
            mark_price: self.mark_price@,
            liquidation_price: views::opt_view(self.liquidation_price),
            leverage: self.leverage@,
            unrealized_pnl: self.unrealized_pnl@,
            margin: self.margin@,
            updated_at: self.updated_at,
        }
    }
}

impl Clone for Position {
    fn clone(&self) -> (r: Self)
        ensures
            r == *self,
    {
        Position {
            account_id: self.account_id.clone(),
            instrument_id: self.instrument_id.clone(),
            position_mode: self.position_mode,
            margin_mode: self.margin_mode,
            position_side: self.position_side,
            size: self.size,
            entry_price: self.entry_price,
            mark_price: self.mark_price,
            liquidation_price: self.liquidation_price,
            leverage: self.leverage,
            unrealized_pnl: self.unrealized_pnl,
            margin: self.margin,
            updated_at: self.updated_at,
        }
    }
}

/// Unified risk view across spot and derivatives.
#[derive(Debug, PartialEq, Eq)]
pub struct Exposure {
    pub account_id: AccountId,
    pub instrument_id: InstrumentId,
    pub net_notional: Decimal,
    pub gross_notional: Decimal,
    pub updated_at: TimestampMs,
}

/// What a [`Exposure`] holds.
#[verifier::ext_equal]
pub struct ExposureView {
    pub account_id: Seq<char>,
    pub instrument_id: Seq<char>,
    pub net_notional: DecimalView,
    pub gross_notional: DecimalView,
    pub updated_at: TimestampMs,
}

impl View for Exposure {
    type V = ExposureView;

    open spec fn view(&self) -> ExposureView {
        ExposureView {
            account_id: self.account_id@,
            instrument_id: self.instrument_id@,
            net_notional: self.net_notional@,
            gross_notional: self.gross_notional@,
            updated_at: self.updated_at,
        }
    }
}

impl Clone for Exposure {
    fn clone(&self) -> (r: Self)
        ensures
            r == *self,
    {
        Exposure {
            account_id: self.account_id.clone(),
            instrument_id: self.instrument_id.clone(),
            net_notional: self.net_notional,
            gross_notional: self.gross_notional,
            updated_at: self.updated_at,
        }
    }
}

#[derive(Debug, Clone, Copy, PartialEq, Eq, Hash, Structural)]
pub enum OrderSide {
    Buy,
    Sell,
}

#[derive(Debug, Clone, Copy, PartialEq, Eq, Hash, Structural)]
pub enum TimeInForce {
    Gtc,
    Ioc,
    Fok,
    Gtd,
}

#[derive(Debug, Clone, Copy, PartialEq, Eq, Hash, Structural)]
pub enum OrderType {
    Limit,
    Market,
    PostOnly,
    Stop,
}

#[derive(Debug, Clone, Copy, PartialEq, Eq, Hash, Structural)]
pub enum PositionSide {
    Both,
    Long,
    Short,
}

#[derive(Debug, Clone, Copy, PartialEq, Eq, Hash, Structural)]
pub enum ReduceOnly {
    No,
    Yes,
}

/// ```text
/// Created → RiskApproved → Submitted → Acknowledged
///               ├→ PartiallyFilled → Filled
///               ├→ CancelPending → Cancelled
///               ├→ Rejected
///               └→ Unknown → Reconcile
/// ```
#[derive(Debug, Clone, Copy, PartialEq, Eq, Hash, Structural)]
pub enum OrderStatus {
    Created,
    RiskApproved,
    Submitted,
    Acknowledged,
    PartiallyFilled,
    Filled,
    CancelPending,
    Cancelled,
    Rejected,
    Unknown,
    Reconciled,
}

impl OrderStatus {
    pub open spec fn text(self) -> Seq<char> {
        match self {
            OrderStatus::Created => "created"@,
            OrderStatus::RiskApproved => "risk_approved"@,
            OrderStatus::Submitted => "submitted"@,
            OrderStatus::Acknowledged => "acknowledged"@,
            OrderStatus::PartiallyFilled => "partially_filled"@,
            OrderStatus::Filled => "filled"@,
            OrderStatus::CancelPending => "cancel_pending"@,
            OrderStatus::Cancelled => "cancelled"@,
            OrderStatus::Rejected => "rejected"@,
            OrderStatus::Unknown => "unknown"@,
            OrderStatus::Reconciled => "reconciled"@,
        }
    }

    pub fn as_str(&self) -> (r: &'static str)
        ensures
            r@ == self.text(),
    {
        match self {
            OrderStatus::Created => "created",
            OrderStatus::RiskApproved => "risk_approved",
            OrderStatus::Submitted => "submitted",
            OrderStatus::Acknowledged => "acknowledged",
            OrderStatus::PartiallyFilled => "partially_filled",
            OrderStatus::Filled => "filled",
            OrderStatus::CancelPending => "cancel_pending",
            OrderStatus::Cancelled => "cancelled",
            OrderStatus::Rejected => "rejected",
            OrderStatus::Unknown => "unknown",
            OrderStatus::Reconciled => "reconciled",
        }
    }
}

impl OrderStatus {
    /// Whether the order can change no more.
    pub open spec fn terminal(self) -> bool {
        ||| self == OrderStatus::Filled
        ||| self == OrderStatus::Cancelled
        ||| self == OrderStatus::Rejected
        ||| self == OrderStatus::Reconciled
    }

    /// Whether the order is at work.
    pub open spec fn active(self) -> bool {
        ||| self == OrderStatus::Submitted
        ||| self == OrderStatus::Acknowledged
        ||| self == OrderStatus::PartiallyFilled
        ||| self == OrderStatus::CancelPending
    }

    /// The states that may follow.
    pub open spec fn successors(self) -> Set<OrderStatus> {
        match self {
            OrderStatus::Created => set![OrderStatus::RiskApproved, OrderStatus::Rejected],
            OrderStatus::RiskApproved => set![OrderStatus::Submitted, OrderStatus::Rejected],
            OrderStatus::Submitted => set![OrderStatus::Acknowledged, OrderStatus::PartiallyFilled, OrderStatus::Filled, OrderStatus::CancelPending, OrderStatus::Cancelled, OrderStatus::Rejected, OrderStatus::Unknown],
            OrderStatus::Acknowledged => set![OrderStatus::PartiallyFilled, OrderStatus::Filled, OrderStatus::CancelPending, OrderStatus::Cancelled, OrderStatus::Rejected, OrderStatus::Unknown],
            OrderStatus::PartiallyFilled => set![OrderStatus::PartiallyFilled, OrderStatus::Filled, OrderStatus::CancelPending, OrderStatus::Cancelled, OrderStatus::Unknown],
            OrderStatus::CancelPending => set![OrderStatus::Cancelled, OrderStatus::PartiallyFilled, OrderStatus::Filled, OrderStatus::Unknown],
            OrderStatus::Unknown => set![OrderStatus::Reconciled, OrderStatus::Submitted, OrderStatus::Acknowledged, OrderStatus::PartiallyFilled, OrderStatus::Filled, OrderStatus::Cancelled, OrderStatus::Rejected],
            _ => Set::empty(),
        }
    }

    pub fn is_terminal(&self) -> (r: bool)
        ensures
            r == self.terminal(),
    {
        matches!(
            self,
            OrderStatus::Filled
                | OrderStatus::Cancelled
                | OrderStatus::Rejected
                | OrderStatus::Reconciled
        )
    }

    pub fn is_active(&self) -> (r: bool)
        ensures
            r == self.active(),
    {
        matches!(
            self,
            OrderStatus::Submitted
                | OrderStatus::Acknowledged
                | OrderStatus::PartiallyFilled
                | OrderStatus::CancelPending
        )
    }

    pub fn can_transition_to(self, to: OrderStatus) -> (r: bool)
        ensures
            r == self.successors().contains(to),
    {
        match self {
            OrderStatus::Created => matches!(
                to,
                OrderStatus::RiskApproved
                    | OrderStatus::Rejected
            ),
            OrderStatus::RiskApproved => matches!(
                to,
                OrderStatus::Submitted
                    | OrderStatus::Rejected
            ),
            OrderStatus::Submitted => matches!(
                to,
                OrderStatus::Acknowledged
                    | OrderStatus::PartiallyFilled
                    | OrderStatus::Filled
                    | OrderStatus::CancelPending
                    | OrderStatus::Cancelled
                    | OrderStatus::Rejected
                    | OrderStatus::Unknown
            ),
            OrderStatus::Acknowledged => matches!(
                to,
                OrderStatus::PartiallyFilled
                    | OrderStatus::Filled
                    | OrderStatus::CancelPending
                    | OrderStatus::Cancelled
                    | OrderStatus::Rejected
                    | OrderStatus::Unknown
            ),
            OrderStatus::PartiallyFilled => matches!(
                to,
                OrderStatus::PartiallyFilled
                    | OrderStatus::Filled
                    | OrderStatus::CancelPending
                    | OrderStatus::Cancelled
                    | OrderStatus::Unknown
            ),
            OrderStatus::CancelPending => matches!(
                to,
                OrderStatus::Cancelled
                    | OrderStatus::PartiallyFilled
                    | OrderStatus::Filled
                    | OrderStatus::Unknown
            ),
            OrderStatus::Unknown => matches!(
                to,
                OrderStatus::Reconciled
                    | OrderStatus::Submitted
                    | OrderStatus::Acknowledged
                    | OrderStatus::PartiallyFilled
                    | OrderStatus::Filled
                    | OrderStatus::Cancelled
                    | OrderStatus::Rejected
            ),
            _ => false,
        }
    }
}

/// A finished order stays as it is, and is not at work.
pub proof fn law_terminal_is_final(from: OrderStatus, to: OrderStatus)
    requires
        from.terminal(),
    ensures
        !from.successors().contains(to),
        !from.active(),
{
}

/// No order becomes fresh again, only a fresh one is approved, only an unknown
/// one is reconciled, and only a partial fill may be followed by its like.
pub proof fn law_no_way_back(from: OrderStatus, to: OrderStatus)
    requires
        from.successors().contains(to),
    ensures
        to != OrderStatus::Created,
        to == OrderStatus::RiskApproved ==> from == OrderStatus::Created,
        to == OrderStatus::Reconciled ==> from == OrderStatus::Unknown,
        from != to || from == OrderStatus::PartiallyFilled,
{
}

/// What each state may follow: an order is approved once it was created, goes
/// out once it was approved, is at work until it is filled, cancelled, rejected
/// or lost sight of, and is found again from an unknown state only.
pub proof fn law_what_may_precede(from: OrderStatus, to: OrderStatus)
    ensures
        from.successors().contains(to) <==> match to {
            OrderStatus::Created => false,
            OrderStatus::RiskApproved => from == OrderStatus::Created,
            OrderStatus::Submitted => from == OrderStatus::RiskApproved || from
                == OrderStatus::Unknown,
            OrderStatus::Acknowledged => from == OrderStatus::Submitted || from
                == OrderStatus::Unknown,
            OrderStatus::PartiallyFilled | OrderStatus::Filled | OrderStatus::Cancelled => {
                ||| from == OrderStatus::Submitted
                ||| from == OrderStatus::Acknowledged
                ||| from == OrderStatus::PartiallyFilled
                ||| from == OrderStatus::CancelPending
                ||| from == OrderStatus::Unknown
            },
            OrderStatus::CancelPending => {
                ||| from == OrderStatus::Submitted
                ||| from == OrderStatus::Acknowledged
                ||| from == OrderStatus::PartiallyFilled
            },
            OrderStatus::Rejected => {
                ||| from == OrderStatus::Created
                ||| from == OrderStatus::RiskApproved
                ||| from == OrderStatus::Submitted
                ||| from == OrderStatus::Acknowledged
                ||| from == OrderStatus::Unknown
            },
            OrderStatus::Unknown => {
                ||| from == OrderStatus::Submitted
                ||| from == OrderStatus::Acknowledged
                ||| from == OrderStatus::PartiallyFilled
                ||| from == OrderStatus::CancelPending
            },
            OrderStatus::Reconciled => from == OrderStatus::Unknown,
        },
{
}

/// An order is finished exactly when nothing may follow, and at work exactly
/// when its cancellation may be asked for or has been.
pub proof fn law_state_groups(s: OrderStatus)
    ensures
        s.terminal() <==> (forall|to: OrderStatus| !s.successors().contains(to)),
        s.active() <==> s == OrderStatus::CancelPending || s.successors().contains(
            OrderStatus::CancelPending,
        ),
{
    if !s.terminal() {
        let next = match s {
            OrderStatus::Created => OrderStatus::RiskApproved,
            OrderStatus::RiskApproved => OrderStatus::Submitted,
            _ => OrderStatus::Filled,
        };
        assert(s.successors().contains(next));
    }
}

/// What a strategy emits. Strategies never place orders directly.
#[derive(Debug, PartialEq, Eq)]
pub struct OrderIntent {
    pub id: IntentId,
    pub strategy_instance_id: StrategyInstanceId,
    pub account_id: AccountId,
    pub instrument_id: InstrumentId,
    pub side: OrderSide,
    pub order_type: OrderType,
    pub time_in_force: TimeInForce,
    /// Limit price. For market orders this may be None — notional must use a reference price.
    pub price: Option<Decimal>,
    pub quantity: Decimal,
    pub reduce_only: ReduceOnly,
    pub position_side: PositionSide,
    pub leverage: Option<Decimal>,
    pub client_order_id: ClientOrderId,
    pub reason: Option<String>,
    pub created_at: TimestampMs,
}

/// What a [`OrderIntent`] holds.
#[verifier::ext_equal]
pub struct IntentView {
    pub id: Seq<char>,
    pub strategy_instance_id: Seq<char>,
    pub account_id: Seq<char>,
    pub instrument_id: Seq<char>,
    pub side: OrderSide,
    pub order_type: OrderType,
    pub time_in_force: TimeInForce,
    pub price: Option<DecimalView>,
    pub quantity: DecimalView,
    pub reduce_only: ReduceOnly,
    pub position_side: PositionSide,
    pub leverage: Option<DecimalView>,
    pub client_order_id: Seq<char>,
    pub reason: Option<Seq<char>>,
    pub created_at: TimestampMs,
}

impl View for OrderIntent {
    type V = IntentView;

    open spec fn view(&self) -> IntentView {
        IntentView {
            id: self.id@,
            strategy_instance_id: self.strategy_instance_id@,
            account_id: self.account_id@,
            instrument_id: self.instrument_id@,
            side: self.side,
            order_type: self.order_type,
            time_in_force: self.time_in_force,
            price: views::opt_view(self.price),
            quantity: self.quantity@,
            reduce_only: self.reduce_only,
            position_side: self.position_side,
            leverage: views::opt_view(self.leverage),
            client_order_id: self.client_order_id@,
            reason: views::opt_view(self.reason),
            created_at: self.created_at,
        }
    }
}

impl Clone for OrderIntent {
    fn clone(&self) -> (r: Self)
        ensures
            r == *self,
    {
        OrderIntent {
            id: self.id.clone(),
            strategy_instance_id: self.strategy_instance_id.clone(),
            account_id: self.account_id.clone(),
            instrument_id: self.instrument_id.clone(),
            side: self.side,
            order_type: self.order_type,
            time_in_force: self.time_in_force,
            price: self.price,
            quantity: self.quantity,
            reduce_only: self.reduce_only,
            position_side: self.position_side,
            leverage: self.leverage,
            client_order_id: self.client_order_id.clone(),
            reason: match &self.reason { Some(x) => Some(x.clone()), None => None },
            created_at: self.created_at,
        }
    }
}

/// The first price, or the second when there is no first.
pub open spec fn either_price(
    first: Option<DecimalView>,
    second: Option<DecimalView>,
) -> Option<DecimalView> {
    if first is Some {
        first
    } else {
        second
    }
}

/// Price times quantity, if there is a price; the outer option says whether
/// the product is in range.
pub open spec fn notional_of(
    price: Option<DecimalView>,
    quantity: DecimalView,
) -> Option<Option<DecimalView>> {
    match price {
        None => Some(None),
        Some(p) => match p.times(quantity) {
            None => None,
            Some(n) => Some(Some(n)),
        },
    }
}

/// What an order is worth, if there is a price for it: a market order goes by
/// the market, any other by its own price, or by the market where it has none.
/// The outer option says whether it is in range.
pub open spec fn worth_at(
    order_type: OrderType,
    price: Option<DecimalView>,
    quantity: DecimalView,
    market_ref: Option<DecimalView>,
) -> Option<Option<DecimalView>> {
    if order_type == OrderType::Market || price is None {
        notional_of(market_ref, quantity)
    } else {
        notional_of(price, quantity)
    }
}

/// What an order is worth, if there is a price for it; `None` when that is out
/// of range.
pub(crate) fn try_worth_at(
    order_type: OrderType,
    price: Option<Decimal>,
    quantity: Decimal,
    market_ref: Option<Decimal>,
) -> (r: Option<Option<Decimal>>)
    ensures
        match r {
            None => worth_at(
                order_type,
                views::opt_view(price),
                quantity@,
                views::opt_view(market_ref),
            ) is None,
            Some(n) => worth_at(
                order_type,
                views::opt_view(price),
                quantity@,
                views::opt_view(market_ref),
            ) == Some(views::opt_view(n)),
        },
{
    if order_type == OrderType::Market || price.is_none() {
        price_times(market_ref, quantity)
    } else {
        price_times(price, quantity)
    }
}

fn price_times(price: Option<Decimal>, quantity: Decimal) -> (r: Option<Option<Decimal>>)
    ensures
        match r {
            None => notional_of(views::opt_view(price), quantity@) is None,
            Some(n) => notional_of(views::opt_view(price), quantity@) == Some(views::opt_view(n)),
        },
{
    match price {
        None => Some(None),
        Some(p) => match p.checked_mul(quantity) {
            None => None,
            Some(n) => Some(Some(n)),
        },
    }
}

impl IntentView {
    pub open spec fn reference(self, market_ref: Option<DecimalView>) -> Option<DecimalView> {
        either_price(self.price, market_ref)
    }

    pub open spec fn notional(
        self,
        market_ref: Option<DecimalView>,
    ) -> Option<Option<DecimalView>> {
        notional_of(self.reference(market_ref), self.quantity)
    }
}

impl OrderIntent {
    /// Reference price for notional: limit price, else market reference.
    /// Market orders without a reference price cannot be risk-checked and must be rejected.
    pub fn reference_price(&self, market_ref: Option<Decimal>) -> (r: Option<Decimal>)
        ensures
            views::opt_view(r) == self@.reference(views::opt_view(market_ref)),
    {
        match self.price {
            Some(p) => Some(p),
            None => market_ref,
        }
    }

    pub fn try_notional(&self, market_ref: Option<Decimal>) -> (r: Option<Option<Decimal>>)
        ensures
            match r {
                None => self@.notional(views::opt_view(market_ref)) is None,
                Some(n) => self@.notional(views::opt_view(market_ref)) == Some(views::opt_view(n)),
            },
    {
        price_times(self.reference_price(market_ref), self.quantity)
    }

    pub fn notional(&self, market_ref: Option<Decimal>) -> (r: Option<Decimal>)
        requires
            self@.notional(views::opt_view(market_ref)) is Some,
        ensures
            self@.notional(views::opt_view(market_ref)) == Some(views::opt_view(r)),
    {
        self.try_notional(market_ref).unwrap()
    }
}

#[derive(Debug, PartialEq, Eq)]
pub struct Order {
    pub id: OrderId,
    pub intent_id: Option<IntentId>,
    pub client_order_id: ClientOrderId,
    pub venue_order_id: Option<String>,
    pub account_id: AccountId,
    pub strategy_instance_id: Option<StrategyInstanceId>,
    pub instrument_id: InstrumentId,
    pub side: OrderSide,
    pub order_type: OrderType,
    pub time_in_force: TimeInForce,
    pub status: OrderStatus,
    pub price: Option<Decimal>,
    pub quantity: Decimal,
    pub filled_quantity: Decimal,
    pub avg_fill_price: Option<Decimal>,
    pub reduce_only: ReduceOnly,
    pub position_side: PositionSide,
    pub reject_reason: Option<String>,
    pub created_at: TimestampMs,
    pub updated_at: TimestampMs,
}

/// What a [`Order`] holds.
#[verifier::ext_equal]
pub struct OrderView {
    pub id: Seq<char>,
    pub intent_id: Option<Seq<char>>,
    pub client_order_id: Seq<char>,
    pub venue_order_id: Option<Seq<char>>,
    pub account_id: Seq<char>,
    pub strategy_instance_id: Option<Seq<char>>,
    pub instrument_id: Seq<char>,
    pub side: OrderSide,
    pub order_type: OrderType,
    pub time_in_force: TimeInForce,
    pub status: OrderStatus,
    pub price: Option<DecimalView>,
    pub quantity: DecimalView,
    pub filled_quantity: DecimalView,
    pub avg_fill_price: Option<DecimalView>,
    pub reduce_only: ReduceOnly,
    pub position_side: PositionSide,
    pub reject_reason: Option<Seq<char>>,
    pub created_at: TimestampMs,
    pub updated_at: TimestampMs,
}

impl View for Order {
    type V = OrderView;

    open spec fn view(&self) -> OrderView {
        OrderView {
            id: self.id@,
            intent_id: views::opt_view(self.intent_id),
            client_order_id: self.client_order_id@,
            venue_order_id: views::opt_view(self.venue_order_id),
            account_id: self.account_id@,
            strategy_instance_id: views::opt_view(self.strategy_instance_id),
            instrument_id: self.instrument_id@,
            side: self.side,
            order_type: self.order_type,
            time_in_force: self.time_in_force,
            status: self.status,
            price: views::opt_view(self.price),
            quantity: self.quantity@,
            filled_quantity: self.filled_quantity@,
            avg_fill_price: views::opt_view(self.avg_fill_price),
            reduce_only: self.reduce_only,
            position_side: self.position_side,
            reject_reason: views::opt_view(self.reject_reason),
            created_at: self.created_at,
            updated_at: self.updated_at,
        }
    }
}

impl Clone for Order {
    fn clone(&self) -> (r: Self)
        ensures
            r == *self,
    {
        Order {
            id: self.id.clone(),
            intent_id: match &self.intent_id { Some(x) => Some(x.clone()), None => None },
            client_order_id: self.client_order_id.clone(),
            venue_order_id: match &self.venue_order_id { Some(x) => Some(x.clone()), None => None },
            account_id: self.account_id.clone(),
            strategy_instance_id: match &self.strategy_instance_id { Some(x) => Some(x.clone()), None => None },
            instrument_id: self.instrument_id.clone(),
            side: self.side,
            order_type: self.order_type,
            time_in_force: self.time_in_force,
            status: self.status,
            price: self.price,
            quantity: self.quantity,
            filled_quantity: self.filled_quantity,
            avg_fill_price: self.avg_fill_price,
            reduce_only: self.reduce_only,
            position_side: self.position_side,
            reject_reason: match &self.reject_reason { Some(x) => Some(x.clone()), None => None },
            created_at: self.created_at,
            updated_at: self.updated_at,
        }
    }
}

impl OrderView {
    /// What is left to fill; nothing when that is out of range.
    pub open spec fn remaining(self) -> Option<DecimalView> {
        self.quantity.minus(self.filled_quantity)
    }

    pub open spec fn notional(
        self,
        market_ref: Option<DecimalView>,
    ) -> Option<Option<DecimalView>> {
        notional_of(either_price(self.price, market_ref), self.quantity)
    }

    /// Whether the order may go to `to`, or is there already.
    pub open spec fn may_become(self, to: OrderStatus) -> bool {
        self.status == to || self.status.successors().contains(to)
    }

    /// What the order is worth, if there is a price for it.
    pub open spec fn worth(self, market_ref: Option<DecimalView>) -> Option<Option<DecimalView>> {
        worth_at(self.order_type, self.price, self.quantity, market_ref)
    }

    /// Whether two orders ask for the same on behalf of the same strategy and
    /// account, under the same ids.
    pub open spec fn same_terms(self, other: OrderView) -> bool {
        &&& self.id == other.id
        &&& self.client_order_id == other.client_order_id
        &&& self.account_id == other.account_id
        &&& self.strategy_instance_id == other.strategy_instance_id
        &&& self.instrument_id == other.instrument_id
        &&& self.side == other.side
        &&& self.order_type == other.order_type
        &&& self.price == other.price
        &&& self.quantity == other.quantity
    }

    /// The order in state `to` since `now`.
    pub open spec fn with_status(self, to: OrderStatus, now: TimestampMs) -> OrderView {
        OrderView { status: to, updated_at: now, ..self }
    }
}

/// Why a step from one state to another is refused.
pub open spec fn illegal_transition(from: OrderStatus, to: OrderStatus) -> Seq<char> {
    "illegal transition "@ + from.text() + " -> "@ + to.text()
}

impl Order {
    pub fn try_remaining(&self) -> (r: Option<Decimal>)
        ensures
            views::opt_view(r) == self@.remaining(),
    {
        self.quantity.checked_sub(self.filled_quantity)
    }

    pub fn remaining(&self) -> (r: Decimal)
        requires
            self@.remaining() is Some,
        ensures
            Some(r@) == self@.remaining(),
    {
        self.try_remaining().unwrap()
    }

    pub fn apply_status(
        &mut self,
        to: OrderStatus,
        now: TimestampMs,
    ) -> (r: core::result::Result<(), String>)
        ensures
            r is Ok <==> old(self)@.may_become(to),
            r is Ok ==> final(self)@ == old(self)@.with_status(to, now),
            r matches Err(e) ==> *final(self) == *old(self) && e@ == illegal_transition(
                old(self)@.status,
                to,
            ),
    {
        if self.status == to {
            self.updated_at = now;
            return Ok(());
        }
        if !self.status.can_transition_to(to) {
            return Err(
                join4("illegal transition ", self.status.as_str(), " -> ", to.as_str()),
            );
        }
        self.status = to;
        self.updated_at = now;
        Ok(())
    }

    pub fn try_notional(&self, market_ref: Option<Decimal>) -> (r: Option<Option<Decimal>>)
        ensures
            match r {
                None => self@.notional(views::opt_view(market_ref)) is None,
                Some(n) => self@.notional(views::opt_view(market_ref)) == Some(views::opt_view(n)),
            },
    {
        let price = match self.price {
            Some(p) => Some(p),
            None => market_ref,
        };
        price_times(price, self.quantity)
    }

    /// Notional at limit price or provided reference (for market orders).
    pub fn notional(&self, market_ref: Option<Decimal>) -> (r: Option<Decimal>)
        requires
            self@.notional(views::opt_view(market_ref)) is Some,
        ensures
            self@.notional(views::opt_view(market_ref)) == Some(views::opt_view(r)),
    {
        self.try_notional(market_ref).unwrap()
    }
}

#[derive(Debug, Clone, Copy, PartialEq, Eq, Hash, Structural)]
pub enum FeeSide {
    Base,
    Quote,
    Settle,
}

#[derive(Debug, PartialEq, Eq)]
pub struct Fee {
    pub asset: String,
    pub amount: Decimal,
    pub side: FeeSide,
    pub is_maker: bool,
    pub rate: Option<Decimal>,
}

/// What a [`Fee`] holds.
#[verifier::ext_equal]
pub struct FeeView {
    pub asset: Seq<char>,
    pub amount: DecimalView,
    pub side: FeeSide,
    pub is_maker: bool,
    pub rate: Option<DecimalView>,
}

impl View for Fee {
    type V = FeeView;

    open spec fn view(&self) -> FeeView {
        FeeView {
            asset: self.asset@,
            amount: self.amount@,
            side: self.side,
            is_maker: self.is_maker,
            rate: views::opt_view(self.rate),
        }
    }
}

impl Clone for Fee {
    fn clone(&self) -> (r: Self)
        ensures
            r == *self,
    {
        Fee {
            asset: self.asset.clone(),
            amount: self.amount,
            side: self.side,
            is_maker: self.is_maker,
            rate: self.rate,
        }
    }
}

#[derive(Debug, PartialEq, Eq)]
pub struct Fill {
    pub id: FillId,
    pub account_id: AccountId,
    pub instrument_id: InstrumentId,
    pub order_id: OrderId,
    pub venue_order_id: Option<String>,
    pub trade_id: String,
    pub side: OrderSide,
    pub position_side: PositionSide,
    pub price: Decimal,
    pub quantity: Decimal,
    pub fee: Fee,
    pub is_maker: bool,
    pub occurred_at: TimestampMs,
}

/// What a [`Fill`] holds.
#[verifier::ext_equal]
pub struct FillView {
    pub id: Seq<char>,
    pub account_id: Seq<char>,
    pub instrument_id: Seq<char>,
    pub order_id: Seq<char>,
    pub venue_order_id: Option<Seq<char>>,
    pub trade_id: Seq<char>,
    pub side: OrderSide,
    pub position_side: PositionSide,
    pub price: DecimalView,
    pub quantity: DecimalView,
    pub fee: FeeView,
    pub is_maker: bool,
    pub occurred_at: TimestampMs,
}

impl View for Fill {
    type V = FillView;

    open spec fn view(&self) -> FillView {
        FillView {
            id: self.id@,
            account_id: self.account_id@,
            instrument_id: self.instrument_id@,
            order_id: self.order_id@,
            venue_order_id: views::opt_view(self.venue_order_id),
            trade_id: self.trade_id@,
            side: self.side,
            position_side: self.position_side,
            price: self.price@,
            quantity: self.quantity@,
            fee: self.fee@,
            is_maker: self.is_maker,
            occurred_at: self.occurred_at,
        }
    }
}

impl Clone for Fill {
    fn clone(&self) -> (r: Self)
        ensures
            r == *self,
    {
        Fill {
            id: self.id.clone(),
            account_id: self.account_id.clone(),
            instrument_id: self.instrument_id.clone(),
            order_id: self.order_id.clone(),
            venue_order_id: match &self.venue_order_id { Some(x) => Some(x.clone()), None => None },
            trade_id: self.trade_id.clone(),
            side: self.side,
            position_side: self.position_side,
            price: self.price,
            quantity: self.quantity,
            fee: self.fee.clone(),
            is_maker: self.is_maker,
            occurred_at: self.occurred_at,
        }
    }
}

#[derive(Debug, PartialEq, Eq)]
pub struct Funding {
    pub account_id: AccountId,
    pub instrument_id: InstrumentId,
    pub rate: Decimal,
    pub payment: Decimal,
    pub is_payer: bool,
    pub occurred_at: TimestampMs,
}

impl Clone for Funding {
    fn clone(&self) -> (r: Self)
        ensures
            r == *self,
    {
        Funding {
            account_id: self.account_id.clone(),
            instrument_id: self.instrument_id.clone(),
            rate: self.rate,
            payment: self.payment,
            is_payer: self.is_payer,
            occurred_at: self.occurred_at,
        }
    }
}

#[derive(Debug, PartialEq, Eq, Default)]
pub struct PnLComponents {
    pub gross_realized_pnl: Decimal,
    pub unrealized_pnl: Decimal,
    pub trading_fees: Decimal,
    pub funding_fees: Decimal,
    pub borrow_interest: Decimal,
}

/// What a [`PnLComponents`] holds.
#[verifier::ext_equal]
pub struct PnlView {
    pub gross_realized_pnl: DecimalView,
    pub unrealized_pnl: DecimalView,
    pub trading_fees: DecimalView,
    pub funding_fees: DecimalView,
    pub borrow_interest: DecimalView,
}

impl View for PnLComponents {
    type V = PnlView;

    open spec fn view(&self) -> PnlView {
        PnlView {
            gross_realized_pnl: self.gross_realized_pnl@,
            unrealized_pnl: self.unrealized_pnl@,
            trading_fees: self.trading_fees@,
            funding_fees: self.funding_fees@,
            borrow_interest: self.borrow_interest@,
        }
    }
}

impl Clone for PnLComponents {
    fn clone(&self) -> (r: Self)
        ensures
            r == *self,
    {
        PnLComponents {
            gross_realized_pnl: self.gross_realized_pnl,
            unrealized_pnl: self.unrealized_pnl,
            trading_fees: self.trading_fees,
            funding_fees: self.funding_fees,
            borrow_interest: self.borrow_interest,
        }
    }
}

impl PnlView {
    pub open spec fn nothing() -> PnlView {
        PnlView {
            gross_realized_pnl: DecimalView::zero(),
            unrealized_pnl: DecimalView::zero(),
            trading_fees: DecimalView::zero(),
            funding_fees: DecimalView::zero(),
            borrow_interest: DecimalView::zero(),
        }
    }

    /// Realized profit less fees and interest, with funding added; nothing
    /// when that is out of range.
    pub open spec fn net(self) -> Option<DecimalView> {
        match self.gross_realized_pnl.minus(self.trading_fees) {
            None => None,
            Some(a) => match a.plus(self.funding_fees) {
                None => None,
                Some(b) => b.minus(self.borrow_interest),
            },
        }
    }
}

impl PnLComponents {
    pub fn new() -> (r: Self)
        ensures
            r@ == PnlView::nothing(),
    {
        PnLComponents {
            gross_realized_pnl: Decimal::zero(),
            unrealized_pnl: Decimal::zero(),
            trading_fees: Decimal::zero(),
            funding_fees: Decimal::zero(),
            borrow_interest: Decimal::zero(),
        }
    }

    pub fn try_net_pnl(&self) -> (r: Option<Decimal>)
        ensures
            views::opt_view(r) == self@.net(),
    {
        let a = self.gross_realized_pnl.checked_sub(self.trading_fees)?;
        let b = a.checked_add(self.funding_fees)?;
        b.checked_sub(self.borrow_interest)
    }

    pub fn net_pnl(&self) -> (r: Decimal)
        requires
            self@.net() is Some,
        ensures
            Some(r@) == self@.net(),
    {
        self.try_net_pnl().unwrap()
    }
}

#[derive(Debug, PartialEq, Eq)]
pub enum RiskDecision {
    Approved,
    Rejected { rule: String, message: String },
}

/// A decision with its texts.
pub enum DecisionView {
    Approved,
    Rejected { rule: Seq<char>, message: Seq<char> },
}

impl View for RiskDecision {
    type V = DecisionView;

    open spec fn view(&self) -> DecisionView {
        match self {
            RiskDecision::Approved => DecisionView::Approved,
            RiskDecision::Rejected { rule, message } => DecisionView::Rejected {
                rule: rule@,
                message: message@,
            },
        }
    }
}

impl Clone for RiskDecision {
    fn clone(&self) -> (r: Self)
        ensures
            r == *self,
    {
        match self {
            RiskDecision::Approved => RiskDecision::Approved,
            RiskDecision::Rejected { rule, message } => RiskDecision::Rejected {
                rule: rule.clone(),
                message: message.clone(),
            },
        }
    }
}

impl RiskDecision {
    pub fn reject(rule: &str, message: &str) -> (r: Self)
        ensures
            r@ == (DecisionView::Rejected { rule: rule@, message: message@ }),
    {
        RiskDecision::Rejected { rule: rule.to_owned(), message: message.to_owned() }
    }

    pub fn is_approved(&self) -> (r: bool)
        ensures
            r == (self@ == DecisionView::Approved),
    {
        matches!(self, RiskDecision::Approved)
    }
}

#[derive(Debug, PartialEq, Eq)]
pub struct RiskLimitConfig {
    /// Empty whitelist = deny all.
    pub instrument_whitelist: Vec<InstrumentId>,
    pub max_order_notional: Option<Decimal>,
    pub max_strategy_notional: Option<Decimal>,
    pub max_account_notional: Option<Decimal>,
    pub max_net_exposure: Option<Decimal>,
    pub max_leverage: Option<Decimal>,
    pub max_active_orders: Option<u32>,
    pub max_order_rate_per_min: Option<u32>,
    pub max_price_deviation: Option<Decimal>,
    pub max_market_age_ms: Option<u64>,
    pub max_daily_loss: Option<Decimal>,
    pub max_drawdown: Option<Decimal>,
    pub consecutive_reject_limit: Option<u32>,
    pub pause_on_disconnect: bool,
}

/// What a [`RiskLimitConfig`] holds.
#[verifier::ext_equal]
pub struct LimitsView {
    pub instrument_whitelist: Seq<Seq<char>>,
    pub max_order_notional: Option<DecimalView>,
    pub max_strategy_notional: Option<DecimalView>,
    pub max_account_notional: Option<DecimalView>,
    pub max_net_exposure: Option<DecimalView>,
    pub max_leverage: Option<DecimalView>,
    pub max_active_orders: Option<u32>,
    pub max_order_rate_per_min: Option<u32>,
    pub max_price_deviation: Option<DecimalView>,
    pub max_market_age_ms: Option<u64>,
    pub max_daily_loss: Option<DecimalView>,
    pub max_drawdown: Option<DecimalView>,
    pub consecutive_reject_limit: Option<u32>,
    pub pause_on_disconnect: bool,
}

impl View for RiskLimitConfig {
    type V = LimitsView;

    open spec fn view(&self) -> LimitsView {
        LimitsView {
            instrument_whitelist: views::seq_view(self.instrument_whitelist@),
            max_order_notional: views::opt_view(self.max_order_notional),
            max_strategy_notional: views::opt_view(self.max_strategy_notional),
            max_account_notional: views::opt_view(self.max_account_notional),
            max_net_exposure: views::opt_view(self.max_net_exposure),
            max_leverage: views::opt_view(self.max_leverage),
            max_active_orders: self.max_active_orders,
            max_order_rate_per_min: self.max_order_rate_per_min,
            max_price_deviation: views::opt_view(self.max_price_deviation),
            max_market_age_ms: self.max_market_age_ms,
            max_daily_loss: views::opt_view(self.max_daily_loss),
            max_drawdown: views::opt_view(self.max_drawdown),
            consecutive_reject_limit: self.consecutive_reject_limit,
            pause_on_disconnect: self.pause_on_disconnect,
        }
    }
}

impl Clone for RiskLimitConfig {
    fn clone(&self) -> (r: Self)
        ensures
            r@ == self@,
    {
        RiskLimitConfig {
            instrument_whitelist: copy_instruments(&self.instrument_whitelist),
            max_order_notional: self.max_order_notional,
            max_strategy_notional: self.max_strategy_notional,
            max_account_notional: self.max_account_notional,
            max_net_exposure: self.max_net_exposure,
            max_leverage: self.max_leverage,
            max_active_orders: self.max_active_orders,
            max_order_rate_per_min: self.max_order_rate_per_min,
            max_price_deviation: self.max_price_deviation,
            max_market_age_ms: self.max_market_age_ms,
            max_daily_loss: self.max_daily_loss,
            max_drawdown: self.max_drawdown,
            consecutive_reject_limit: self.consecutive_reject_limit,
            pause_on_disconnect: self.pause_on_disconnect,
        }
    }
}

/// A copy of a list of instruments.
pub fn copy_instruments(list: &Vec<InstrumentId>) -> (r: Vec<InstrumentId>)
    ensures
        views::seq_view(r@) == views::seq_view(list@),
{
    let mut r: Vec<InstrumentId> = Vec::new();
    let mut i: usize = 0;
    while i < list.len()
        invariant
            i <= list@.len(),
            r@.len() == i,
            forall|j: int| 0 <= j < i ==> (#[trigger] r@[j])@ == list@[j]@,
        decreases list@.len() - i,
    {
        r.push(list[i].clone());
        i = i + 1;
    }
    assert(views::seq_view(r@) =~= views::seq_view(list@));
    r
}

impl LimitsView {
    /// No limits but a market age of five seconds and five rejections in a row;
    /// nothing is whitelisted.
    pub open spec fn defaults() -> LimitsView {
        LimitsView {
            instrument_whitelist: Seq::empty(),
            max_order_notional: None,
            max_strategy_notional: None,
            max_account_notional: None,
            max_net_exposure: None,
            max_leverage: None,
            max_active_orders: None,
            max_order_rate_per_min: None,
            max_price_deviation: None,
            max_market_age_ms: Some(5_000u64),
            max_daily_loss: None,
            max_drawdown: None,
            consecutive_reject_limit: Some(5u32),
            pause_on_disconnect: true,
        }
    }
}

impl Default for RiskLimitConfig {
    fn default() -> (r: Self)
        ensures
            r@ == LimitsView::defaults(),
    {
        let r = RiskLimitConfig {
            instrument_whitelist: Vec::new(),
            max_order_notional: None,
            max_strategy_notional: None,
            max_account_notional: None,
            max_net_exposure: None,
            max_leverage: None,
            max_active_orders: None,
            max_order_rate_per_min: None,
            max_price_deviation: None,
            max_market_age_ms: Some(5_000),
            max_daily_loss: None,
            max_drawdown: None,
            consecutive_reject_limit: Some(5),
            pause_on_disconnect: true,
        };
        assert(r@.instrument_whitelist =~= Seq::empty());
        r
    }
}

#[derive(Debug, Clone, Copy, PartialEq, Eq, Hash, Structural)]
pub enum StrategyLifecycle {
    Draft,
    Backtest,
    Paper,
    ExchangeDemo,
    Shadow,
    Canary,
    Live,
    Paused,
    Retired,
}

#[derive(Debug, PartialEq, Eq)]
pub struct StrategyConfig {
    pub version: ConfigVersionId,
    /// The parameters as a JSON document.
    pub params: String,
    pub effective_event_seq: Option<u64>,
    pub applied_at: Option<TimestampMs>,
}

impl Clone for StrategyConfig {
    fn clone(&self) -> (r: Self)
        ensures
            r == *self,
    {
        StrategyConfig {
            version: self.version.clone(),
            params: self.params.clone(),
            effective_event_seq: self.effective_event_seq,
            applied_at: self.applied_at,
        }
    }
}

#[derive(Debug, PartialEq, Eq)]
pub struct StrategyInstance {
    pub id: StrategyInstanceId,
    pub definition_id: StrategyId,
    pub lifecycle: StrategyLifecycle,
    pub config_version: ConfigVersionId,
    pub environment: Environment,
    pub account_id: AccountId,
    pub enabled: bool,
    pub created_at: TimestampMs,
}

impl Clone for StrategyInstance {
    fn clone(&self) -> (r: Self)
        ensures
            r == *self,
    {
        StrategyInstance {
            id: self.id.clone(),
            definition_id: self.definition_id.clone(),
            lifecycle: self.lifecycle,
            config_version: self.config_version.clone(),
            environment: self.environment,
            account_id: self.account_id.clone(),
            enabled: self.enabled,
            created_at: self.created_at,
        }
    }
}

#[derive(Debug, Clone, Copy, PartialEq, Eq, Hash, Structural)]
pub enum FillModelKind {
    Immediate,
    L1,
    Queue,
}

/// Where orders are executed.
pub trait ExecutionPort: Sized {
    /// Whether the port can take the order without leaving the range of
    /// numbers.
    open spec fn can_place(&self, order: OrderView) -> bool {
        true
    }

    /// Whether a port in state `before` may answer an order with `answer` and
    /// be in state `after` then.
    open spec fn may_place(
        before: Self,
        order: OrderView,
        after: Self,
        answer: crate::error::Result<Order>,
    ) -> bool {
        true
    }

    /// Whether a port in state `before` may answer a cancellation with `answer`
    /// and be in state `after` then.
    open spec fn may_cancel(
        before: Self,
        order_id: Seq<char>,
        after: Self,
        answer: crate::error::Result<Order>,
    ) -> bool {
        true
    }

    /// Whether the port may report `answer` of an order.
    open spec fn may_report(&self, order_id: Seq<char>, answer: crate::error::Result<Order>) -> bool {
        true
    }

    /// Whether the port may say `valid` of a client order id.
    open spec fn may_judge(&self, id: Seq<char>, valid: bool) -> bool {
        true
    }

    fn place_order(&mut self, order: &Order) -> (r: crate::error::Result<Order>)
        requires
            old(self).can_place(order@),
        ensures
            Self::may_place(*old(self), order@, *final(self), r),
    ;

    fn cancel_order(&mut self, order_id: &OrderId) -> (r: crate::error::Result<Order>)
        ensures
            Self::may_cancel(*old(self), order_id@, *final(self), r),
    ;

    fn query_order(&self, order_id: &OrderId) -> (r: crate::error::Result<Order>)
        ensures
            self.may_report(order_id@, r),
    ;

    fn validate_client_order_id(&self, id: &ClientOrderId) -> (r: bool)
        ensures
            self.may_judge(id@, r),
    ;
}

/// Net profit is the realized profit less trading fees and interest, with
/// funding added. Unrealized profit has no part in it. Stated where the sums
/// need no rounding.
pub proof fn law_net_is_realized_less_costs(p: PnlView)
    requires
        p.gross_realized_pnl.wf(),
        p.trading_fees.wf(),
        p.funding_fees.wf(),
        p.borrow_interest.wf(),
        p.gross_realized_pnl.subtracts_exactly(p.trading_fees),
        p.gross_realized_pnl.exact_difference(p.trading_fees).adds_exactly(p.funding_fees),
        p.gross_realized_pnl.exact_difference(p.trading_fees).exact_sum(
            p.funding_fees,
        ).subtracts_exactly(p.borrow_interest),
    ensures
        p.net() is Some,
        (p.net()->0).units() == p.gross_realized_pnl.units() - p.trading_fees.units()
            + p.funding_fees.units() - p.borrow_interest.units(),
{
    let a = p.gross_realized_pnl.exact_difference(p.trading_fees);
    decimal::lemma_exact_difference(p.gross_realized_pnl, p.trading_fees);
    decimal::lemma_exact_sum(a, p.funding_fees);
    decimal::lemma_exact_difference(a.exact_sum(p.funding_fees), p.borrow_interest);
}

/// A price is valid exactly when it is positive and a whole number of ticks.
/// Stated where the number of ticks needs no rounding.
pub proof fn law_price_is_on_the_grid(i: InstrumentView, price: DecimalView)
    requires
        price.wf(),
        i.tick_size.wf(),
        i.tick_size.mantissa > 0,
        price.divides_exactly(i.tick_size),
        decimal::steps_fit(price, i.tick_size),
    ensures
        i.price_valid(price) <==> price.units() > 0 && price.units() % i.tick_size.units() == 0,
        i.price_in_range(price),
{
    decimal::law_steps_are_exact(price, i.tick_size);
    decimal::lemma_sign_of_units(price);
}

/// A quantity is valid exactly when it is a whole number of steps and not below
/// the minimum. Stated where the number of steps needs no rounding.
pub proof fn law_quantity_is_on_the_grid(i: InstrumentView, qty: DecimalView)
    requires
        qty.wf(),
        i.step_size.wf(),
        i.step_size.mantissa > 0,
        qty.divides_exactly(i.step_size),
        decimal::steps_fit(qty, i.step_size),
    ensures
        i.qty_valid(qty) <==> i.min_qty.units() <= qty.units() && qty.units()
            % i.step_size.units() == 0,
        i.qty_in_range(qty),
{
    decimal::law_steps_are_exact(qty, i.step_size);
}

/// A tick or step that is not positive makes every price or quantity invalid.
pub proof fn law_no_grid_no_order(i: InstrumentView, value: DecimalView)
    ensures
        i.tick_size.units() <= 0 ==> !i.price_valid(value),
        i.step_size.units() <= 0 ==> !i.qty_valid(value),
        value.units() <= 0 ==> !i.price_valid(value),
        value.units() < i.min_qty.units() ==> !i.qty_valid(value),
        match i.min_notional {
            None => i.notional_valid(value),
            Some(m) => i.notional_valid(value) <==> m.units() <= value.units(),
        },
{
    decimal::lemma_sign_of_units(i.tick_size);
    decimal::lemma_sign_of_units(i.step_size);
    decimal::lemma_sign_of_units(value);
}

/// Whether `n` is price times quantity, where that needs no rounding.
pub open spec fn is_product(
    n: Option<Option<DecimalView>>,
    price: DecimalView,
    quantity: DecimalView,
) -> bool {
    price.wf() && quantity.wf() && price.multiplies_exactly(quantity) ==> {
        &&& n is Some
        &&& n->0 is Some
        &&& (n->0->0).units() * decimal::pow10(28) == price.units() * quantity.units()
    }
}

pub proof fn lemma_is_product(price: DecimalView, quantity: DecimalView)
    ensures
        is_product(notional_of(Some(price), quantity), price, quantity),
{
    if price.wf() && quantity.wf() && price.multiplies_exactly(quantity) {
        decimal::law_product_is_exact(price, quantity);
    }
}

/// A market order is worth its quantity at the market, whatever price it names,
/// and has no known worth without one. Any other order is worth its quantity at
/// its own price, or at the market where it names none.
pub proof fn law_worth_is_price_times_quantity(
    order_type: OrderType,
    price: Option<DecimalView>,
    quantity: DecimalView,
    market: Option<DecimalView>,
    at: DecimalView,
)
    requires
        at.wf(),
        quantity.wf(),
        at.multiplies_exactly(quantity),
    ensures
        order_type == OrderType::Market && market is None ==> worth_at(
            order_type,
            price,
            quantity,
            market,
        ) == Some(None::<DecimalView>),
        price is None && market is None ==> worth_at(order_type, price, quantity, market) == Some(
            None::<DecimalView>,
        ),
        order_type == OrderType::Market && market == Some(at) ==> is_product(
            worth_at(order_type, price, quantity, market),
            at,
            quantity,
        ),
        order_type != OrderType::Market && price == Some(at) ==> is_product(
            worth_at(order_type, price, quantity, market),
            at,
            quantity,
        ),
        price is None && market == Some(at) ==> is_product(
            worth_at(order_type, price, quantity, market),
            at,
            quantity,
        ),
{
    decimal::law_product_is_exact(at, quantity);
}

/// What an intent or an order names as its price comes before the market.
pub proof fn law_named_price_comes_first(
    i: IntentView,
    o: OrderView,
    market: Option<DecimalView>,
)
    ensures
        i.price is Some ==> i.reference(market) == i.price,
        i.price is None ==> i.reference(market) == market,
        i.reference(market) is None ==> i.notional(market) == Some(None::<DecimalView>),
        o.price is None && market is None ==> o.notional(market) == Some(None::<DecimalView>),
        i.price is Some ==> is_product(i.notional(market), i.price->0, i.quantity),
        i.price is None && market is Some ==> is_product(
            i.notional(market),
            market->0,
            i.quantity,
        ),
        o.price is Some ==> is_product(o.notional(market), o.price->0, o.quantity),
        o.price is None && market is Some ==> is_product(
            o.notional(market),
            market->0,
            o.quantity,
        ),
{
    if i.price is Some {
        lemma_is_product(i.price->0, i.quantity);
    }
    if o.price is Some {
        lemma_is_product(o.price->0, o.quantity);
    }
    if market is Some {
        lemma_is_product(market->0, i.quantity);
        lemma_is_product(market->0, o.quantity);
    }
}

/// What is left of an order is its quantity less what was filled, and a change
/// of state changes nothing but the state and its time.
pub proof fn law_order_bookkeeping(o: OrderView, to: OrderStatus, now: TimestampMs)
    ensures
        o.quantity.wf() && o.filled_quantity.wf() && o.quantity.subtracts_exactly(o.filled_quantity)
            ==> o.remaining() is Some && (o.remaining()->0).units() == o.quantity.units()
            - o.filled_quantity.units(),
        o.with_status(to, now).status == to,
        o.with_status(to, now).updated_at == now,
        (OrderView { status: o.status, updated_at: o.updated_at, ..o.with_status(to, now) }) == o,
        o.may_become(o.status),
        o.status.terminal() && to != o.status ==> !o.may_become(to),
{
    if o.quantity.wf() && o.filled_quantity.wf() && o.quantity.subtracts_exactly(
        o.filled_quantity,
    ) {
        decimal::lemma_exact_difference(o.quantity, o.filled_quantity);
    }
}

} // verus!

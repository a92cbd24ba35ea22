//! Strongly-typed identifiers and environment triple.

use vstd::prelude::*;
use vstd::string::*;

use crate::text::{join2, join3, u64_text};
use crate::text;

verus! {

/// Wall-clock milliseconds since Unix epoch (UTC).
pub type TimestampMs = i64;

/// Monotonic event sequence (config changes apply on event boundaries).
#[derive(Debug, Clone, Copy, PartialEq, Eq, PartialOrd, Ord, Hash, Default, Structural)]
pub struct EventSeq(pub u64);

impl EventSeq {
    pub fn to_text(&self) -> (r: String)
        ensures
            r@ == text::nat_text(self.0 as nat),
    {
        u64_text(self.0)
    }
}

/// Farthest time from the epoch that the clock gives, in milliseconds.
pub const CLOCK_RANGE_MS: i64 = 9_000_000_000_000_000;

/// Whether a time is one that the clock may give.
pub open spec fn clock_gives(t: TimestampMs) -> bool {
    0 <= t <= CLOCK_RANGE_MS
}

/// Calls `chrono::Utc::now` and `DateTime::timestamp_millis`: the time now.
/// `Utc::now` gives no time before the epoch (a system clock set before it ends
/// the process), and the dates that chrono has reach about 262 thousand years
/// past it, which is within `CLOCK_RANGE_MS`.
#[verifier::external_body]
pub fn now_ms() -> (r: TimestampMs)
    ensures
        clock_gives(r),
{
    chrono::Utc::now().timestamp_millis()
}

/// A lower-case hexadecimal digit.
pub open spec fn is_hex_digit(c: char) -> bool {
    ('0' <= c && c <= '9') || ('a' <= c && c <= 'f')
}

/// A random identifier: 32 lower-case hexadecimal digits.
pub open spec fn is_token(t: Seq<char>) -> bool {
    t.len() == 32 && forall|i: int| 0 <= i < 32 ==> is_hex_digit(#[trigger] t[i])
}

/// A random identifier behind a prefix.
pub open spec fn tagged(prefix: Seq<char>, id: Seq<char>) -> bool {
    exists|t: Seq<char>| #[trigger] is_token(t) && id == prefix + t
}

/// Calls `uuid::Uuid::new_v4` and prints the value with `Uuid::simple`: 32
/// hexadecimal digits in lower case. Which digits is left to chance.
#[verifier::external_body]
pub(crate) fn fresh_token() -> (r: String)
    ensures
        is_token(r@),
{
    uuid::Uuid::new_v4().simple().to_string()
}

/// An account.
#[derive(Debug, Eq, Hash)]
pub struct AccountId(String);

impl View for AccountId {
    type V = Seq<char>;

    closed spec fn view(&self) -> Seq<char> {
        self.0@
    }
}

impl AccountId {
    /// An identifier of its own: the prefix, an underscore and random digits.
    pub fn new() -> (r: Self)
        ensures
            exists|t: Seq<char>| #[trigger] is_token(t) && r@ == "acc_"@ + t,
    {
        let token = fresh_token();
        AccountId::with_token(token.as_str())
    }

    /// The identifier with the given random digits.
    pub fn with_token(token: &str) -> (r: Self)
        ensures
            r@ == "acc_"@ + token@,
    {
        AccountId(join2("acc_", token))
    }

    pub fn from_raw(raw: &str) -> (r: Self)
        ensures
            r@ == raw@,
    {
        AccountId(raw.to_owned())
    }

    pub fn as_str(&self) -> (r: &str)
        ensures
            r@ == self@,
    {
        self.0.as_str()
    }
}

impl Clone for AccountId {
    fn clone(&self) -> (r: Self)
        ensures
            r == *self,
    {
        AccountId(self.0.clone())
    }
}

impl PartialEq for AccountId {
    fn eq(&self, other: &Self) -> (r: bool) {
        self.0 == other.0
    }
}

impl vstd::std_specs::cmp::PartialEqSpecImpl for AccountId {
    open spec fn obeys_eq_spec() -> bool {
        true
    }

    open spec fn eq_spec(&self, other: &Self) -> bool {
        self@ == other@
    }
}

impl Default for AccountId {
    fn default() -> (r: Self)
        ensures
            exists|t: Seq<char>| #[trigger] is_token(t) && r@ == "acc_"@ + t,
    {
        AccountId::new()
    }
}

impl From<String> for AccountId {
    fn from(raw: String) -> (r: Self)
        ensures
            r@ == raw@,
    {
        AccountId(raw)
    }
}

impl vstd::std_specs::convert::FromSpecImpl<String> for AccountId {
    open spec fn obeys_from_spec() -> bool {
        false
    }

    open spec fn from_spec(raw: String) -> Self {
        arbitrary()
    }
}

impl From<&str> for AccountId {
    fn from(raw: &str) -> (r: Self)
        ensures
            r@ == raw@,
    {
        AccountId(raw.to_owned())
    }
}

impl vstd::std_specs::convert::FromSpecImpl<&str> for AccountId {
    open spec fn obeys_from_spec() -> bool {
        false
    }

    open spec fn from_spec(raw: &str) -> Self {
        arbitrary()
    }
}

/// A strategy definition.
#[derive(Debug, Eq, Hash)]
pub struct StrategyId(String);

impl View for StrategyId {
    type V = Seq<char>;

    closed spec fn view(&self) -> Seq<char> {
        self.0@
    }
}

impl StrategyId {
    /// An identifier of its own: the prefix, an underscore and random digits.
    pub fn new() -> (r: Self)
        ensures
            exists|t: Seq<char>| #[trigger] is_token(t) && r@ == "strat_"@ + t,
    {
        let token = fresh_token();
        StrategyId::with_token(token.as_str())
    }

    /// The identifier with the given random digits.
    pub fn with_token(token: &str) -> (r: Self)
        ensures
            r@ == "strat_"@ + token@,
    {
        StrategyId(join2("strat_", token))
    }

    pub fn from_raw(raw: &str) -> (r: Self)
        ensures
            r@ == raw@,
    {
        StrategyId(raw.to_owned())
    }

    pub fn as_str(&self) -> (r: &str)
        ensures
            r@ == self@,
    {
        self.0.as_str()
    }
}

impl Clone for StrategyId {
    fn clone(&self) -> (r: Self)
        ensures
            r == *self,
    {
        StrategyId(self.0.clone())
    }
}

impl PartialEq for StrategyId {
    fn eq(&self, other: &Self) -> (r: bool) {
        self.0 == other.0
    }
}

impl vstd::std_specs::cmp::PartialEqSpecImpl for StrategyId {
    open spec fn obeys_eq_spec() -> bool {
        true
    }

    open spec fn eq_spec(&self, other: &Self) -> bool {
        self@ == other@
    }
}

impl Default for StrategyId {
    fn default() -> (r: Self)
        ensures
            exists|t: Seq<char>| #[trigger] is_token(t) && r@ == "strat_"@ + t,
    {
        StrategyId::new()
    }
}

impl From<String> for StrategyId {
    fn from(raw: String) -> (r: Self)
        ensures
            r@ == raw@,
    {
        StrategyId(raw)
    }
}

impl vstd::std_specs::convert::FromSpecImpl<String> for StrategyId {
    open spec fn obeys_from_spec() -> bool {
        false
    }

    open spec fn from_spec(raw: String) -> Self {
        arbitrary()
    }
}

impl From<&str> for StrategyId {
    fn from(raw: &str) -> (r: Self)
        ensures
            r@ == raw@,
    {
        StrategyId(raw.to_owned())
    }
}

impl vstd::std_specs::convert::FromSpecImpl<&str> for StrategyId {
    open spec fn obeys_from_spec() -> bool {
        false
    }

    open spec fn from_spec(raw: &str) -> Self {
        arbitrary()
    }
}

/// A running strategy.
#[derive(Debug, Eq, Hash)]
pub struct StrategyInstanceId(String);

impl View for StrategyInstanceId {
    type V = Seq<char>;

    closed spec fn view(&self) -> Seq<char> {
        self.0@
    }
}

impl StrategyInstanceId {
    /// An identifier of its own: the prefix, an underscore and random digits.
    pub fn new() -> (r: Self)
        ensures
            exists|t: Seq<char>| #[trigger] is_token(t) && r@ == "sinst_"@ + t,
    {
        let token = fresh_token();
        StrategyInstanceId::with_token(token.as_str())
    }

    /// The identifier with the given random digits.
    pub fn with_token(token: &str) -> (r: Self)
        ensures
            r@ == "sinst_"@ + token@,
    {
        StrategyInstanceId(join2("sinst_", token))
    }

    pub fn from_raw(raw: &str) -> (r: Self)
        ensures
            r@ == raw@,
    {
        StrategyInstanceId(raw.to_owned())
    }

    pub fn as_str(&self) -> (r: &str)
        ensures
            r@ == self@,
    {
        self.0.as_str()
    }
}

impl Clone for StrategyInstanceId {
    fn clone(&self) -> (r: Self)
        ensures
            r == *self,
    {
        StrategyInstanceId(self.0.clone())
    }
}

impl PartialEq for StrategyInstanceId {
    fn eq(&self, other: &Self) -> (r: bool) {
        self.0 == other.0
    }
}

impl vstd::std_specs::cmp::PartialEqSpecImpl for StrategyInstanceId {
    open spec fn obeys_eq_spec() -> bool {
        true
    }

    open spec fn eq_spec(&self, other: &Self) -> bool {
        self@ == other@
    }
}

impl Default for StrategyInstanceId {
    fn default() -> (r: Self)
        ensures
            exists|t: Seq<char>| #[trigger] is_token(t) && r@ == "sinst_"@ + t,
    {
        StrategyInstanceId::new()
    }
}

impl From<String> for StrategyInstanceId {
    fn from(raw: String) -> (r: Self)
        ensures
            r@ == raw@,
    {
        StrategyInstanceId(raw)
    }
}

impl vstd::std_specs::convert::FromSpecImpl<String> for StrategyInstanceId {
    open spec fn obeys_from_spec() -> bool {
        false
    }

    open spec fn from_spec(raw: String) -> Self {
        arbitrary()
    }
}

impl From<&str> for StrategyInstanceId {
    fn from(raw: &str) -> (r: Self)
        ensures
            r@ == raw@,
    {
        StrategyInstanceId(raw.to_owned())
    }
}

impl vstd::std_specs::convert::FromSpecImpl<&str> for StrategyInstanceId {
    open spec fn obeys_from_spec() -> bool {
        false
    }

    open spec fn from_spec(raw: &str) -> Self {
        arbitrary()
    }
}

/// An order.
#[derive(Debug, Eq, Hash)]
pub struct OrderId(String);

impl View for OrderId {
    type V = Seq<char>;

    closed spec fn view(&self) -> Seq<char> {
        self.0@
    }
}

impl OrderId {
    /// An identifier of its own: the prefix, an underscore and random digits.
    pub fn new() -> (r: Self)
        ensures
            exists|t: Seq<char>| #[trigger] is_token(t) && r@ == "ord_"@ + t,
    {
        let token = fresh_token();
        OrderId::with_token(token.as_str())
    }

    /// The identifier with the given random digits.
    pub fn with_token(token: &str) -> (r: Self)
        ensures
            r@ == "ord_"@ + token@,
    {
        OrderId(join2("ord_", token))
    }

    pub fn from_raw(raw: &str) -> (r: Self)
        ensures
            r@ == raw@,
    {
        OrderId(raw.to_owned())
    }

    pub fn as_str(&self) -> (r: &str)
        ensures
            r@ == self@,
    {
        self.0.as_str()
    }
}

impl Clone for OrderId {
    fn clone(&self) -> (r: Self)
        ensures
            r == *self,
    {
        OrderId(self.0.clone())
    }
}

impl PartialEq for OrderId {
    fn eq(&self, other: &Self) -> (r: bool) {
        self.0 == other.0
    }
}

impl vstd::std_specs::cmp::PartialEqSpecImpl for OrderId {
    open spec fn obeys_eq_spec() -> bool {
        true
    }

    open spec fn eq_spec(&self, other: &Self) -> bool {
        self@ == other@
    }
}

impl Default for OrderId {
    fn default() -> (r: Self)
        ensures
            exists|t: Seq<char>| #[trigger] is_token(t) && r@ == "ord_"@ + t,
    {
        OrderId::new()
    }
}

impl From<String> for OrderId {
    fn from(raw: String) -> (r: Self)
        ensures
            r@ == raw@,
    {
        OrderId(raw)
    }
}

impl vstd::std_specs::convert::FromSpecImpl<String> for OrderId {
    open spec fn obeys_from_spec() -> bool {
        false
    }

    open spec fn from_spec(raw: String) -> Self {
        arbitrary()
    }
}

impl From<&str> for OrderId {
    fn from(raw: &str) -> (r: Self)
        ensures
            r@ == raw@,
    {
        OrderId(raw.to_owned())
    }
}

impl vstd::std_specs::convert::FromSpecImpl<&str> for OrderId {
    open spec fn obeys_from_spec() -> bool {
        false
    }

    open spec fn from_spec(raw: &str) -> Self {
        arbitrary()
    }
}

/// An order, as the client named it.
#[derive(Debug, Eq, Hash)]
pub struct ClientOrderId(String);

impl View for ClientOrderId {
    type V = Seq<char>;

    closed spec fn view(&self) -> Seq<char> {
        self.0@
    }
}

impl ClientOrderId {
    /// An identifier of its own: the prefix, an underscore and random digits.
    pub fn new() -> (r: Self)
        ensures
            exists|t: Seq<char>| #[trigger] is_token(t) && r@ == "clid_"@ + t,
    {
        let token = fresh_token();
        ClientOrderId::with_token(token.as_str())
    }

    /// The identifier with the given random digits.
    pub fn with_token(token: &str) -> (r: Self)
        ensures
            r@ == "clid_"@ + token@,
    {
        ClientOrderId(join2("clid_", token))
    }

    pub fn from_raw(raw: &str) -> (r: Self)
        ensures
            r@ == raw@,
    {
        ClientOrderId(raw.to_owned())
    }

    pub fn as_str(&self) -> (r: &str)
        ensures
            r@ == self@,
    {
        self.0.as_str()
    }
}

impl Clone for ClientOrderId {
    fn clone(&self) -> (r: Self)
        ensures
            r == *self,
    {
        ClientOrderId(self.0.clone())
    }
}

impl PartialEq for ClientOrderId {
    fn eq(&self, other: &Self) -> (r: bool) {
        self.0 == other.0
    }
}

impl vstd::std_specs::cmp::PartialEqSpecImpl for ClientOrderId {
    open spec fn obeys_eq_spec() -> bool {
        true
    }

    open spec fn eq_spec(&self, other: &Self) -> bool {
        self@ == other@
    }
}

impl Default for ClientOrderId {
    fn default() -> (r: Self)
        ensures
            exists|t: Seq<char>| #[trigger] is_token(t) && r@ == "clid_"@ + t,
    {
        ClientOrderId::new()
    }
}

impl From<String> for ClientOrderId {
    fn from(raw: String) -> (r: Self)
        ensures
            r@ == raw@,
    {
        ClientOrderId(raw)
    }
}

impl vstd::std_specs::convert::FromSpecImpl<String> for ClientOrderId {
    open spec fn obeys_from_spec() -> bool {
        false
    }

    open spec fn from_spec(raw: String) -> Self {
        arbitrary()
    }
}

impl From<&str> for ClientOrderId {
    fn from(raw: &str) -> (r: Self)
        ensures
            r@ == raw@,
    {
        ClientOrderId(raw.to_owned())
    }
}

impl vstd::std_specs::convert::FromSpecImpl<&str> for ClientOrderId {
    open spec fn obeys_from_spec() -> bool {
        false
    }

    open spec fn from_spec(raw: &str) -> Self {
        arbitrary()
    }
}

/// A fill.
#[derive(Debug, Eq, Hash)]
pub struct FillId(String);

impl View for FillId {
    type V = Seq<char>;

    closed spec fn view(&self) -> Seq<char> {
        self.0@
    }
}

impl FillId {
    /// An identifier of its own: the prefix, an underscore and random digits.
    pub fn new() -> (r: Self)
        ensures
            exists|t: Seq<char>| #[trigger] is_token(t) && r@ == "fill_"@ + t,
    {
        let token = fresh_token();
        FillId::with_token(token.as_str())
    }

    /// The identifier with the given random digits.
    pub fn with_token(token: &str) -> (r: Self)
        ensures
            r@ == "fill_"@ + token@,
    {
        FillId(join2("fill_", token))
    }

    pub fn from_raw(raw: &str) -> (r: Self)
        ensures
            r@ == raw@,
    {
        FillId(raw.to_owned())
    }

    pub fn as_str(&self) -> (r: &str)
        ensures
            r@ == self@,
    {
        self.0.as_str()
    }
}

impl Clone for FillId {
    fn clone(&self) -> (r: Self)
        ensures
            r == *self,
    {
        FillId(self.0.clone())
    }
}

impl PartialEq for FillId {
    fn eq(&self, other: &Self) -> (r: bool) {
        self.0 == other.0
    }
}

impl vstd::std_specs::cmp::PartialEqSpecImpl for FillId {
    open spec fn obeys_eq_spec() -> bool {
        true
    }

    open spec fn eq_spec(&self, other: &Self) -> bool {
        self@ == other@
    }
}

impl Default for FillId {
    fn default() -> (r: Self)
        ensures
            exists|t: Seq<char>| #[trigger] is_token(t) && r@ == "fill_"@ + t,
    {
        FillId::new()
    }
}

impl From<String> for FillId {
    fn from(raw: String) -> (r: Self)
        ensures
            r@ == raw@,
    {
        FillId(raw)
    }
}

impl vstd::std_specs::convert::FromSpecImpl<String> for FillId {
    open spec fn obeys_from_spec() -> bool {
        false
    }

    open spec fn from_spec(raw: String) -> Self {
        arbitrary()
    }
}

impl From<&str> for FillId {
    fn from(raw: &str) -> (r: Self)
        ensures
            r@ == raw@,
    {
        FillId(raw.to_owned())
    }
}

impl vstd::std_specs::convert::FromSpecImpl<&str> for FillId {
    open spec fn obeys_from_spec() -> bool {
        false
    }

    open spec fn from_spec(raw: &str) -> Self {
        arbitrary()
    }
}

/// An order intent.
#[derive(Debug, Eq, Hash)]
pub struct IntentId(String);

impl View for IntentId {
    type V = Seq<char>;

    closed spec fn view(&self) -> Seq<char> {
        self.0@
    }
}

impl IntentId {
    /// An identifier of its own: the prefix, an underscore and random digits.
    pub fn new() -> (r: Self)
        ensures
            exists|t: Seq<char>| #[trigger] is_token(t) && r@ == "int_"@ + t,
    {
        let token = fresh_token();
        IntentId::with_token(token.as_str())
    }

    /// The identifier with the given random digits.
    pub fn with_token(token: &str) -> (r: Self)
        ensures
            r@ == "int_"@ + token@,
    {
        IntentId(join2("int_", token))
    }

    pub fn from_raw(raw: &str) -> (r: Self)
        ensures
            r@ == raw@,
    {
        IntentId(raw.to_owned())
    }

    pub fn as_str(&self) -> (r: &str)
        ensures
            r@ == self@,
    {
        self.0.as_str()
    }
}

impl Clone for IntentId {
    fn clone(&self) -> (r: Self)
        ensures
            r == *self,
    {
        IntentId(self.0.clone())
    }
}

impl PartialEq for IntentId {
    fn eq(&self, other: &Self) -> (r: bool) {
        self.0 == other.0
    }
}

impl vstd::std_specs::cmp::PartialEqSpecImpl for IntentId {
    open spec fn obeys_eq_spec() -> bool {
        true
    }

    open spec fn eq_spec(&self, other: &Self) -> bool {
        self@ == other@
    }
}

impl Default for IntentId {
    fn default() -> (r: Self)
        ensures
            exists|t: Seq<char>| #[trigger] is_token(t) && r@ == "int_"@ + t,
    {
        IntentId::new()
    }
}

impl From<String> for IntentId {
    fn from(raw: String) -> (r: Self)
        ensures
            r@ == raw@,
    {
        IntentId(raw)
    }
}

impl vstd::std_specs::convert::FromSpecImpl<String> for IntentId {
    open spec fn obeys_from_spec() -> bool {
        false
    }

    open spec fn from_spec(raw: String) -> Self {
        arbitrary()
    }
}

impl From<&str> for IntentId {
    fn from(raw: &str) -> (r: Self)
        ensures
            r@ == raw@,
    {
        IntentId(raw.to_owned())
    }
}

impl vstd::std_specs::convert::FromSpecImpl<&str> for IntentId {
    open spec fn obeys_from_spec() -> bool {
        false
    }

    open spec fn from_spec(raw: &str) -> Self {
        arbitrary()
    }
}

/// A configuration version.
#[derive(Debug, Eq, Hash)]
pub struct ConfigVersionId(String);

impl View for ConfigVersionId {
    type V = Seq<char>;

    closed spec fn view(&self) -> Seq<char> {
        self.0@
    }
}

impl ConfigVersionId {
    /// An identifier of its own: the prefix, an underscore and random digits.
    pub fn new() -> (r: Self)
        ensures
            exists|t: Seq<char>| #[trigger] is_token(t) && r@ == "cfg_"@ + t,
    {
        let token = fresh_token();
        ConfigVersionId::with_token(token.as_str())
    }

    /// The identifier with the given random digits.
    pub fn with_token(token: &str) -> (r: Self)
        ensures
            r@ == "cfg_"@ + token@,
    {
        ConfigVersionId(join2("cfg_", token))
    }

    pub fn from_raw(raw: &str) -> (r: Self)
        ensures
            r@ == raw@,
    {
        ConfigVersionId(raw.to_owned())
    }

    pub fn as_str(&self) -> (r: &str)
        ensures
            r@ == self@,
    {
        self.0.as_str()
    }
}

impl Clone for ConfigVersionId {
    fn clone(&self) -> (r: Self)
        ensures
            r == *self,
    {
        ConfigVersionId(self.0.clone())
    }
}

impl PartialEq for ConfigVersionId {
    fn eq(&self, other: &Self) -> (r: bool) {
        self.0 == other.0
    }
}

impl vstd::std_specs::cmp::PartialEqSpecImpl for ConfigVersionId {
    open spec fn obeys_eq_spec() -> bool {
        true
    }

    open spec fn eq_spec(&self, other: &Self) -> bool {
        self@ == other@
    }
}

impl Default for ConfigVersionId {
    fn default() -> (r: Self)
        ensures
            exists|t: Seq<char>| #[trigger] is_token(t) && r@ == "cfg_"@ + t,
    {
        ConfigVersionId::new()
    }
}

impl From<String> for ConfigVersionId {
    fn from(raw: String) -> (r: Self)
        ensures
            r@ == raw@,
    {
        ConfigVersionId(raw)
    }
}

impl vstd::std_specs::convert::FromSpecImpl<String> for ConfigVersionId {
    open spec fn obeys_from_spec() -> bool {
        false
    }

    open spec fn from_spec(raw: String) -> Self {
        arbitrary()
    }
}

impl From<&str> for ConfigVersionId {
    fn from(raw: &str) -> (r: Self)
        ensures
            r@ == raw@,
    {
        ConfigVersionId(raw.to_owned())
    }
}

impl vstd::std_specs::convert::FromSpecImpl<&str> for ConfigVersionId {
    open spec fn obeys_from_spec() -> bool {
        false
    }

    open spec fn from_spec(raw: &str) -> Self {
        arbitrary()
    }
}

#[derive(Debug, Clone, Copy, PartialEq, Eq, Hash, Structural)]
pub enum Venue {
    Binance,
    Okx,
    LocalPaper,
}

impl Venue {
    pub open spec fn text(self) -> Seq<char> {
        match self {
            Venue::Binance => "binance"@,
            Venue::Okx => "okx"@,
            Venue::LocalPaper => "local_paper"@,
        }
    }

    pub fn as_str(&self) -> (r: &'static str)
        ensures
            r@ == self.text(),
    {
        match self {
            Venue::Binance => "binance",
            Venue::Okx => "okx",
            Venue::LocalPaper => "local_paper",
        }
    }
}

#[derive(Debug, Clone, Copy, PartialEq, Eq, Hash, Structural)]
pub enum Product {
    Spot,
    UsdtPerp,
    CoinPerp,
    CoinFutures,
}

impl Product {
    pub open spec fn text(self) -> Seq<char> {
        match self {
            Product::Spot => "spot"@,
            Product::UsdtPerp => "usdt_perp"@,
            Product::CoinPerp => "coin_perp"@,
            Product::CoinFutures => "coin_futures"@,
        }
    }

    pub fn as_str(&self) -> (r: &'static str)
        ensures
            r@ == self.text(),
    {
        match self {
            Product::Spot => "spot",
            Product::UsdtPerp => "usdt_perp",
            Product::CoinPerp => "coin_perp",
            Product::CoinFutures => "coin_futures",
        }
    }
}

/// Runtime environment. Never collapse to a single `demo` boolean.
#[derive(Debug, Clone, Copy, PartialEq, Eq, Hash, Structural)]
pub enum Environment {
    ReplayBacktest,
    LocalPaper,
    ExchangeDemo,
    Live,
}

impl Environment {
    pub open spec fn text(self) -> Seq<char> {
        match self {
            Environment::ReplayBacktest => "replay_backtest"@,
            Environment::LocalPaper => "local_paper"@,
            Environment::ExchangeDemo => "exchange_demo"@,
            Environment::Live => "live"@,
        }
    }

    pub fn as_str(&self) -> (r: &'static str)
        ensures
            r@ == self.text(),
    {
        match self {
            Environment::ReplayBacktest => "replay_backtest",
            Environment::LocalPaper => "local_paper",
            Environment::ExchangeDemo => "exchange_demo",
            Environment::Live => "live",
        }
    }
}

/// Config identity triple: venue + product + environment.
#[derive(Debug, Clone, Copy, PartialEq, Eq, Hash, Structural)]
pub struct MarketContext {
    pub venue: Venue,
    pub product: Product,
    pub environment: Environment,
}

impl MarketContext {
    pub fn new(venue: Venue, product: Product, environment: Environment) -> (r: Self)
        ensures
            r == (MarketContext { venue, product, environment }),
    {
        MarketContext { venue, product, environment }
    }

    /// Whether orders are matched by the local engine.
    pub open spec fn simulated(self) -> bool {
        self.environment == Environment::ReplayBacktest || self.environment
            == Environment::LocalPaper
    }

    pub fn is_simulated_matching(&self) -> (r: bool)
        ensures
            r == self.simulated(),
    {
        matches!(self.environment, Environment::ReplayBacktest | Environment::LocalPaper)
    }

    /// Venue, product and environment with colons between them.
    pub fn to_text(&self) -> (r: String)
        ensures
            r@ == self.venue.text() + ":"@ + self.product.text() + (":"@
                + self.environment.text()),
    {
        let head = join3(self.venue.as_str(), ":", self.product.as_str());
        let tail = join2(":", self.environment.as_str());
        join2(head.as_str(), tail.as_str())
    }
}

/// Venues, products and environments are told apart by their names.
pub proof fn law_context_names_differ(a: MarketContext, b: MarketContext)
    ensures
        a.venue.text() == b.venue.text() ==> a.venue == b.venue,
        a.product.text() == b.product.text() ==> a.product == b.product,
        a.environment.text() == b.environment.text() ==> a.environment == b.environment,
{
    reveal_strlit("binance");
    reveal_strlit("okx");
    reveal_strlit("local_paper");
    reveal_strlit("spot");
    reveal_strlit("usdt_perp");
    reveal_strlit("coin_perp");
    reveal_strlit("coin_futures");
    reveal_strlit("replay_backtest");
    reveal_strlit("exchange_demo");
    reveal_strlit("live");
    assert("binance"@.len() == 7 && "okx"@.len() == 3 && "local_paper"@.len() == 11);
    assert("spot"@.len() == 4 && "usdt_perp"@.len() == 9 && "usdt_perp"@[0] == 'u');
    assert("coin_perp"@.len() == 9 && "coin_perp"@[0] == 'c' && "coin_futures"@.len() == 12);
    assert("replay_backtest"@.len() == 15 && "exchange_demo"@.len() == 13 && "live"@.len() == 4);
}

/// Orders are matched locally in a backtest and on paper, and nowhere else.
pub proof fn law_live_is_not_simulated(c: MarketContext)
    ensures
        c.environment == Environment::Live ==> !c.simulated(),
        c.environment == Environment::ExchangeDemo ==> !c.simulated(),
        c.environment == Environment::LocalPaper ==> c.simulated(),
        c.environment == Environment::ReplayBacktest ==> c.simulated(),
{
}

} // verus!

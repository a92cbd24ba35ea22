//! Decimal helpers. Price / qty / fees never use binary floating point.
//!
//! A [`Decimal`] holds the parts of a `rust_decimal::Decimal`: an integer of
//! at most 96 bits, the number of decimal places, and the sign (kept apart
//! because zero has one too). The arithmetic is done by `rust_decimal`.

use core::cmp::Ordering;
use vstd::arithmetic::div_mod::*;
use vstd::prelude::*;
use vstd::string::*;

use crate::text;
use crate::views;

verus! {

/// Largest magnitude of a mantissa: 96 bits.
pub const MAX_MANTISSA: i128 = 79_228_162_514_264_337_593_543_950_335;

/// Largest number of decimal places.
pub const MAX_SCALE: u32 = 28;

/// `10` to the power `n`.
pub open spec fn pow10(n: nat) -> nat
    decreases n,
{
    if n == 0 {
        1
    } else {
        10 * pow10((n - 1) as nat)
    }
}

/// The parts of a decimal number: its value is `mantissa / 10^scale`.
pub struct DecimalView {
    pub mantissa: int,
    pub scale: nat,
    /// Sign bit; zero may carry it as well.
    pub negative: bool,
}

/// The magnitude of an integer.
pub open spec fn magnitude(v: int) -> int {
    if v < 0 {
        -v
    } else {
        v
    }
}

/// Whether an integer fits into a mantissa.
pub open spec fn fits(v: int) -> bool {
    -MAX_MANTISSA <= v <= MAX_MANTISSA
}

impl DecimalView {
    /// A number with the sign that its mantissa has.
    pub open spec fn of(mantissa: int, scale: nat) -> DecimalView {
        DecimalView { mantissa, scale, negative: mantissa < 0 }
    }

    pub open spec fn zero() -> DecimalView {
        DecimalView::of(0, 0)
    }

    /// What every decimal number satisfies.
    pub open spec fn wf(self) -> bool {
        &&& fits(self.mantissa)
        &&& self.scale <= MAX_SCALE
        &&& self.mantissa < 0 ==> self.negative
        &&& self.mantissa > 0 ==> !self.negative
    }

    /// The value as a count of the smallest steps there are, `10^-28`.
    pub open spec fn units(self) -> int {
        self.mantissa * pow10((MAX_SCALE - self.scale) as nat)
    }

    pub open spec fn neg(self) -> DecimalView {
        DecimalView { mantissa: -self.mantissa, scale: self.scale, negative: !self.negative }
    }

    pub open spec fn abs(self) -> DecimalView {
        DecimalView {
            mantissa: if self.mantissa < 0 {
                -self.mantissa
            } else {
                self.mantissa
            },
            scale: self.scale,
            negative: false,
        }
    }

    /// The mantissa that the number has at `scale` decimal places.
    pub open spec fn at_scale(self, scale: nat) -> int {
        self.mantissa * pow10((scale - self.scale) as nat)
    }

    /// The number in decimal notation, with all its decimal places.
    pub open spec fn text(self) -> Seq<char> {
        let magnitude = self.abs().mantissa as nat;
        let sign = if self.negative {
            seq!['-']
        } else {
            Seq::<char>::empty()
        };
        let whole = text::nat_text(magnitude / pow10(self.scale));
        if self.scale == 0 {
            sign + whole
        } else {
            sign + whole + seq!['.'] + text::fixed_text(magnitude % pow10(self.scale), self.scale)
        }
    }
}

/// What `rust_decimal` makes of a sum that needs more than 96 bits: the sum
/// rounded to fewer decimal places, or nothing when it is too large for that.
pub uninterp spec fn rounded_sum(a: DecimalView, b: DecimalView) -> Option<DecimalView>;

/// What `rust_decimal` makes of a difference that needs more than 96 bits.
pub uninterp spec fn rounded_difference(a: DecimalView, b: DecimalView) -> Option<DecimalView>;

/// What `rust_decimal` makes of a product that needs more than 96 bits or
/// more than 28 decimal places.
pub uninterp spec fn rounded_product(a: DecimalView, b: DecimalView) -> Option<DecimalView>;

/// What `rust_decimal` makes of a quotient whose mantissas do not divide: the
/// quotient, rounded to fewer decimal places where it has too many, or nothing
/// when it is too large.
pub uninterp spec fn rounded_quotient(a: DecimalView, b: DecimalView) -> Option<DecimalView>;

/// The number that a text stands for, if it stands for one.
pub uninterp spec fn parsed_decimal(s: Seq<char>) -> Option<DecimalView>;

impl DecimalView {
    /// The larger of the two numbers of decimal places.
    pub open spec fn common_scale(self, other: DecimalView) -> nat {
        if self.scale >= other.scale {
            self.scale
        } else {
            other.scale
        }
    }

    /// Whether both numbers and their sum fit at the larger scale.
    pub open spec fn aligned(self, other: DecimalView) -> bool {
        let s = self.common_scale(other);
        &&& fits(self.at_scale(s))
        &&& fits(other.at_scale(s))
        &&& fits(self.at_scale(s) + other.at_scale(s))
    }

    /// Whether `self + other` needs no rounding.
    pub open spec fn adds_exactly(self, other: DecimalView) -> bool {
        self.mantissa == 0 || other.mantissa == 0 || self.aligned(other)
    }

    /// The sum at the larger scale; a zero gives back the other number.
    pub open spec fn exact_sum(self, other: DecimalView) -> DecimalView {
        let s = self.common_scale(other);
        if self.mantissa == 0 {
            other
        } else if other.mantissa == 0 {
            self
        } else {
            DecimalView::of(self.at_scale(s) + other.at_scale(s), s)
        }
    }

    /// `self + other`; nothing when the sum is out of range.
    pub open spec fn plus(self, other: DecimalView) -> Option<DecimalView> {
        if self.adds_exactly(other) {
            Some(self.exact_sum(other))
        } else {
            rounded_sum(self, other)
        }
    }

    /// Whether `self - other` needs no rounding.
    pub open spec fn subtracts_exactly(self, other: DecimalView) -> bool {
        self.mantissa == 0 || other.mantissa == 0 || self.aligned(other.neg())
    }

    /// The difference at the larger scale; zero minus zero is the second zero.
    pub open spec fn exact_difference(self, other: DecimalView) -> DecimalView {
        let s = self.common_scale(other);
        if self.mantissa == 0 {
            if other.mantissa == 0 {
                other
            } else {
                other.neg()
            }
        } else if other.mantissa == 0 {
            self
        } else {
            DecimalView::of(self.at_scale(s) - other.at_scale(s), s)
        }
    }

    /// `self - other`; nothing when the difference is out of range.
    pub open spec fn minus(self, other: DecimalView) -> Option<DecimalView> {
        if self.subtracts_exactly(other) {
            Some(self.exact_difference(other))
        } else {
            rounded_difference(self, other)
        }
    }

    /// Whether `self * other` needs no rounding.
    pub open spec fn multiplies_exactly(self, other: DecimalView) -> bool {
        ||| self.mantissa == 0
        ||| other.mantissa == 0
        ||| self.scale + other.scale <= MAX_SCALE && fits(self.mantissa * other.mantissa)
    }

    /// The product; plain zero when a factor is zero.
    pub open spec fn exact_product(self, other: DecimalView) -> DecimalView {
        if self.mantissa == 0 || other.mantissa == 0 {
            DecimalView::zero()
        } else {
            DecimalView::of(self.mantissa * other.mantissa, self.scale + other.scale)
        }
    }

    /// `self * other`; nothing when the product is out of range.
    pub open spec fn times(self, other: DecimalView) -> Option<DecimalView> {
        if self.multiplies_exactly(other) {
            Some(self.exact_product(other))
        } else {
            rounded_product(self, other)
        }
    }

    /// Whether the mantissas divide without a remainder. The divisor is not
    /// zero.
    pub open spec fn divides_evenly(self, other: DecimalView) -> bool {
        self.mantissa == 0 || self.abs().mantissa % other.abs().mantissa == 0
    }

    /// The quotient of mantissas that divide: plain zero when the dividend is
    /// zero, and nothing when a whole number would be too large.
    pub open spec fn even_quotient(self, other: DecimalView) -> Option<DecimalView> {
        let whole = self.abs().mantissa / other.abs().mantissa;
        let q = if self.negative == other.negative {
            whole
        } else {
            -whole
        };
        if self.mantissa == 0 {
            Some(DecimalView::zero())
        } else if self.scale >= other.scale {
            Some(DecimalView::of(q, (self.scale - other.scale) as nat))
        } else if fits(q * pow10((other.scale - self.scale) as nat)) {
            Some(DecimalView::of(q * pow10((other.scale - self.scale) as nat), 0))
        } else {
            None
        }
    }

    /// Whether `q` is `self / other`, exactly.
    pub open spec fn is_quotient(self, other: DecimalView, q: DecimalView) -> bool {
        self.mantissa * pow10(q.scale + other.scale) == q.mantissa * other.mantissa * pow10(
            self.scale,
        )
    }

    /// Whether `self / other` is a decimal number. The divisor is not zero.
    pub open spec fn has_quotient(self, other: DecimalView) -> bool {
        exists|q: DecimalView| q.wf() && #[trigger] self.is_quotient(other, q)
    }

    /// Whether `self / other` needs no rounding.
    pub open spec fn divides_exactly(self, other: DecimalView) -> bool {
        &&& other.mantissa != 0
        &&& if self.divides_evenly(other) {
            self.even_quotient(other) is Some
        } else {
            self.has_quotient(other)
        }
    }

    /// `self / other` where that is a decimal number, with as many decimal
    /// places as `rust_decimal` gives it.
    pub open spec fn exact_quotient(self, other: DecimalView) -> DecimalView {
        match rounded_quotient(self, other) {
            Some(q) if q.wf() && self.is_quotient(other, q) => q,
            _ => choose|q: DecimalView| q.wf() && #[trigger] self.is_quotient(other, q),
        }
    }

    /// `self / other`; nothing when `other` is zero or the quotient is out of
    /// range.
    pub open spec fn over(self, other: DecimalView) -> Option<DecimalView> {
        if other.mantissa == 0 {
            None
        } else if self.divides_evenly(other) {
            self.even_quotient(other)
        } else if self.has_quotient(other) {
            Some(self.exact_quotient(other))
        } else {
            rounded_quotient(self, other)
        }
    }

    /// Whether `q` is `self / other` to within half of its last decimal place.
    pub open spec fn nearest_quotient(self, other: DecimalView, q: DecimalView) -> bool {
        let p = pow10(self.scale) as int;
        2 * magnitude(
            self.mantissa * pow10(q.scale + other.scale) - q.mantissa * other.mantissa * p,
        ) <= magnitude(other.mantissa) * p
    }

    /// The whole part, towards zero; the sign stays.
    pub open spec fn whole(self) -> DecimalView {
        let m = self.abs().mantissa / (pow10(self.scale) as int);
        DecimalView {
            mantissa: if self.negative {
                -m
            } else {
                m
            },
            scale: 0,
            negative: self.negative,
        }
    }

    pub open spec fn lt(self, other: DecimalView) -> bool {
        self.units() < other.units()
    }

    pub open spec fn le(self, other: DecimalView) -> bool {
        self.units() <= other.units()
    }

    /// Whether the two numbers have the same value.
    pub open spec fn same(self, other: DecimalView) -> bool {
        self.units() == other.units()
    }

    /// The smaller of two numbers; the first when they are equal.
    pub open spec fn smaller(self, other: DecimalView) -> DecimalView {
        if other.lt(self) {
            other
        } else {
            self
        }
    }

    /// The larger of two numbers; the first when they are equal.
    pub open spec fn larger(self, other: DecimalView) -> DecimalView {
        if self.lt(other) {
            other
        } else {
            self
        }
    }

    pub open spec fn positive(self) -> bool {
        self.mantissa > 0
    }
}

/// A decimal number.
#[derive(Clone, Copy, Debug)]
pub struct Decimal {
    mantissa: i128,
    scale: u32,
    negative: bool,
}

pub type Dec = Decimal;

pub type Qty = Decimal;

impl View for Decimal {
    type V = DecimalView;

    closed spec fn view(&self) -> DecimalView {
        DecimalView {
            mantissa: self.mantissa as int,
            scale: self.scale as nat,
            negative: self.negative,
        }
    }
}

/// The order of two numbers by value.
pub open spec fn order_of(a: DecimalView, b: DecimalView) -> Ordering {
    if a.units() < b.units() {
        Ordering::Less
    } else if a.units() == b.units() {
        Ordering::Equal
    } else {
        Ordering::Greater
    }
}

/// Calls `<rust_decimal::Decimal as Ord>::cmp`: the order of the two values,
/// whatever their scales.
#[verifier::external_body]
fn compare(a: &Decimal, b: &Decimal) -> (r: Ordering)
    ensures
        r == order_of(a@, b@),
{
    let x = rust_decimal::Decimal::from_i128_with_scale(a.mantissa, a.scale);
    let y = rust_decimal::Decimal::from_i128_with_scale(b.mantissa, b.scale);
    x.cmp(&y)
}

/// Calls `rust_decimal::Decimal::checked_add`: the exact sum at the larger
/// scale where it fits (a zero operand gives back the other one), otherwise
/// the rounded sum, and `None` on overflow.
#[verifier::external_body]
fn outside_add(a: Decimal, b: Decimal) -> (r: Option<Decimal>)
    ensures
        a@.adds_exactly(b@) ==> views::opt_view(r) == Some(a@.exact_sum(b@)),
        !a@.adds_exactly(b@) ==> views::opt_view(r) == rounded_sum(a@, b@),
{
    let mut x = rust_decimal::Decimal::from_i128_with_scale(a.mantissa, a.scale);
    x.set_sign_negative(a.negative);
    let mut y = rust_decimal::Decimal::from_i128_with_scale(b.mantissa, b.scale);
    y.set_sign_negative(b.negative);
    match x.checked_add(y) {
        Some(d) => Some(
            Decimal { mantissa: d.mantissa(), scale: d.scale(), negative: d.is_sign_negative() },
        ),
        None => None,
    }
}

/// Calls `rust_decimal::Decimal::checked_sub`: the exact difference at the
/// larger scale where it fits, otherwise the rounded one, and `None` on
/// overflow.
#[verifier::external_body]
fn outside_sub(a: Decimal, b: Decimal) -> (r: Option<Decimal>)
    ensures
        a@.subtracts_exactly(b@) ==> views::opt_view(r) == Some(a@.exact_difference(b@)),
        !a@.subtracts_exactly(b@) ==> views::opt_view(r) == rounded_difference(a@, b@),
{
    let mut x = rust_decimal::Decimal::from_i128_with_scale(a.mantissa, a.scale);
    x.set_sign_negative(a.negative);
    let mut y = rust_decimal::Decimal::from_i128_with_scale(b.mantissa, b.scale);
    y.set_sign_negative(b.negative);
    match x.checked_sub(y) {
        Some(d) => Some(
            Decimal { mantissa: d.mantissa(), scale: d.scale(), negative: d.is_sign_negative() },
        ),
        None => None,
    }
}

/// Calls `rust_decimal::Decimal::checked_mul`: plain zero when a factor is
/// zero, the exact product where mantissa and scale fit, otherwise the
/// rounded one, and `None` on overflow.
#[verifier::external_body]
fn outside_mul(a: Decimal, b: Decimal) -> (r: Option<Decimal>)
    ensures
        a@.multiplies_exactly(b@) ==> views::opt_view(r) == Some(a@.exact_product(b@)),
        !a@.multiplies_exactly(b@) ==> views::opt_view(r) == rounded_product(a@, b@),
{
    let mut x = rust_decimal::Decimal::from_i128_with_scale(a.mantissa, a.scale);
    x.set_sign_negative(a.negative);
    let mut y = rust_decimal::Decimal::from_i128_with_scale(b.mantissa, b.scale);
    y.set_sign_negative(b.negative);
    match x.checked_mul(y) {
        Some(d) => Some(
            Decimal { mantissa: d.mantissa(), scale: d.scale(), negative: d.is_sign_negative() },
        ),
        None => None,
    }
}

/// Calls `rust_decimal::Decimal::checked_div`: `None` for a zero divisor and
/// on overflow, plain zero for a zero dividend. Where the mantissas divide, their
/// quotient, as a whole number when the scale would become negative. Otherwise a
/// quotient that depends on the two numbers alone: the exact one where that is a
/// decimal number, else one that is off by at most half of its last decimal
/// place. How many decimal places it has is not said.
#[verifier::external_body]
fn outside_div(a: Decimal, b: Decimal) -> (r: Option<Decimal>)
    ensures
        b@.mantissa == 0 ==> r is None,
        b@.mantissa != 0 && a@.divides_evenly(b@) ==> views::opt_view(r) == a@.even_quotient(b@),
        b@.mantissa != 0 && !a@.divides_evenly(b@) ==> views::opt_view(r) == rounded_quotient(a@, b@),
        b@.mantissa != 0 && a@.has_quotient(b@) ==> r is Some && a@.is_quotient(b@, r->0@),
        r matches Some(q) ==> a@.nearest_quotient(b@, q@),
{
    let mut x = rust_decimal::Decimal::from_i128_with_scale(a.mantissa, a.scale);
    x.set_sign_negative(a.negative);
    let mut y = rust_decimal::Decimal::from_i128_with_scale(b.mantissa, b.scale);
    y.set_sign_negative(b.negative);
    match x.checked_div(y) {
        Some(d) => Some(
            Decimal { mantissa: d.mantissa(), scale: d.scale(), negative: d.is_sign_negative() },
        ),
        None => None,
    }
}

/// Calls `rust_decimal::Decimal::trunc`: the fractional digits are dropped,
/// the sign stays.
#[verifier::external_body]
fn outside_trunc(a: Decimal) -> (r: Decimal)
    ensures
        r@ == a@.whole(),
{
    let mut x = rust_decimal::Decimal::from_i128_with_scale(a.mantissa, a.scale);
    x.set_sign_negative(a.negative);
    let d = x.trunc();
    Decimal { mantissa: d.mantissa(), scale: d.scale(), negative: d.is_sign_negative() }
}

/// Calls `<rust_decimal::Decimal as Display>` through `to_string`: sign, whole
/// part and all decimal places.
#[verifier::external_body]
fn outside_text(a: &Decimal) -> (r: String)
    ensures
        r@ == a@.text(),
{
    let mut x = rust_decimal::Decimal::from_i128_with_scale(a.mantissa, a.scale);
    x.set_sign_negative(a.negative);
    x.to_string()
}

/// Calls `<rust_decimal::Decimal as FromStr>::from_str`. The number depends on
/// the text alone, and the notation of a number gives that number back (a
/// negative zero comes back without its sign).
#[verifier::external_body]
fn outside_parse(s: &str) -> (r: Option<Decimal>)
    ensures
        views::opt_view(r) == parsed_decimal(s@),
        forall|d: DecimalView|
            d.wf() && s@ == #[trigger] d.text() ==> views::opt_view(r) == Some(
                DecimalView::of(d.mantissa, d.scale),
            ),
{
    match <rust_decimal::Decimal as core::str::FromStr>::from_str(s) {
        Ok(d) => Some(
            Decimal { mantissa: d.mantissa(), scale: d.scale(), negative: d.is_sign_negative() },
        ),
        Err(_) => None,
    }
}

impl Decimal {
    /// The range and sign that every number has.
    #[verifier::type_invariant]
    pub open spec fn inv(self) -> bool {
        self@.wf()
    }

    /// `num / 10^scale`.
    pub fn new(num: i64, scale: u32) -> (r: Self)
        requires
            scale <= MAX_SCALE,
        ensures
            r@ == DecimalView::of(num as int, scale as nat),
    {
        Decimal { mantissa: num as i128, scale, negative: num < 0 }
    }

    pub fn zero() -> (r: Self)
        ensures
            r@ == DecimalView::zero(),
    {
        Decimal { mantissa: 0, scale: 0, negative: false }
    }

    pub fn one() -> (r: Self)
        ensures
            r@ == DecimalView::of(1, 0),
    {
        Decimal { mantissa: 1, scale: 0, negative: false }
    }

    pub fn two() -> (r: Self)
        ensures
            r@ == DecimalView::of(2, 0),
    {
        Decimal { mantissa: 2, scale: 0, negative: false }
    }

    /// The number that `s` stands for.
    pub fn parse(s: &str) -> (r: Option<Self>)
        ensures
            views::opt_view(r) == parsed_decimal(s@),
            forall|d: DecimalView|
                d.wf() && s@ == #[trigger] d.text() ==> views::opt_view(r) == Some(
                    DecimalView::of(d.mantissa, d.scale),
                ),
    {
        outside_parse(s)
    }

    /// The number in decimal notation.
    pub fn to_text(&self) -> (r: String)
        ensures
            r@ == self@.text(),
    {
        outside_text(self)
    }

    pub fn is_zero(&self) -> (r: bool)
        ensures
            r == (self@.mantissa == 0),
    {
        self.mantissa == 0
    }

    pub fn negated(self) -> (r: Self)
        ensures
            r@ == self@.neg(),
    {
        proof {
            use_type_invariant(&self);
        }
        Decimal { mantissa: -self.mantissa, scale: self.scale, negative: !self.negative }
    }

    pub fn abs(self) -> (r: Self)
        ensures
            r@ == self@.abs(),
    {
        proof {
            use_type_invariant(&self);
        }
        Decimal {
            mantissa: if self.mantissa < 0 {
                -self.mantissa
            } else {
                self.mantissa
            },
            scale: self.scale,
            negative: false,
        }
    }

    pub fn checked_add(self, other: Self) -> (r: Option<Self>)
        ensures
            views::opt_view(r) == self@.plus(other@),
    {
        outside_add(self, other)
    }

    pub fn checked_sub(self, other: Self) -> (r: Option<Self>)
        ensures
            views::opt_view(r) == self@.minus(other@),
    {
        outside_sub(self, other)
    }

    pub fn checked_mul(self, other: Self) -> (r: Option<Self>)
        ensures
            views::opt_view(r) == self@.times(other@),
    {
        outside_mul(self, other)
    }

    pub fn checked_div(self, other: Self) -> (r: Option<Self>)
        ensures
            views::opt_view(r) == self@.over(other@),
            r matches Some(q) ==> self@.nearest_quotient(other@, q@),
            other@.mantissa != 0 && self@.has_quotient(other@) ==> (r matches Some(q)
                && self@.is_quotient(other@, q@)),
    {
        let r = outside_div(self, other);
        proof {
            if let Some(q) = r {
                use_type_invariant(&q);
            }
        }
        r
    }

    pub fn trunc(self) -> (r: Self)
        ensures
            r@ == self@.whole(),
    {
        outside_trunc(self)
    }

    pub fn min(self, other: Self) -> (r: Self)
        ensures
            r@ == self@.smaller(other@),
    {
        if self > other {
            other
        } else {
            self
        }
    }

    pub fn max(self, other: Self) -> (r: Self)
        ensures
            r@ == self@.larger(other@),
    {
        if self < other {
            other
        } else {
            self
        }
    }
}

impl PartialEq for Decimal {
    fn eq(&self, other: &Self) -> (r: bool) {
        match compare(self, other) {
            Ordering::Equal => true,
            _ => false,
        }
    }
}

impl vstd::std_specs::cmp::PartialEqSpecImpl for Decimal {
    open spec fn obeys_eq_spec() -> bool {
        true
    }

    open spec fn eq_spec(&self, other: &Self) -> bool {
        self@.units() == other@.units()
    }
}

impl Eq for Decimal {

}

impl PartialOrd for Decimal {
    fn partial_cmp(&self, other: &Self) -> (r: Option<Ordering>) {
        Some(compare(self, other))
    }
}

impl vstd::std_specs::cmp::PartialOrdSpecImpl for Decimal {
    open spec fn obeys_partial_cmp_spec() -> bool {
        true
    }

    open spec fn partial_cmp_spec(&self, other: &Self) -> Option<Ordering> {
        Some(order_of(self@, other@))
    }
}

impl Default for Decimal {
    fn default() -> (r: Self)
        ensures
            r@ == DecimalView::zero(),
    {
        Decimal::zero()
    }
}

/// The multiple of `step` next to `value` towards zero, as the quotient gives
/// it: when the quotient was rounded up past a whole number, one step less.
/// Nothing when an intermediate result is out of range.
pub open spec fn step_multiple(value: DecimalView, step: DecimalView) -> Option<DecimalView> {
    match value.over(step) {
        None => None,
        Some(q) => match q.whole().times(step) {
            None => None,
            Some(m) => if value.abs().lt(m.abs()) {
                one_less(q.whole(), step)
            } else {
                Some(m)
            },
        },
    }
}

/// `step` times the whole number next to `count` towards zero.
pub open spec fn one_less(count: DecimalView, step: DecimalView) -> Option<DecimalView> {
    let one = if count.negative {
        DecimalView::of(-1, 0)
    } else {
        DecimalView::of(1, 0)
    };
    match count.minus(one) {
        None => None,
        Some(c) => c.times(step),
    }
}

/// The multiple of `step` next to `value` towards zero, counted in smallest
/// steps.
pub open spec fn towards_zero(value: int, step: int) -> int {
    if value < 0 {
        -((-value) / step * step)
    } else {
        value / step * step
    }
}

/// Whether the quotient is in range and its whole part times `step` needs no
/// rounding.
pub open spec fn steps_fit(value: DecimalView, step: DecimalView) -> bool {
    value.over(step) matches Some(q) && q.whole().multiplies_exactly(step)
}

/// Round toward zero to a multiple of `step` (tick size / qty step), or say
/// with an outer `None` that a number on the way is out of range.
pub fn try_round_to_step(value: Decimal, step: Decimal) -> (r: Option<Option<Decimal>>)
    ensures
        !step@.positive() ==> r == Some(None::<Decimal>),
        step@.positive() && step_multiple(value@, step@) is None ==> r is None,
        step@.positive() && step_multiple(value@, step@) is Some ==> (r matches Some(o)
            && views::opt_view(o) == step_multiple(value@, step@)),
        step@.positive() && steps_fit(value@, step@) ==> (r matches Some(Some(m)) && m@.units()
            == towards_zero(value@.units(), step@.units())),
{
    proof {
        use_type_invariant(&value);
        use_type_invariant(&step);
        lemma_sign_of_units(step@);
    }
    if step <= Decimal::zero() {
        return Some(None);
    }
    let q = value.checked_div(step)?;
    proof {
        use_type_invariant(&q);
        if q@.whole().multiplies_exactly(step@) {
            lemma_step_multiple(value@, step@, q@);
        }
    }
    let count = q.trunc();
    let m = count.checked_mul(step)?;
    if m.abs() > value.abs() {
        let one = if count.negative {
            Decimal::one().negated()
        } else {
            Decimal::one()
        };
        let c = count.checked_sub(one)?;
        let r = c.checked_mul(step)?;
        Some(Some(r))
    } else {
        Some(Some(m))
    }
}

/// Round toward zero to a multiple of `step` (tick size / qty step).
pub fn round_to_step(value: Decimal, step: Decimal) -> (r: Option<Decimal>)
    requires
        step@.positive() ==> step_multiple(value@, step@) is Some,
    ensures
        !step@.positive() ==> r is None,
        step@.positive() ==> views::opt_view(r) == step_multiple(value@, step@),
        step@.positive() && steps_fit(value@, step@) ==> (r matches Some(m) && m@.units()
            == towards_zero(value@.units(), step@.units())),
{
    try_round_to_step(value, step).unwrap()
}

/// Whether `value` is a multiple of `step`, as far as the numbers on the way
/// are in range.
pub open spec fn multiple_of(value: DecimalView, step: DecimalView) -> bool {
    step.positive() && (step_multiple(value, step) matches Some(m) && m.same(value))
}

pub fn try_is_multiple_of(value: Decimal, step: Decimal) -> (r: Option<bool>)
    ensures
        r is None <==> step@.positive() && step_multiple(value@, step@) is None,
        r matches Some(b) ==> b == multiple_of(value@, step@),
        step@.positive() && steps_fit(value@, step@) ==> r == Some(
            value@.units() % step@.units() == 0,
        ),
{
    proof {
        use_type_invariant(&step);
        lemma_sign_of_units(step@);
        if step@.positive() {
            lemma_whole_steps(value@.units(), step@.units());
        }
    }
    match try_round_to_step(value, step)? {
        Some(m) => Some(m == value),
        None => Some(false),
    }
}

pub fn is_multiple_of(value: Decimal, step: Decimal) -> (r: bool)
    requires
        step@.positive() ==> step_multiple(value@, step@) is Some,
    ensures
        r == multiple_of(value@, step@),
        step@.positive() && steps_fit(value@, step@) ==> r == (value@.units() % step@.units() == 0),
{
    try_is_multiple_of(value, step).unwrap()
}

pub proof fn lemma_pow10_positive(n: nat)
    ensures
        pow10(n) >= 1,
    decreases n,
{
    if n > 0 {
        lemma_pow10_positive((n - 1) as nat);
    }
}

pub proof fn lemma_pow10_adds(m: nat, n: nat)
    ensures
        pow10(m + n) == pow10(m) * pow10(n),
    decreases m,
{
    if m > 0 {
        lemma_pow10_adds((m - 1) as nat, n);
        assert((m + n - 1) as nat == (m - 1) as nat + n);
        assert(10 * (pow10((m - 1) as nat) * pow10(n)) == (10 * pow10((m - 1) as nat)) * pow10(n))
            by (nonlinear_arith);
    } else {
        assert(pow10(0) == 1);
    }
}

/// A number and its count of smallest steps have the same sign.
pub proof fn lemma_sign_of_units(a: DecimalView)
    ensures
        a.units() > 0 <==> a.mantissa > 0,
        a.units() == 0 <==> a.mantissa == 0,
        DecimalView::zero().units() == 0,
{
    let p = pow10((MAX_SCALE - a.scale) as nat) as int;
    lemma_pow10_positive((MAX_SCALE - a.scale) as nat);
    assert((a.mantissa * p > 0 <==> a.mantissa > 0) && (a.mantissa * p == 0 <==> a.mantissa == 0))
        by (nonlinear_arith)
        requires
            p >= 1,
    ;
    let z = pow10((MAX_SCALE - DecimalView::zero().scale) as nat) as int;
    assert(0 * z == 0) by (nonlinear_arith);
}

/// The mantissa at a larger scale stands for the same value.
proof fn lemma_at_scale(a: DecimalView, s: nat)
    requires
        a.scale <= s <= MAX_SCALE,
    ensures
        a.at_scale(s) * pow10((MAX_SCALE - s) as nat) == a.units(),
{
    let x = (s - a.scale) as nat;
    let y = (MAX_SCALE - s) as nat;
    lemma_pow10_adds(x, y);
    assert(x + y == (MAX_SCALE - a.scale) as nat);
    assert((a.mantissa * pow10(x)) * pow10(y) == a.mantissa * (pow10(x) * pow10(y)))
        by (nonlinear_arith);
}

/// Negating a number negates its value.
pub proof fn lemma_neg_units(a: DecimalView)
    ensures
        a.neg().units() == -a.units(),
{
    let p = pow10((MAX_SCALE - a.scale) as nat) as int;
    assert((-a.mantissa) * p == -(a.mantissa * p)) by (nonlinear_arith);
}

/// The magnitude of a number is the magnitude of its value.
pub proof fn lemma_abs_units(a: DecimalView)
    ensures
        a.abs().units() == if a.units() < 0 {
            -a.units()
        } else {
            a.units()
        },
{
    lemma_neg_units(a);
    lemma_sign_of_units(a);
}

/// A sum that needs no rounding has the sum of the values.
pub proof fn lemma_exact_sum(a: DecimalView, b: DecimalView)
    requires
        a.wf(),
        b.wf(),
        a.adds_exactly(b),
    ensures
        a.plus(b) == Some(a.exact_sum(b)),
        a.exact_sum(b).wf(),
        a.exact_sum(b).units() == a.units() + b.units(),
{
    lemma_sign_of_units(a);
    lemma_sign_of_units(b);
    let s = a.common_scale(b);
    lemma_at_scale(a, s);
    lemma_at_scale(b, s);
    let p = pow10((MAX_SCALE - s) as nat) as int;
    assert((a.at_scale(s) + b.at_scale(s)) * p == a.at_scale(s) * p + b.at_scale(s) * p)
        by (nonlinear_arith);
}

/// A product that needs no rounding has the product of the values.
pub proof fn law_product_is_exact(a: DecimalView, b: DecimalView)
    requires
        a.wf(),
        b.wf(),
        a.multiplies_exactly(b),
    ensures
        a.times(b) is Some,
        (a.times(b)->0).wf(),
        (a.times(b)->0).units() * pow10(28) == a.units() * b.units(),
{
    lemma_sign_of_units(a);
    lemma_sign_of_units(b);
    let p = a.times(b)->0;
    let one = pow10(28) as int;
    if a.mantissa == 0 || b.mantissa == 0 {
        lemma_sign_of_units(DecimalView::zero());
        assert(a.units() * b.units() == 0) by (nonlinear_arith)
            requires
                a.units() == 0 || b.units() == 0,
        ;
        assert(p.units() * one == 0) by (nonlinear_arith)
            requires
                p.units() == 0,
        ;
    } else {
        let sa = (MAX_SCALE - a.scale) as nat;
        let sb = (MAX_SCALE - b.scale) as nat;
        let sp = (MAX_SCALE - p.scale) as nat;
        lemma_pow10_adds(sa, sb);
        lemma_pow10_adds(sp, 28);
        assert(sa + sb == sp + 28);
        let x = pow10(sa) as int;
        let y = pow10(sb) as int;
        let z = pow10(sp) as int;
        let m = a.mantissa;
        let n = b.mantissa;
        assert((m * x) * (n * y) == (m * n) * (x * y)) by (nonlinear_arith);
        assert(((m * n) * z) * one == (m * n) * (z * one)) by (nonlinear_arith);
    }
}

/// A difference that needs no rounding has the difference of the values.
pub proof fn lemma_exact_difference(a: DecimalView, b: DecimalView)
    requires
        a.wf(),
        b.wf(),
        a.subtracts_exactly(b),
    ensures
        a.minus(b) == Some(a.exact_difference(b)),
        a.exact_difference(b).wf(),
        a.exact_difference(b).units() == a.units() - b.units(),
{
    lemma_neg_units(b);
    lemma_sign_of_units(a);
    lemma_sign_of_units(b);
    let s = a.common_scale(b);
    lemma_at_scale(a, s);
    lemma_at_scale(b, s);
    let p = pow10((MAX_SCALE - s) as nat) as int;
    let q = pow10((s - b.scale) as nat) as int;
    assert((a.at_scale(s) - b.at_scale(s)) * p == a.at_scale(s) * p - b.at_scale(s) * p)
        by (nonlinear_arith);
    assert((-b.mantissa) * q == -(b.mantissa * q)) by (nonlinear_arith);
    assert(a.common_scale(b.neg()) == s);
    assert(b.neg().at_scale(s) == -b.at_scale(s));
}

/// Mantissas that divide give the exact quotient.
proof fn lemma_even_quotient(a: DecimalView, b: DecimalView)
    requires
        a.wf(),
        b.wf(),
        b.mantissa != 0,
        a.divides_evenly(b),
        a.even_quotient(b) is Some,
    ensures
        a.even_quotient(b)->0.wf(),
        a.is_quotient(b, a.even_quotient(b)->0),
{
    let q = a.even_quotient(b)->0;
    let n = a.abs().mantissa;
    let d = b.abs().mantissa;
    let whole = n / d;
    lemma_pow10_positive(a.scale);
    if a.mantissa == 0 {
        assert(0 * pow10(q.scale + b.scale) == 0 && 0 * b.mantissa * pow10(a.scale) == 0)
            by (nonlinear_arith);
    } else {
        lemma_fundamental_div_mod(n, d);
        assert(whole * d == n) by (nonlinear_arith)
            requires
                n == d * whole + n % d,
                n % d == 0,
        ;
        assert(0 <= whole <= n) by (nonlinear_arith)
            requires
                whole * d == n,
                d >= 1,
                n >= 1,
        ;
        let m = if a.negative == b.negative {
            whole
        } else {
            -whole
        };
        assert(m * b.mantissa == a.mantissa) by {
            assert((-whole) * d == -(whole * d) && whole * (-d) == -(whole * d) && (-whole) * (-d)
                == whole * d) by (nonlinear_arith);
        }
        if a.scale >= b.scale {
            assert(q.scale + b.scale == a.scale);
        } else {
            let up = (b.scale - a.scale) as nat;
            lemma_pow10_adds(up, a.scale);
            assert(up + a.scale == b.scale);
            assert(a.mantissa * (pow10(up) * pow10(a.scale)) == (m * pow10(up)) * b.mantissa
                * pow10(a.scale)) by (nonlinear_arith)
                requires
                    m * b.mantissa == a.mantissa,
            ;
            assert(q.mantissa == m * pow10(up));
        }
    }
}

/// What an exact quotient is worth.
proof fn lemma_quotient_units(a: DecimalView, b: DecimalView, q: DecimalView)
    requires
        a.wf(),
        b.wf(),
        q.wf(),
        a.is_quotient(b, q),
    ensures
        q.units() * b.units() == a.units() * pow10(MAX_SCALE as nat),
{
    let top = MAX_SCALE as nat;
    let (pa, pb, pq) = (pow10(a.scale) as int, pow10(b.scale) as int, pow10(q.scale) as int);
    let ra = pow10((MAX_SCALE - a.scale) as nat) as int;
    let rb = pow10((MAX_SCALE - b.scale) as nat) as int;
    let rq = pow10((MAX_SCALE - q.scale) as nat) as int;
    let t = pow10(top) as int;
    lemma_pow10_adds(a.scale, (MAX_SCALE - a.scale) as nat);
    lemma_pow10_adds(b.scale, (MAX_SCALE - b.scale) as nat);
    lemma_pow10_adds(q.scale, (MAX_SCALE - q.scale) as nat);
    lemma_pow10_adds(q.scale, b.scale);
    lemma_pow10_positive(a.scale);
    lemma_pow10_positive(b.scale);
    lemma_pow10_positive(q.scale);
    let left = q.units() * b.units();
    let right = a.units() * t;
    let k = pa * (pq * pb);
    let (x, y, z) = (a.mantissa, b.mantissa, q.mantissa);
    let (u, v) = (z * rq, y * rb);
    assert((z * rq) * pq == z * (pq * rq)) by (nonlinear_arith);
    assert((y * rb) * pb == y * (pb * rb)) by (nonlinear_arith);
    assert((u * v) * (pa * (pq * pb)) == pa * ((u * pq) * (v * pb))) by (nonlinear_arith);
    assert(pa * ((z * t) * (y * t)) == (z * y * pa) * (t * t)) by (nonlinear_arith);
    assert(left * k == (z * y * pa) * (t * t));
    assert(((x * ra) * t) * (pa * (pq * pb)) == (x * (pq * pb)) * ((pa * ra) * t))
        by (nonlinear_arith);
    assert(right * k == (x * (pq * pb)) * (t * t));
    assert(k >= 1) by (nonlinear_arith)
        requires
            pa >= 1,
            pb >= 1,
            pq >= 1,
            k == pa * (pq * pb),
    ;
    assert(left == right) by (nonlinear_arith)
        requires
            left * k == right * k,
            k >= 1,
    ;
}

/// Division is exact wherever the quotient is a decimal number: the quotient
/// times the divisor is the dividend.
pub proof fn law_quotient_is_exact(a: DecimalView, b: DecimalView)
    requires
        a.wf(),
        b.wf(),
        b.mantissa != 0,
        if a.divides_evenly(b) {
            a.even_quotient(b) is Some
        } else {
            a.has_quotient(b)
        },
    ensures
        a.over(b) matches Some(q) && {
            &&& q.wf()
            &&& a.is_quotient(b, q)
            &&& q.units() * b.units() == a.units() * pow10(MAX_SCALE as nat)
        },
{
    if a.divides_evenly(b) {
        lemma_even_quotient(a, b);
    }
    lemma_quotient_units(a, b, a.over(b)->0);
}

/// Rounding to a step is exact wherever the number of steps is a decimal number
/// and its whole part times the step needs no rounding: the next multiple
/// towards zero, and the number itself just where it is a multiple.
pub proof fn law_steps_are_exact(value: DecimalView, step: DecimalView)
    requires
        value.wf(),
        step.wf(),
        step.positive(),
        if value.divides_evenly(step) {
            value.even_quotient(step) is Some
        } else {
            value.has_quotient(step)
        },
        steps_fit(value, step),
    ensures
        step_multiple(value, step) matches Some(m) && m.units() == towards_zero(
            value.units(),
            step.units(),
        ),
        multiple_of(value, step) <==> value.units() % step.units() == 0,
{
    law_quotient_is_exact(value, step);
    let q = value.over(step)->0;
    lemma_pow10_positive(value.scale);
    assert(magnitude(step.mantissa) * pow10(value.scale) >= 0) by (nonlinear_arith)
        requires
            magnitude(step.mantissa) >= 0,
            pow10(value.scale) >= 1,
    ;
    lemma_step_multiple(value, step, q);
    lemma_sign_of_units(step);
    lemma_whole_steps(value.units(), step.units());
}

/// Half of a number is exact where it has room for one more decimal place.
pub proof fn law_half_is_exact(a: DecimalView)
    requires
        a.wf(),
        a.scale < MAX_SCALE,
        fits(5 * a.mantissa),
    ensures
        a.over(DecimalView::of(2, 0)) matches Some(h) && h.wf() && 2 * h.units() == a.units(),
{
    let two = DecimalView::of(2, 0);
    let h = DecimalView::of(5 * a.mantissa, a.scale + 1);
    assert(pow10(a.scale + 1) == 10 * pow10(a.scale));
    assert(a.mantissa * (10 * pow10(a.scale)) == (5 * a.mantissa) * 2 * pow10(a.scale))
        by (nonlinear_arith);
    assert(a.is_quotient(two, h));
    law_quotient_is_exact(a, two);
    let q = a.over(two)->0;
    let t = pow10(MAX_SCALE as nat) as int;
    lemma_pow10_positive(MAX_SCALE as nat);
    assert(two.units() == 2 * t);
    assert(2 * q.units() == a.units()) by (nonlinear_arith)
        requires
            q.units() * two.units() == a.units() * t,
            two.units() == 2 * t,
            t >= 1,
    ;
}

/// A number that is a multiple of a step is not changed by rounding, and only
/// such a number is not.
proof fn lemma_whole_steps(v: int, u: int)
    requires
        u > 0,
    ensures
        towards_zero(v, u) == v <==> v % u == 0,
{
    lemma_fundamental_div_mod(v, u);
    lemma_fundamental_div_mod(-v, u);
    let k = v / u;
    let j = (-v) / u;
    assert(k * u == u * k && j * u == u * j && (-k) * u == -(k * u) && (-j) * u == -(j * u))
        by (nonlinear_arith);
    if v < 0 && v % u == 0 {
        lemma_fundamental_div_mod_converse(-v, u, -k, 0);
    }
    if v < 0 && (-v) % u == 0 {
        lemma_fundamental_div_mod_converse(v, u, -j, 0);
    }
}

/// `v` lies between `n` and `n + 1` steps, so that rounding gives `n` steps.
proof fn lemma_between(v: int, u: int, n: int)
    requires
        u > 0,
        n >= 0,
        n * u <= v < (n + 1) * u,
    ensures
        v / u == n,
{
    assert(v / u == n) by (nonlinear_arith)
        requires
            u > 0,
            n * u <= v < (n + 1) * u,
    ;
}

/// The whole part of a quotient that is off by at most half of its last
/// decimal place: the dividend is less than one step away from it.
proof fn lemma_whole_quotient(value: DecimalView, step: DecimalView, q: DecimalView)
    requires
        value.wf(),
        step.wf(),
        step.positive(),
        value.nearest_quotient(step, q),
    ensures
        (q.whole().abs().mantissa - 1) * step.units() < value.abs().units(),
        value.abs().units() < (q.whole().abs().mantissa + 1) * step.units(),
        q.mantissa > 0 ==> value.mantissa > 0,
        q.mantissa < 0 ==> value.mantissa < 0,
{
    let big_a = pow10(value.scale) as int;
    let big_b = pow10(step.scale) as int;
    let big_d = pow10(q.scale) as int;
    let va = value.abs().mantissa;
    let qa = q.abs().mantissa;
    let bm = step.mantissa;
    lemma_pow10_positive(value.scale);
    lemma_pow10_positive(step.scale);
    lemma_pow10_positive(q.scale);
    lemma_pow10_adds(q.scale, step.scale);
    let x = va * big_b;
    let y = bm * big_a;
    assert(y >= 1) by (nonlinear_arith)
        requires
            bm >= 1,
            big_a >= 1,
            y == bm * big_a,
    ;
    // the bound, with the scales multiplied out
    let sx = value.mantissa * big_b;
    assert(value.mantissa * (big_d * big_b) == sx * big_d) by (nonlinear_arith)
        requires
            sx == value.mantissa * big_b,
    ;
    assert(q.mantissa * bm * big_a == q.mantissa * y) by (nonlinear_arith)
        requires
            y == bm * big_a,
    ;
    assert(2 * magnitude(sx * big_d - q.mantissa * y) <= y);
    assert(q.mantissa > 0 ==> value.mantissa > 0) by {
        if q.mantissa > 0 && value.mantissa <= 0 {
            assert(sx * big_d <= 0 && q.mantissa * y >= y) by (nonlinear_arith)
                requires
                    sx == value.mantissa * big_b,
                    value.mantissa <= 0,
                    big_b >= 1,
                    big_d >= 1,
                    q.mantissa >= 1,
                    y >= 1,
            ;
        }
    }
    assert(q.mantissa < 0 ==> value.mantissa < 0) by {
        if q.mantissa < 0 && value.mantissa >= 0 {
            assert(sx * big_d >= 0 && q.mantissa * y <= -y) by (nonlinear_arith)
                requires
                    sx == value.mantissa * big_b,
                    value.mantissa >= 0,
                    big_b >= 1,
                    big_d >= 1,
                    q.mantissa <= -1,
                    y >= 1,
            ;
        }
    }
    assert(2 * magnitude(x * big_d - qa * y) <= y) by {
        if value.mantissa < 0 {
            assert(sx * big_d == -(x * big_d)) by (nonlinear_arith)
                requires
                    sx == value.mantissa * big_b,
                    x == va * big_b,
                    va == -value.mantissa,
            ;
            assert(q.mantissa * y == -(qa * y)) by (nonlinear_arith)
                requires
                    qa == -q.mantissa,
            ;
        } else if value.mantissa == 0 {
            assert(0 * big_b == 0) by (nonlinear_arith);
        }
    }
    // the whole part of the quotient
    let n = qa / big_d;
    assert(n >= 0 && n * big_d <= qa < n * big_d + big_d) by (nonlinear_arith)
        requires
            qa >= 0,
            big_d >= 1,
            n == qa / big_d,
    ;
    assert(q.whole().abs().mantissa == n);
    assert(x < (n + 1) * y) by (nonlinear_arith)
        requires
            2 * (x * big_d - qa * y) <= y,
            qa + 1 <= n * big_d + big_d,
            big_d >= 1,
            y >= 1,
    {
        assert(qa + 1 <= (n + 1) * big_d);
        assert(2 * (x * big_d) <= (2 * qa + 1) * y);
        assert((2 * qa + 1) * y < (2 * qa + 2) * y);
        assert((2 * qa + 2) * y <= 2 * ((n + 1) * big_d) * y);
        assert(2 * ((n + 1) * big_d) * y == 2 * (((n + 1) * y) * big_d));
    }
    assert((n - 1) * y < x) by (nonlinear_arith)
        requires
            -2 * (x * big_d - qa * y) <= y,
            n * big_d <= qa,
            big_d >= 1,
            y >= 1,
    {
        assert(2 * (x * big_d) >= (2 * qa - 1) * y);
        assert((2 * qa - 1) * y >= (2 * (n * big_d) - 1) * y);
        assert((2 * (n * big_d) - 1) * y > (2 * (n * big_d) - 2 * big_d) * y);
        assert((2 * (n * big_d) - 2 * big_d) * y == 2 * (((n - 1) * y) * big_d));
    }
    // the same in smallest steps
    let v = value.abs().units();
    let u = step.units();
    let pv = pow10((MAX_SCALE - value.scale) as nat) as int;
    let pu = pow10((MAX_SCALE - step.scale) as nat) as int;
    let t = pow10(MAX_SCALE as nat) as int;
    lemma_pow10_adds(value.scale, (MAX_SCALE - value.scale) as nat);
    lemma_pow10_adds(step.scale, (MAX_SCALE - step.scale) as nat);
    lemma_pow10_positive(MAX_SCALE as nat);
    let k = big_a * big_b;
    assert(v * k == x * t) by (nonlinear_arith)
        requires
            v == va * pv,
            t == big_a * pv,
            x == va * big_b,
            k == big_a * big_b,
    ;
    assert(u * k == y * t) by (nonlinear_arith)
        requires
            u == bm * pu,
            t == big_b * pu,
            y == bm * big_a,
            k == big_a * big_b,
    ;
    assert(k >= 1) by (nonlinear_arith)
        requires
            big_a >= 1,
            big_b >= 1,
            k == big_a * big_b,
    ;
    assert((n - 1) * u < v && v < (n + 1) * u) by (nonlinear_arith)
        requires
            v * k == x * t,
            u * k == y * t,
            (n - 1) * y < x,
            x < (n + 1) * y,
            k >= 1,
            t >= 1,
    {
        assert(((n - 1) * y) * t < x * t);
        assert(x * t < ((n + 1) * y) * t);
        assert(((n - 1) * y) * t == ((n - 1) * u) * k);
        assert(((n + 1) * y) * t == ((n + 1) * u) * k);
    }
}

/// A whole number of steps that needs no rounding has that many times the
/// value of a step.
proof fn lemma_steps(c: DecimalView, step: DecimalView)
    requires
        c.scale == 0,
        c.multiplies_exactly(step),
    ensures
        c.times(step) == Some(c.exact_product(step)),
        c.exact_product(step).units() == c.mantissa * step.units(),
        c.exact_product(step).abs().units() == c.abs().mantissa * step.abs().units(),
{
    let m = c.exact_product(step);
    let pu = pow10((MAX_SCALE - step.scale) as nat) as int;
    lemma_sign_of_units(DecimalView::zero());
    lemma_abs_units(m);
    lemma_abs_units(step);
    lemma_sign_of_units(step);
    if c.mantissa == 0 || step.mantissa == 0 {
        assert(c.mantissa * step.units() == 0 && c.abs().mantissa * step.abs().units() == 0)
            by (nonlinear_arith)
            requires
                c.mantissa == 0 || step.units() == 0,
                c.mantissa == 0 ==> c.abs().mantissa == 0,
                step.units() == 0 ==> step.abs().units() == 0,
        ;
    } else {
        assert((c.mantissa * step.mantissa) * pu == c.mantissa * (step.mantissa * pu))
            by (nonlinear_arith);
        let u = step.units();
        let cm = c.mantissa;
        assert(magnitude(cm * u) == magnitude(cm) * magnitude(u)) by {
            assert(cm * u >= 0 <==> (cm >= 0 <==> u >= 0)) by (nonlinear_arith)
                requires
                    cm != 0,
                    u != 0,
            ;
            assert((-cm) * u == -(cm * u) && cm * (-u) == -(cm * u) && (-cm) * (-u) == cm * u)
                by (nonlinear_arith);
        }
    }
}

/// Rounding to a step gives the next multiple towards zero.
proof fn lemma_step_multiple(value: DecimalView, step: DecimalView, q: DecimalView)
    requires
        value.wf(),
        step.wf(),
        step.positive(),
        q.wf(),
        value.over(step) == Some(q),
        value.nearest_quotient(step, q),
        q.whole().multiplies_exactly(step),
    ensures
        step_multiple(value, step) matches Some(m) && m.units() == towards_zero(
            value.units(),
            step.units(),
        ),
{
    let w = q.whole();
    let n = w.abs().mantissa;
    let v = value.abs().units();
    let u = step.units();
    lemma_whole_quotient(value, step, q);
    lemma_steps(w, step);
    lemma_abs_units(value);
    lemma_abs_units(step);
    lemma_sign_of_units(value);
    lemma_sign_of_units(step);
    lemma_pow10_positive(q.scale);
    assert(w.mantissa != 0 ==> q.mantissa != 0) by {
        if q.mantissa == 0 {
            assert(0int / (pow10(q.scale) as int) == 0) by (nonlinear_arith)
                requires
                    pow10(q.scale) >= 1,
            ;
        }
    }
    if v < n * u {
        let one = if w.negative {
            DecimalView::of(-1, 0)
        } else {
            DecimalView::of(1, 0)
        };
        assert(n >= 1) by (nonlinear_arith)
            requires
                v < n * u,
                v >= 0,
                u > 0,
        ;
        assert(n <= q.abs().mantissa) by (nonlinear_arith)
            requires
                n == q.abs().mantissa / (pow10(q.scale) as int),
                q.abs().mantissa >= 0,
                pow10(q.scale) >= 1,
        ;
        assert(pow10(0) == 1);
        assert(forall|k: int| #[trigger] (k * pow10(0)) == k) by (nonlinear_arith)
            requires
                pow10(0) == 1,
        ;
        assert(w.at_scale(0) == w.mantissa);
        assert(one.at_scale(0) == one.mantissa);
        assert(one.neg().at_scale(0) == -one.mantissa);
        assert(w.subtracts_exactly(one));
        let c = w.exact_difference(one);
        assert(c.abs().mantissa == n - 1);
        assert(c.multiplies_exactly(step)) by {
            let p = w.mantissa * step.mantissa;
            let r = c.mantissa * step.mantissa;
            assert(fits(r)) by (nonlinear_arith)
                requires
                    fits(p),
                    p == w.mantissa * step.mantissa,
                    r == c.mantissa * step.mantissa,
                    step.mantissa > 0,
                    0 <= c.mantissa <= w.mantissa || w.mantissa <= c.mantissa <= 0,
            ;
        }
        lemma_steps(c, step);
        assert((n - 1) * u <= v < (n - 1 + 1) * u);
        lemma_between(v, u, n - 1);
        assert(c.mantissa < 0 ==> value.mantissa < 0);
        assert(c.mantissa > 0 ==> value.mantissa > 0);
        assert((-(n - 1)) * u == -((n - 1) * u)) by (nonlinear_arith);
    } else {
        lemma_between(v, u, n);
        assert((-n) * u == -(n * u)) by (nonlinear_arith);
    }
}

/// The text of a number is a minus sign where it is negative, the digits of its
/// whole part, and behind a point as many digits as it has decimal places:
/// together they stand for its mantissa.
pub proof fn law_text_shows_the_number(d: DecimalView)
    requires
        d.wf(),
    ensures
        exists|whole: Seq<char>, places: Seq<char>|
            {
                &&& d.text() == (if d.negative {
                    seq!['-']
                } else {
                    Seq::<char>::empty()
                }) + whole + (if d.scale == 0 {
                    places
                } else {
                    seq!['.'] + places
                })
                &&& #[trigger] text::all_digits(whole)
                &&& #[trigger] text::all_digits(places)
                &&& whole.len() >= 1
                &&& places.len() == d.scale
                &&& text::digits_value(whole) * pow10(d.scale) + text::digits_value(places)
                    == magnitude(d.mantissa)
            },
{
    let m = d.abs().mantissa as nat;
    let p = pow10(d.scale);
    lemma_pow10_positive(d.scale);
    let sign = if d.negative {
        seq!['-']
    } else {
        Seq::<char>::empty()
    };
    let whole = text::nat_text(m / p);
    let places = text::fixed_text(m % p, d.scale);
    vstd::arithmetic::div_mod::lemma_fundamental_div_mod(m as int, p as int);
    vstd::arithmetic::mul::lemma_mul_is_commutative(p as int, (m / p) as int);
    text::law_digits_read_back(m / p);
    text::law_fixed_digits_read_back(m % p, d.scale);
    if d.scale == 0 {
        assert(d.text() =~= sign + whole + places);
    } else {
        assert(d.text() =~= sign + whole + (seq!['.'] + places));
    }
    assert(text::all_digits(whole) && text::all_digits(places));
}

} // verus!

//! Exact base-10 decimal numbers.
//!
//! A [`Decimal`] is a signed 96-bit mantissa together with a scale between 0
//! and 28: the number `mantissa / 10^scale`. The arithmetic itself is done by
//! the `rust_decimal` crate; this module states what that arithmetic returns.

use vstd::arithmetic::div_mod::lemma_fundamental_div_mod;
use vstd::arithmetic::power::{
    lemma_pow1, lemma_pow_adds, lemma_pow_increases, lemma_pow_positive, pow,
};
use vstd::prelude::*;
use vstd::std_specs::cmp::PartialEqSpecImpl;

verus! {

/// The largest number of fractional digits a decimal can carry.
pub const MAX_SCALE: u32 = 28;

/// The largest magnitude of a mantissa, `2^96 - 1`.
pub const MAX_MANTISSA: i128 = 79_228_162_514_264_337_593_543_950_335;

/// The mathematical content of a [`Decimal`]: the number `mantissa / 10^scale`.
pub struct DecimalView {
    pub mantissa: int,
    pub scale: nat,
}

impl DecimalView {
    /// The zero that arithmetic starts from: mantissa 0, scale 0.
    pub open spec fn zero() -> DecimalView {
        DecimalView { mantissa: 0, scale: 0 }
    }

    /// The mantissa fits in 96 bits and the scale is at most 28.
    pub open spec fn wf(self) -> bool {
        &&& self.scale <= MAX_SCALE
        &&& -MAX_MANTISSA <= self.mantissa <= MAX_MANTISSA
    }

    /// The number is zero, at whatever scale.
    pub open spec fn is_zero(self) -> bool {
        self.mantissa == 0
    }

    /// The mantissa this number has when written with `scale` fractional
    /// digits, for a `scale` no smaller than its own.
    pub open spec fn at_scale(self, scale: nat) -> int
        recommends
            self.scale <= scale,
    {
        self.mantissa * pow(10, (scale - self.scale) as nat)
    }

    /// The number as a whole count of `10^-28`, the finest step a decimal can
    /// hold. Two decimals denote the same number exactly when their units
    /// agree.
    pub open spec fn units(self) -> int {
        self.at_scale(MAX_SCALE as nat)
    }

    /// The number with its sign turned.
    pub open spec fn negated(self) -> DecimalView {
        DecimalView { mantissa: -self.mantissa, scale: self.scale }
    }

    /// The finer of the two scales.
    pub open spec fn common_scale(self, other: DecimalView) -> nat {
        if self.scale >= other.scale {
            self.scale
        } else {
            other.scale
        }
    }

    /// Both numbers can be written at the finer of their two scales without
    /// leaving 96 bits.
    pub open spec fn aligns_with(self, other: DecimalView) -> bool {
        let s = self.common_scale(other);
        fits(self.at_scale(s)) && fits(other.at_scale(s))
    }

    /// Addition loses nothing: an operand is zero, or the operands align and
    /// their sum at the common scale fits.
    pub open spec fn sum_is_exact(self, other: DecimalView) -> bool {
        let s = self.common_scale(other);
        ||| self.is_zero()
        ||| other.is_zero()
        ||| (self.aligns_with(other) && fits(self.at_scale(s) + other.at_scale(s)))
    }

    /// The sum where [`Self::sum_is_exact`]: a zero operand gives the other
    /// operand as it stands, and otherwise the mantissas are added at the
    /// common scale.
    pub open spec fn exact_sum(self, other: DecimalView) -> DecimalView {
        let s = self.common_scale(other);
        if self.is_zero() {
            other
        } else if other.is_zero() {
            self
        } else {
            DecimalView { mantissa: self.at_scale(s) + other.at_scale(s), scale: s }
        }
    }

    /// `self + other`: the exact sum where there is one, and otherwise what
    /// [`rounded_sum`] stands for.
    pub open spec fn sum(self, other: DecimalView) -> Option<DecimalView> {
        if self.sum_is_exact(other) {
            Some(self.exact_sum(other))
        } else {
            rounded_sum(self, other)
        }
    }

    /// Subtraction loses nothing: an operand is zero, or the operands align
    /// and their difference at the common scale fits.
    pub open spec fn difference_is_exact(self, other: DecimalView) -> bool {
        let s = self.common_scale(other);
        ||| self.is_zero()
        ||| other.is_zero()
        ||| (self.aligns_with(other) && fits(self.at_scale(s) - other.at_scale(s)))
    }

    /// The difference where [`Self::difference_is_exact`].
    pub open spec fn exact_difference(self, other: DecimalView) -> DecimalView {
        let s = self.common_scale(other);
        if self.is_zero() {
            other.negated()
        } else if other.is_zero() {
            self
        } else {
            DecimalView { mantissa: self.at_scale(s) - other.at_scale(s), scale: s }
        }
    }

    /// `self - other`: the exact difference where there is one, and otherwise
    /// what [`rounded_difference`] stands for.
    pub open spec fn difference(self, other: DecimalView) -> Option<DecimalView> {
        if self.difference_is_exact(other) {
            Some(self.exact_difference(other))
        } else {
            rounded_difference(self, other)
        }
    }

    /// Multiplication loses nothing: a factor is zero, or the scales add up to
    /// at most 28 and the product of the mantissas fits.
    pub open spec fn product_is_exact(self, other: DecimalView) -> bool {
        ||| self.is_zero()
        ||| other.is_zero()
        ||| (self.scale + other.scale <= MAX_SCALE && fits(self.mantissa * other.mantissa))
    }

    /// The product where [`Self::product_is_exact`]: plain zero if a factor is
    /// zero, and otherwise the mantissas multiplied and the scales added.
    pub open spec fn exact_product(self, other: DecimalView) -> DecimalView {
        if self.is_zero() || other.is_zero() {
            DecimalView::zero()
        } else {
            DecimalView {
                mantissa: self.mantissa * other.mantissa,
                scale: self.scale + other.scale,
            }
        }
    }

    /// `self * other`: the exact product where there is one, and otherwise
    /// what [`rounded_product`] stands for.
    pub open spec fn product(self, other: DecimalView) -> Option<DecimalView> {
        if self.product_is_exact(other) {
            Some(self.exact_product(other))
        } else {
            rounded_product(self, other)
        }
    }

    /// Division leaves no remainder: the dividend is zero, or its mantissa
    /// is a multiple of the divisor's and its scale is no smaller.
    pub open spec fn quotient_is_exact(self, other: DecimalView) -> bool
        recommends
            !other.is_zero(),
    {
        ||| self.is_zero()
        ||| (self.scale >= other.scale && self.mantissa % other.mantissa == 0)
    }

    /// The quotient where [`Self::quotient_is_exact`]: plain zero for a zero
    /// dividend, and otherwise the mantissas divided and the scales
    /// subtracted.
    pub open spec fn exact_quotient(self, other: DecimalView) -> DecimalView
        recommends
            !other.is_zero(),
    {
        if self.is_zero() {
            DecimalView::zero()
        } else {
            DecimalView {
                mantissa: self.mantissa / other.mantissa,
                scale: (self.scale - other.scale) as nat,
            }
        }
    }

    /// `self / other` for a divisor other than zero: the exact quotient where
    /// the mantissas divide, and otherwise what [`long_quotient`] stands for.
    pub open spec fn quotient(self, other: DecimalView) -> Option<DecimalView>
        recommends
            !other.is_zero(),
    {
        if self.quotient_is_exact(other) {
            Some(self.exact_quotient(other))
        } else {
            long_quotient(self, other)
        }
    }

    /// The number rounded to `dp` fractional digits, to the nearest and on a
    /// tie to the even neighbour. A number that has no more than `dp` digits
    /// stays as it is.
    pub open spec fn rounded(self, dp: nat) -> DecimalView {
        if self.scale <= dp {
            self
        } else {
            let step = pow(10, (self.scale - dp) as nat) as nat;
            if self.mantissa < 0 {
                DecimalView {
                    mantissa: -round_half_even((-self.mantissa) as nat, step),
                    scale: dp,
                }
            } else {
                DecimalView {
                    mantissa: round_half_even(self.mantissa as nat, step) as int,
                    scale: dp,
                }
            }
        }
    }
}

/// Whether a mantissa fits in 96 bits.
pub open spec fn fits(mantissa: int) -> bool {
    -MAX_MANTISSA <= mantissa <= MAX_MANTISSA
}

/// `n / step` rounded to the nearest whole number, a tie going to the even one.
pub open spec fn round_half_even(n: nat, step: nat) -> nat
    recommends
        step > 0,
{
    let q = n / step;
    let r = n % step;
    if 2 * r > step || (2 * r == step && q % 2 == 1) {
        q + 1
    } else {
        q
    }
}

/// What `rust_decimal` returns for `a + b` where the sum cannot be kept
/// exactly: a rounded sum, or `None` on overflow.
pub uninterp spec fn rounded_sum(a: DecimalView, b: DecimalView) -> Option<DecimalView>;

/// What `rust_decimal` returns for `a - b` where the difference cannot be kept
/// exactly: a rounded difference, or `None` on overflow.
pub uninterp spec fn rounded_difference(a: DecimalView, b: DecimalView) -> Option<DecimalView>;

/// What `rust_decimal` returns for `a * b` where the product cannot be kept
/// exactly: a rounded product, or `None` on overflow.
pub uninterp spec fn rounded_product(a: DecimalView, b: DecimalView) -> Option<DecimalView>;

/// What `rust_decimal` returns for `a / b` where the quotient is not exact:
/// the quotient to as many digits as a decimal holds, or `None` on overflow.
pub uninterp spec fn long_quotient(a: DecimalView, b: DecimalView) -> Option<DecimalView>;

/// An optional decimal, seen through its view.
pub open spec fn option_view(r: Option<Decimal>) -> Option<DecimalView> {
    match r {
        Some(d) => Some(d@),
        None => None,
    }
}

/// A mantissa moved to a finer scale, and from there to a still finer one.
pub proof fn lemma_at_scale_moves(x: DecimalView, s1: nat, s2: nat)
    requires
        x.scale <= s1 <= s2,
    ensures
        x.at_scale(s2) == x.at_scale(s1) * pow(10, (s2 - s1) as nat),
{
    let a = (s1 - x.scale) as nat;
    let b = (s2 - s1) as nat;
    lemma_pow_adds(10, a, b);
    assert(x.mantissa * (pow(10, a) * pow(10, b)) == (x.mantissa * pow(10, a)) * pow(10, b))
        by (nonlinear_arith);
}

/// Zero has mantissa 0 at every scale.
pub proof fn lemma_zero_at_any_scale(x: DecimalView, scale: nat)
    requires
        x.is_zero(),
    ensures
        x.at_scale(scale) == 0,
{
}

/// Where addition is exact, the result is a decimal that denotes the sum of
/// the two numbers.
pub proof fn law_exact_sum_is_the_sum(a: DecimalView, b: DecimalView)
    requires
        a.wf(),
        b.wf(),
        a.sum_is_exact(b),
    ensures
        a.exact_sum(b).wf(),
        a.exact_sum(b).units() == a.units() + b.units(),
{
    let s = a.common_scale(b);
    let top = MAX_SCALE as nat;
    if a.is_zero() {
        lemma_zero_at_any_scale(a, top);
    } else if b.is_zero() {
        lemma_zero_at_any_scale(b, top);
    } else {
        lemma_at_scale_moves(a, s, top);
        lemma_at_scale_moves(b, s, top);
        let p = pow(10, (top - s) as nat);
        assert((a.at_scale(s) + b.at_scale(s)) * p == a.at_scale(s) * p + b.at_scale(s) * p)
            by (nonlinear_arith);
    }
}

/// Where subtraction is exact, the result is a decimal that denotes the
/// difference of the two numbers.
pub proof fn law_exact_difference_is_the_difference(a: DecimalView, b: DecimalView)
    requires
        a.wf(),
        b.wf(),
        a.difference_is_exact(b),
    ensures
        a.exact_difference(b).wf(),
        a.exact_difference(b).units() == a.units() - b.units(),
{
    let s = a.common_scale(b);
    let top = MAX_SCALE as nat;
    if a.is_zero() {
        let p = pow(10, (top - b.scale) as nat);
        assert((-b.mantissa) * p == -(b.mantissa * p)) by (nonlinear_arith);
    } else if b.is_zero() {
        lemma_zero_at_any_scale(b, top);
    } else {
        lemma_at_scale_moves(a, s, top);
        lemma_at_scale_moves(b, s, top);
        let p = pow(10, (top - s) as nat);
        assert((a.at_scale(s) - b.at_scale(s)) * p == a.at_scale(s) * p - b.at_scale(s) * p)
            by (nonlinear_arith);
    }
}

/// Where multiplication is exact, the result is a decimal that denotes the
/// product of the two numbers: counted in units of `10^-28`, the product of
/// two counts is `10^28` times the count of the product.
pub proof fn law_exact_product_is_the_product(a: DecimalView, b: DecimalView)
    requires
        a.wf(),
        b.wf(),
        a.product_is_exact(b),
    ensures
        a.exact_product(b).wf(),
        a.exact_product(b).units() * pow(10, MAX_SCALE as nat) == a.units() * b.units(),
{
    let top = MAX_SCALE as nat;
    let whole = pow(10, top);
    if a.is_zero() || b.is_zero() {
        if a.is_zero() {
            lemma_zero_at_any_scale(a, top);
        } else {
            lemma_zero_at_any_scale(b, top);
        }
    } else {
        let ea = (top - a.scale) as nat;
        let eb = (top - b.scale) as nat;
        let ep = (top - a.scale - b.scale) as nat;
        lemma_pow_adds(10, ep, top);
        lemma_pow_adds(10, ea, eb);
        let (pa, pb, pp) = (pow(10, ea), pow(10, eb), pow(10, ep));
        assert(((a.mantissa * b.mantissa) * pp) * whole == (a.mantissa * pa) * (b.mantissa * pb))
            by (nonlinear_arith)
            requires
                pp * whole == pa * pb,
        ;
    }
}

/// Where division is exact, the result is a decimal that denotes the quotient
/// of the two numbers: times the divisor it gives the dividend.
pub proof fn law_exact_quotient_is_the_quotient(a: DecimalView, b: DecimalView)
    requires
        a.wf(),
        b.wf(),
        !b.is_zero(),
        a.quotient_is_exact(b),
    ensures
        a.exact_quotient(b).wf(),
        a.exact_quotient(b).units() * b.units() == a.units() * pow(10, MAX_SCALE as nat),
{
    let top = MAX_SCALE as nat;
    let whole = pow(10, top);
    if a.is_zero() {
        lemma_zero_at_any_scale(DecimalView::zero(), top);
    } else {
        let q = a.mantissa / b.mantissa;
        lemma_fundamental_div_mod(a.mantissa, b.mantissa);
        assert(q * b.mantissa == a.mantissa) by (nonlinear_arith)
            requires
                a.mantissa == b.mantissa * q + 0,
        ;
        assert(-MAX_MANTISSA <= q <= MAX_MANTISSA) by (nonlinear_arith)
            requires
                q * b.mantissa == a.mantissa,
                b.mantissa != 0,
                -MAX_MANTISSA <= a.mantissa <= MAX_MANTISSA,
        ;
        let eq = (top - (a.scale - b.scale)) as nat;
        let eb = (top - b.scale) as nat;
        let ea = (top - a.scale) as nat;
        lemma_pow_adds(10, eq, eb);
        lemma_pow_adds(10, ea, top);
        let (pq, pb, pa) = (pow(10, eq), pow(10, eb), pow(10, ea));
        assert((q * pq) * (b.mantissa * pb) == (a.mantissa * pa) * whole) by (nonlinear_arith)
            requires
                q * b.mantissa == a.mantissa,
                pq * pb == pa * whole,
        ;
    }
}

/// Rounding to the nearest: `q = round_half_even(n, step)` is a whole number
/// with `q * step` no further than half a step from `n`.
pub proof fn lemma_round_half_even_is_nearest(n: nat, step: nat)
    requires
        step > 0,
    ensures
        -(step as int) <= 2 * (round_half_even(n, step) * step - n) <= step,
        round_half_even(n, step) <= n / step + 1,
{
    let q = n / step;
    lemma_fundamental_div_mod(n as int, step as int);
    assert((q + 1) * step == q * step + step) by (nonlinear_arith);
}

/// A rounded decimal is well formed, has no more than `dp` fractional
/// digits, and is no further from the number than half a unit of its last
/// digit.
pub proof fn law_rounded_is_nearest(a: DecimalView, dp: nat)
    requires
        a.wf(),
        dp <= MAX_SCALE,
    ensures
        a.rounded(dp).wf(),
        a.rounded(dp).scale <= dp,
        -pow(10, (MAX_SCALE - dp) as nat) <= 2 * (a.rounded(dp).units() - a.units()) <= pow(
            10,
            (MAX_SCALE - dp) as nat,
        ),
{
    let top = MAX_SCALE as nat;
    lemma_pow_positive(10, (top - dp) as nat);
    if a.scale > dp {
        let k = (a.scale - dp) as nat;
        let rest = (top - a.scale) as nat;
        let step = pow(10, k) as nat;
        let p = pow(10, rest);
        lemma_pow_positive(10, rest);
        lemma_pow1(10);
        lemma_pow_increases(10, 1, k);
        lemma_pow_adds(10, k, rest);
        let n = (if a.mantissa < 0 {
            -a.mantissa
        } else {
            a.mantissa
        }) as nat;
        let q = round_half_even(n, step);
        lemma_round_half_even_is_nearest(n, step);
        let e = q * step - n;
        assert(n / step <= n / 10) by (nonlinear_arith)
            requires
                step >= 10,
        ;
        assert(q * (step * p) - n * p == e * p) by (nonlinear_arith)
            requires
                e == q * step - n,
        ;
        assert(-(step * p) <= 2 * (e * p) <= step * p) by (nonlinear_arith)
            requires
                -(step as int) <= 2 * e <= step,
                p > 0,
        ;
        if a.mantissa < 0 {
            assert((-q) * (step * p) - (-(n as int)) * p == -(q * (step * p) - n * p))
                by (nonlinear_arith);
        }
    }
}

/// An exact decimal number.
#[derive(Clone, Copy, Debug)]
pub struct Decimal {
    mantissa: i128,
    scale: u32,
}

impl View for Decimal {
    type V = DecimalView;

    closed spec fn view(&self) -> DecimalView {
        DecimalView { mantissa: self.mantissa as int, scale: self.scale as nat }
    }
}

/// A decimal is no more than its view: equal views, equal decimals.
pub proof fn lemma_view_is_faithful(a: Option<Decimal>, b: Option<Decimal>)
    requires
        option_view(a) == option_view(b),
    ensures
        a == b,
{
}

/// Decimals are equal when they denote the same number: `1.0 == 1.00`.
impl PartialEq for Decimal {
    fn eq(&self, other: &Decimal) -> (r: bool) {
        proof {
            use_type_invariant(self);
            use_type_invariant(other);
        }
        self.same_number(other)
    }
}

impl PartialEqSpecImpl for Decimal {
    open spec fn obeys_eq_spec() -> bool {
        true
    }

    open spec fn eq_spec(&self, other: &Decimal) -> bool {
        self@.units() == other@.units()
    }
}

impl Decimal {
    /// Every decimal is well formed.
    #[verifier::type_invariant]
    pub open spec fn inv(self) -> bool {
        self@.wf()
    }

    /// The decimal `num / 10^scale`.
    pub fn new(num: i64, scale: u32) -> (r: Decimal)
        requires
            scale <= MAX_SCALE,
        ensures
            r@ == (DecimalView { mantissa: num as int, scale: scale as nat }),
            r@.wf(),
    {
        Decimal { mantissa: num as i128, scale }
    }

    /// The decimal `mantissa / 10^scale`, if the parts are in range.
    pub fn from_parts(mantissa: i128, scale: u32) -> (r: Option<Decimal>)
        ensures
            r is Some <==> (DecimalView { mantissa: mantissa as int, scale: scale as nat }).wf(),
            r matches Some(d) ==> d@ == (DecimalView {
                mantissa: mantissa as int,
                scale: scale as nat,
            }),
    {
        if scale <= MAX_SCALE && -MAX_MANTISSA <= mantissa && mantissa <= MAX_MANTISSA {
            Some(Decimal { mantissa, scale })
        } else {
            None
        }
    }

    /// Plain zero.
    pub fn zero() -> (r: Decimal)
        ensures
            r@ == DecimalView::zero(),
    {
        Decimal { mantissa: 0, scale: 0 }
    }

    /// The digits of the number as a whole number, with its sign.
    pub fn mantissa(&self) -> (r: i128)
        ensures
            r == self@.mantissa,
    {
        self.mantissa
    }

    /// How many of the digits are fractional.
    pub fn scale(&self) -> (r: u32)
        ensures
            r == self@.scale,
    {
        self.scale
    }

    /// Whether the number is zero, at whatever scale.
    pub fn is_zero(&self) -> (r: bool)
        ensures
            r == self@.is_zero(),
    {
        self.mantissa == 0
    }

    /// `Decimal::checked_add` of `rust_decimal`. Claimed of it: a zero operand
    /// gives back the other operand; operands that align, with a sum that
    /// fits, give that sum at the finer scale; what it returns otherwise is
    /// left to [`rounded_sum`]. A result has at most 96 bits and scale 28.
    ///
    /// In the crate this is `add_sub_internal`: it returns the other operand
    /// for a zero one, brings the coarser operand to the finer scale, and
    /// adds or subtracts the magnitudes; it gives up digits only once the
    /// aligned operand or the sum leaves 96 bits.
    #[verifier::external_body]
    pub(crate) fn checked_add(&self, other: &Decimal) -> (r: Option<Decimal>)
        requires
            self@.wf(),
            other@.wf(),
        ensures
            self@.sum_is_exact(other@) ==> option_view(r) == Some(self@.exact_sum(other@)),
            !self@.sum_is_exact(other@) ==> option_view(r) == rounded_sum(self@, other@),
            r matches Some(d) ==> d@.wf(),
    {
        let a = rust_decimal::Decimal::from_i128_with_scale(self.mantissa, self.scale);
        let b = rust_decimal::Decimal::from_i128_with_scale(other.mantissa, other.scale);
        match a.checked_add(b) {
            Some(d) => Some(Decimal { mantissa: d.mantissa(), scale: d.scale() }),
            None => None,
        }
    }

    /// `Decimal::checked_sub` of `rust_decimal`. Claimed of it: zero minus a
    /// number is that number negated, a number minus zero is itself; operands
    /// that align, with a difference that fits, give that difference at the
    /// finer scale; what it returns otherwise is left to
    /// [`rounded_difference`]. A result has at most 96 bits and scale 28.
    ///
    /// In the crate this is `add_sub_internal` again, with `subtract` set.
    #[verifier::external_body]
    pub(crate) fn checked_sub(&self, other: &Decimal) -> (r: Option<Decimal>)
        requires
            self@.wf(),
            other@.wf(),
        ensures
            self@.difference_is_exact(other@) ==> option_view(r) == Some(
                self@.exact_difference(other@),
            ),
            !self@.difference_is_exact(other@) ==> option_view(r) == rounded_difference(
                self@,
                other@,
            ),
            r matches Some(d) ==> d@.wf(),
    {
        let a = rust_decimal::Decimal::from_i128_with_scale(self.mantissa, self.scale);
        let b = rust_decimal::Decimal::from_i128_with_scale(other.mantissa, other.scale);
        match a.checked_sub(b) {
            Some(d) => Some(Decimal { mantissa: d.mantissa(), scale: d.scale() }),
            None => None,
        }
    }

    /// `Decimal::checked_mul` of `rust_decimal`. Claimed of it: a zero factor
    /// gives plain zero; where the scales add up to at most 28 and the product
    /// of the mantissas fits, the result has that mantissa and that scale;
    /// what it returns otherwise is left to [`rounded_product`]. A result has
    /// at most 96 bits and scale 28.
    ///
    /// In the crate this is `mul_impl`: it returns `Decimal::ZERO` for a zero
    /// factor, multiplies the mantissas and adds the scales, and rescales
    /// only where the product has more than 96 bits or the scale exceeds 28.
    #[verifier::external_body]
    pub(crate) fn checked_mul(&self, other: &Decimal) -> (r: Option<Decimal>)
        requires
            self@.wf(),
            other@.wf(),
        ensures
            self@.product_is_exact(other@) ==> option_view(r) == Some(
                self@.exact_product(other@),
            ),
            !self@.product_is_exact(other@) ==> option_view(r) == rounded_product(self@, other@),
            r matches Some(d) ==> d@.wf(),
    {
        let a = rust_decimal::Decimal::from_i128_with_scale(self.mantissa, self.scale);
        let b = rust_decimal::Decimal::from_i128_with_scale(other.mantissa, other.scale);
        match a.checked_mul(b) {
            Some(d) => Some(Decimal { mantissa: d.mantissa(), scale: d.scale() }),
            None => None,
        }
    }

    /// `Decimal::checked_div` of `rust_decimal`, for a divisor other than
    /// zero. Claimed of it: a zero dividend gives plain zero; where the
    /// dividend's mantissa is a multiple of the divisor's and its scale no
    /// smaller, the result is the quotient of the mantissas at the difference
    /// of the scales; what it returns otherwise is left to
    /// [`long_quotient`]. A result has at most 96 bits and scale 28.
    ///
    /// In the crate this is `div_impl`: it returns `Decimal::ZERO` for a zero
    /// dividend, divides the mantissas, and is done where that leaves no
    /// remainder and the difference of the scales is not negative.
    #[verifier::external_body]
    pub(crate) fn checked_div(&self, other: &Decimal) -> (r: Option<Decimal>)
        requires
            self@.wf(),
            other@.wf(),
            !other@.is_zero(),
        ensures
            self@.quotient_is_exact(other@) ==> option_view(r) == Some(
                self@.exact_quotient(other@),
            ),
            !self@.quotient_is_exact(other@) ==> option_view(r) == long_quotient(self@, other@),
            r matches Some(d) ==> d@.wf(),
    {
        let a = rust_decimal::Decimal::from_i128_with_scale(self.mantissa, self.scale);
        let b = rust_decimal::Decimal::from_i128_with_scale(other.mantissa, other.scale);
        match a.checked_div(b) {
            Some(d) => Some(Decimal { mantissa: d.mantissa(), scale: d.scale() }),
            None => None,
        }
    }

    /// `==` on `Decimal` of `rust_decimal`. Claimed of it: two decimals are
    /// equal exactly when they denote the same number, whatever their scales.
    ///
    /// In the crate this is `cmp_impl`: zeros are equal, signs must agree,
    /// and the magnitudes are compared at the finer of the two scales.
    #[verifier::external_body]
    fn same_number(&self, other: &Decimal) -> (r: bool)
        requires
            self@.wf(),
            other@.wf(),
        ensures
            r == (self@.units() == other@.units()),
    {
        let a = rust_decimal::Decimal::from_i128_with_scale(self.mantissa, self.scale);
        let b = rust_decimal::Decimal::from_i128_with_scale(other.mantissa, other.scale);
        a == b
    }

    /// `Decimal::round_dp` of `rust_decimal`. Claimed of it: a number with no
    /// more than `dp` fractional digits comes back as it is; any other comes
    /// back at scale `dp`, its magnitude rounded to the nearest and on a tie
    /// to the even neighbour, its sign kept.
    ///
    /// In the crate this is `round_dp_with_strategy` with
    /// `MidpointNearestEven`: it divides the magnitude by the power of ten,
    /// compares what was cut off with half of that power, and adds one above
    /// the half, or at the half if the quotient is odd.
    #[verifier::external_body]
    pub(crate) fn round_dp(&self, dp: u32) -> (r: Decimal)
        requires
            self@.wf(),
        ensures
            r@ == self@.rounded(dp as nat),
            r@.wf(),
    {
        let a = rust_decimal::Decimal::from_i128_with_scale(self.mantissa, self.scale);
        let d = a.round_dp(dp);
        Decimal { mantissa: d.mantissa(), scale: d.scale() }
    }
}

} // verus!

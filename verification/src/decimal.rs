//! Exact decimal values as `rust_decimal` stores them: a signed mantissa
//! below 2^96 and a scale between 0 and 28. Every value is an integer number
//! of 10^-28 units, which is the mathematical model used in contracts.

use vstd::prelude::*;
use rust_decimal::Decimal;
use std::collections::VecDeque;

verus! {

/// Largest mantissa magnitude a decimal can hold (2^96 - 1).
pub const MAX_MANTISSA: i128 = 79228162514264337593543950335;

/// Largest scale a decimal can hold.
pub const MAX_SCALE: u32 = 28;

/// 10^n.
pub open spec fn pow10(n: nat) -> int
    decreases n,
{
    if n == 0 {
        1
    } else {
        10 * pow10((n - 1) as nat)
    }
}

pub proof fn lemma_pow10_positive(n: nat)
    ensures
        pow10(n) >= 1,
    decreases n,
{
    if n > 0 {
        lemma_pow10_positive((n - 1) as nat);
    }
}

pub proof fn lemma_pow10_monotone(a: nat, b: nat)
    requires
        a <= b,
    ensures
        pow10(a) <= pow10(b),
    decreases b,
{
    if a < b {
        lemma_pow10_monotone(a, (b - 1) as nat);
        lemma_pow10_positive((b - 1) as nat);
    }
}

pub proof fn lemma_pow10_add(a: nat, b: nat)
    ensures
        pow10(a + b) == pow10(a) * pow10(b),
    decreases a,
{
    if a > 0 {
        lemma_pow10_add((a - 1) as nat, b);
        assert(pow10(a + b) == 10 * pow10((a - 1 + b) as nat));
        assert(10 * (pow10((a - 1) as nat) * pow10(b)) == (10 * pow10((a - 1) as nat)) * pow10(b))
            by (nonlinear_arith);
    }
}

/// One unit of value (1.0) expressed in 10^-28 units.
pub open spec fn one_units() -> int {
    pow10(28)
}

/// 10^15 in 10^-28 units.
pub open spec fn moderate_limit() -> int {
    10000000000000000000000000000000000000000000int
}

/// A decimal number `mantissa / 10^scale`.
#[derive(Clone, Copy, Debug, PartialEq, Eq)]
pub struct Dec {
    pub mantissa: i128,
    pub scale: u32,
}

impl View for Dec {
    type V = int;

    /// A decimal is viewed as its value in 10^-28 units.
    open spec fn view(&self) -> int {
        self.units()
    }
}

impl Dec {
    /// The representable range of `rust_decimal::Decimal`.
    pub open spec fn wf(self) -> bool {
        &&& self.scale <= MAX_SCALE
        &&& -MAX_MANTISSA <= self.mantissa <= MAX_MANTISSA
    }

    /// The value in 10^-28 units.
    pub open spec fn units(self) -> int {
        self.mantissa * pow10((28 - self.scale) as nat)
    }

    /// The range of the detection parameters (wick fractions, volume
    /// multipliers, reversal thresholds): at most 10 decimal places and a
    /// magnitude of at most 10^15.
    pub open spec fn moderate(self) -> bool {
        &&& self.wf()
        &&& self.scale <= 10
        &&& abs(self@) <= moderate_limit()
    }

    /// The decimal `mantissa / 10^scale`.
    pub fn new(mantissa: i64, scale: u32) -> (d: Dec)
        requires
            scale <= MAX_SCALE,
        ensures
            d.wf(),
            d.mantissa == mantissa,
            d.scale == scale,
    {
        Dec { mantissa: mantissa as i128, scale }
    }

    pub fn zero() -> (d: Dec)
        ensures
            d.wf(),
            d@ == 0,
            d == (Dec { mantissa: 0, scale: 0 }),
    {
        Dec { mantissa: 0, scale: 0 }
    }

    pub fn one() -> (d: Dec)
        ensures
            d.wf(),
            d@ == one_units(),
            d == (Dec { mantissa: 1, scale: 0 }),
    {
        Dec { mantissa: 1, scale: 0 }
    }

    /// The integer `n` as a decimal.
    pub fn from_usize(n: usize) -> (d: Dec)
        ensures
            d.wf(),
            d@ == n * one_units(),
            d.scale == 0,
            d == count_dec(n as nat),
    {
        proof {
            assert(n <= usize::MAX);
        }
        let d = Dec { mantissa: n as i128, scale: 0 };
        d
    }
}



pub open spec fn abs(x: int) -> int {
    if x < 0 {
        -x
    } else {
        x
    }
}

pub open spec fn max_scale(a: Dec, b: Dec) -> int {
    if a.scale >= b.scale {
        a.scale as int
    } else {
        b.scale as int
    }
}

/// `u` units can be written with a mantissa below 2^96 at scale `s`.
pub open spec fn fits_at(u: int, s: int) -> bool {
    abs(u) <= MAX_MANTISSA * pow10((28 - s) as nat)
}

/// `a + b` is computed exactly by `rust_decimal`.
pub open spec fn add_fits(a: Dec, b: Dec) -> bool {
    fits_at(a@ + b@, max_scale(a, b))
}

/// `a - b` is computed exactly by `rust_decimal`.
pub open spec fn sub_fits(a: Dec, b: Dec) -> bool {
    fits_at(a@ - b@, max_scale(a, b))
}

/// The exact value `u` lies below the largest decimal, 2^96 - 1 whole
/// units, so that rounding it to a decimal cannot overflow.
pub open spec fn below_max(u: int) -> bool {
    abs(u) < MAX_MANTISSA * one_units()
}


/// `a * b` is computed without rounding.
pub open spec fn mul_exact(a: Dec, b: Dec) -> bool {
    &&& a.scale + b.scale <= MAX_SCALE
    &&& abs(a.mantissa * b.mantissa) <= MAX_MANTISSA
}


/// The decimal, as mantissa and scale, that `Decimal::checked_add` yields
/// for `a_mantissa / 10^a_scale` plus `b_mantissa / 10^b_scale`; `None`
/// where the sum overflows.
pub uninterp spec fn decimal_sum(a_mantissa: i128, a_scale: u32, b_mantissa: i128, b_scale: u32) -> Option<
    (i128, u32),
>;

/// The decimal, as mantissa and scale, that `Decimal::checked_sub` yields
/// for `a_mantissa / 10^a_scale` minus `b_mantissa / 10^b_scale`; `None`
/// where the difference overflows.
pub uninterp spec fn decimal_difference(a_mantissa: i128, a_scale: u32, b_mantissa: i128, b_scale: u32) -> Option<
    (i128, u32),
>;

/// The decimal, as mantissa and scale, that `Decimal::checked_mul` yields
/// for `a_mantissa / 10^a_scale` times `b_mantissa / 10^b_scale`; `None`
/// where the product overflows.
pub uninterp spec fn decimal_product(a_mantissa: i128, a_scale: u32, b_mantissa: i128, b_scale: u32) -> Option<
    (i128, u32),
>;

/// The decimal, as mantissa and scale, that `Decimal::checked_div` yields
/// for `a_mantissa / 10^a_scale` divided by `b_mantissa / 10^b_scale`;
/// `None` for a zero divisor or where the quotient overflows.
pub uninterp spec fn decimal_quotient(a_mantissa: i128, a_scale: u32, b_mantissa: i128, b_scale: u32) -> Option<
    (i128, u32),
>;

/// The decimal with the given mantissa and scale.
pub open spec fn dec_of(p: (i128, u32)) -> Dec {
    Dec { mantissa: p.0, scale: p.1 }
}

/// The decimal a mantissa and scale stand for, if there are any.
pub open spec fn as_dec(p: Option<(i128, u32)>) -> Option<Dec> {
    match p {
        Some(q) => Some(dec_of(q)),
        None => None,
    }
}

/// `a + b` as `rust_decimal` computes it, `None` where it overflows.
pub open spec fn sum_opt(a: Dec, b: Dec) -> Option<Dec> {
    as_dec(decimal_sum(a.mantissa, a.scale, b.mantissa, b.scale))
}

/// `a - b` as `rust_decimal` computes it, `None` where it overflows.
pub open spec fn difference_opt(a: Dec, b: Dec) -> Option<Dec> {
    as_dec(decimal_difference(a.mantissa, a.scale, b.mantissa, b.scale))
}

/// `a * b` as `rust_decimal` computes it, `None` where it overflows.
pub open spec fn product_opt(a: Dec, b: Dec) -> Option<Dec> {
    as_dec(decimal_product(a.mantissa, a.scale, b.mantissa, b.scale))
}

/// `a / b` as `rust_decimal` computes it, `None` for a zero divisor or
/// where it overflows.
pub open spec fn quotient_opt(a: Dec, b: Dec) -> Option<Dec> {
    as_dec(decimal_quotient(a.mantissa, a.scale, b.mantissa, b.scale))
}

/// `a + b` as `rust_decimal` computes it, where it does not overflow.
pub open spec fn sum_of(a: Dec, b: Dec) -> Dec {
    sum_opt(a, b).unwrap()
}

/// `a - b` as `rust_decimal` computes it, where it does not overflow.
pub open spec fn difference_of(a: Dec, b: Dec) -> Dec {
    difference_opt(a, b).unwrap()
}

/// `a * b` as `rust_decimal` computes it, where it does not overflow.
pub open spec fn product_of(a: Dec, b: Dec) -> Dec {
    product_opt(a, b).unwrap()
}

/// `a / b` as `rust_decimal` computes it, where it is defined.
pub open spec fn quotient_of(a: Dec, b: Dec) -> Dec {
    quotient_opt(a, b).unwrap()
}

/// The integer `n` as a decimal of scale zero.
pub open spec fn count_dec(n: nat) -> Dec {
    Dec { mantissa: n as i128, scale: 0 }
}

/// The value `Decimal::from_str` reads from a text, if it reads one.
pub uninterp spec fn parsed_decimal(text: Seq<char>) -> Option<Dec>;

/// The text that `Decimal`'s `Display` writes for `mantissa / 10^scale`.
pub uninterp spec fn decimal_text(mantissa: i128, scale: u32) -> Seq<char>;

/// Compares two decimals with `rust_decimal`'s `<`.
/// `rust_decimal` orders values numerically, whatever their scales, so the
/// result is the order of the values.
#[verifier::external_body]
pub(crate) fn dec_lt(a: &Dec, b: &Dec) -> (r: bool)
    requires
        a.wf(),
        b.wf(),
    ensures
        r == (a@ < b@),
{
    Decimal::from_i128_with_scale(a.mantissa, a.scale) < Decimal::from_i128_with_scale(
        b.mantissa,
        b.scale,
    )
}


/// `Decimal::checked_add`: the sum `+` computes, `None` where `+` panics.
/// When the exact sum has a mantissa below 2^96 at the larger of the two
/// scales, it comes back exactly, at a scale no larger than the larger
/// input scale; otherwise it is rounded to the largest scale at which it
/// fits, which moves it by less than one whole unit. It overflows only when
/// even the sum rounded to a whole number exceeds 2^96 - 1.
#[verifier::external_body]
pub(crate) fn checked_sum(a: &Dec, b: &Dec) -> (r: Option<Dec>)
    requires
        a.wf(),
        b.wf(),
    ensures
        r == as_dec(decimal_sum(a.mantissa, a.scale, b.mantissa, b.scale)),
        r matches Some(d) ==> d.wf() && abs(d@ - (a@ + b@)) <= one_units(),
        add_fits(*a, *b) ==> r is Some,
        r matches Some(d) ==> (add_fits(*a, *b) ==> d@ == a@ + b@ && d.scale <= max_scale(*a, *b)),
        below_max(a@ + b@) ==> r is Some,
{
    match Decimal::from_i128_with_scale(a.mantissa, a.scale).checked_add(
        Decimal::from_i128_with_scale(b.mantissa, b.scale),
    ) {
        Some(d) => Some(Dec { mantissa: d.mantissa(), scale: d.scale() }),
        None => None,
    }
}

/// `Decimal::checked_sub`: the difference `-` computes, `None` where `-`
/// panics; exact, rounded and overflowing under the same conditions as the
/// sum.
#[verifier::external_body]
pub(crate) fn checked_difference(a: &Dec, b: &Dec) -> (r: Option<Dec>)
    requires
        a.wf(),
        b.wf(),
    ensures
        r == as_dec(decimal_difference(a.mantissa, a.scale, b.mantissa, b.scale)),
        r matches Some(d) ==> d.wf() && abs(d@ - (a@ - b@)) <= one_units(),
        sub_fits(*a, *b) ==> r is Some,
        r matches Some(d) ==> (sub_fits(*a, *b) ==> d@ == a@ - b@ && d.scale <= max_scale(*a, *b)),
        below_max(a@ - b@) ==> r is Some,
{
    match Decimal::from_i128_with_scale(a.mantissa, a.scale).checked_sub(
        Decimal::from_i128_with_scale(b.mantissa, b.scale),
    ) {
        Some(d) => Some(Dec { mantissa: d.mantissa(), scale: d.scale() }),
        None => None,
    }
}

/// `Decimal::checked_mul`: the product `*` computes, `None` where `*`
/// panics. When the scales add up to at most 28 and the product of the
/// mantissas fits in 96 bits, no rounding takes place and the result's
/// scale is at most the sum of the scales. Otherwise the exact product is
/// rounded to the largest scale at which it fits, which moves it by less
/// than one whole unit; it overflows only when even the product rounded to
/// a whole number exceeds 2^96 - 1.
#[verifier::external_body]
pub(crate) fn checked_product(a: &Dec, b: &Dec) -> (r: Option<Dec>)
    requires
        a.wf(),
        b.wf(),
    ensures
        r == as_dec(decimal_product(a.mantissa, a.scale, b.mantissa, b.scale)),
        r matches Some(d) ==> d.wf() && abs(d@ * one_units() - a@ * b@) <= one_units() * one_units(),
        mul_exact(*a, *b) ==> r is Some,
        r matches Some(d) ==> (mul_exact(*a, *b) ==> d@ * one_units() == a@ * b@ && d.scale <= a.scale
            + b.scale),
        abs(a@) * abs(b@) < MAX_MANTISSA * one_units() * one_units() ==> r is Some,
{
    match Decimal::from_i128_with_scale(a.mantissa, a.scale).checked_mul(
        Decimal::from_i128_with_scale(b.mantissa, b.scale),
    ) {
        Some(d) => Some(Dec { mantissa: d.mantissa(), scale: d.scale() }),
        None => None,
    }
}

/// `Decimal::checked_div`: the quotient `/` computes, `None` for a zero
/// divisor or where `/` overflows. The exact quotient is rounded to fit a
/// 96-bit mantissa, so the result is within one whole unit of it; it
/// overflows only when even the quotient rounded to a whole number exceeds
/// 2^96 - 1.
#[verifier::external_body]
pub(crate) fn checked_quotient(a: &Dec, b: &Dec) -> (r: Option<Dec>)
    requires
        a.wf(),
        b.wf(),
    ensures
        r == as_dec(decimal_quotient(a.mantissa, a.scale, b.mantissa, b.scale)),
        b@ == 0 ==> r is None,
        r matches Some(d) ==> d.wf() && abs(d@) * abs(b@) <= (abs(a@) + abs(b@)) * one_units(),
        b@ != 0 && abs(a@) < MAX_MANTISSA * abs(b@) ==> r is Some,
{
    match Decimal::from_i128_with_scale(a.mantissa, a.scale).checked_div(
        Decimal::from_i128_with_scale(b.mantissa, b.scale),
    ) {
        Some(d) => Some(Dec { mantissa: d.mantissa(), scale: d.scale() }),
        None => None,
    }
}

/// `a + b` where `rust_decimal` computes it; a sum that fits exactly
/// never overflows.
pub(crate) fn dec_add(a: &Dec, b: &Dec) -> (r: Dec)
    requires
        a.wf(),
        b.wf(),
        sum_opt(*a, *b) is Some || add_fits(*a, *b),
    ensures
        r.wf(),
        sum_opt(*a, *b) == Some(r),
        r == sum_of(*a, *b),
        add_fits(*a, *b) ==> r@ == a@ + b@ && r.scale <= max_scale(*a, *b),
        abs(r@ - (a@ + b@)) <= one_units(),
{
    checked_sum(a, b).unwrap()
}

/// `a - b` where `rust_decimal` computes it.
pub(crate) fn dec_sub(a: &Dec, b: &Dec) -> (r: Dec)
    requires
        a.wf(),
        b.wf(),
        difference_opt(*a, *b) is Some || sub_fits(*a, *b),
    ensures
        r.wf(),
        difference_opt(*a, *b) == Some(r),
        r == difference_of(*a, *b),
        sub_fits(*a, *b) ==> r@ == a@ - b@ && r.scale <= max_scale(*a, *b),
        abs(r@ - (a@ - b@)) <= one_units(),
{
    checked_difference(a, b).unwrap()
}

/// `a * b` where `rust_decimal` computes it.
pub(crate) fn dec_mul(a: &Dec, b: &Dec) -> (r: Dec)
    requires
        a.wf(),
        b.wf(),
        product_opt(*a, *b) is Some || mul_exact(*a, *b),
    ensures
        r.wf(),
        product_opt(*a, *b) == Some(r),
        r == product_of(*a, *b),
        mul_exact(*a, *b) ==> r@ * one_units() == a@ * b@,
        mul_exact(*a, *b) ==> r.scale <= a.scale + b.scale,
        abs(r@ * one_units() - a@ * b@) <= one_units() * one_units(),
{
    checked_product(a, b).unwrap()
}

/// `a / b` where `rust_decimal` computes it.
pub(crate) fn dec_div(a: &Dec, b: &Dec) -> (r: Dec)
    requires
        a.wf(),
        b.wf(),
        quotient_opt(*a, *b) is Some,
    ensures
        r.wf(),
        quotient_opt(*a, *b) == Some(r),
        r == quotient_of(*a, *b),
        abs(r@) * abs(b@) <= (abs(a@) + abs(b@)) * one_units(),
{
    checked_quotient(a, b).unwrap()
}

/// Reads a decimal with `Decimal::from_str`. Every value it yields lies in
/// the representable range.
#[verifier::external_body]
pub(crate) fn dec_parse(text: &str) -> (r: Option<Dec>)
    ensures
        r == parsed_decimal(text@),
        r matches Some(d) ==> d.wf(),
{
    match <Decimal as core::str::FromStr>::from_str(text) {
        Ok(d) => Some(Dec { mantissa: d.mantissa(), scale: d.scale() }),
        Err(_) => None,
    }
}

/// Writes a decimal with `Decimal`'s `Display`.
#[verifier::external_body]
pub(crate) fn dec_text(d: &Dec) -> (r: String)
    requires
        d.wf(),
    ensures
        r@ == decimal_text(d.mantissa, d.scale),
{
    Decimal::from_i128_with_scale(d.mantissa, d.scale).to_string()
}


/// The text `Decimal`'s `Display` writes with a precision of three: the
/// value truncated to three decimal places, padded with zeros. It depends
/// on the value alone.
pub uninterp spec fn fixed3_text(value: int) -> Seq<char>;

/// The value lies below 10^28 in magnitude, so that its whole part has at
/// most 28 digits.
pub open spec fn fixed3_writable(d: Dec) -> bool {
    abs(d@) < pow10(28) * one_units()
}

/// Writes a decimal with `format!("{:.3}", ..)`. `Decimal`'s `Display`
/// builds the digits in a 32-character buffer and panics when they do not
/// fit, which with three decimals happens from 10^28 on.
#[verifier::external_body]
pub(crate) fn dec_text_fixed3(d: &Dec) -> (r: String)
    requires
        d.wf(),
        fixed3_writable(*d),
    ensures
        r@ == fixed3_text(d@),
{
    format!("{:.3}", Decimal::from_i128_with_scale(d.mantissa, d.scale))
}

pub proof fn lemma_pow10_values()
    ensures
        pow10(18) == 1000000000000000000int,
        pow10(28) == 10000000000000000000000000000int,
{
    reveal_with_fuel(pow10, 29);
}


/// The sum of a sequence of decimals added up from zero with
/// `rust_decimal`'s `+`; `None` where a partial sum overflows.
pub open spec fn decs_opt(s: Seq<Dec>) -> Option<Dec>
    decreases s.len(),
{
    if s.len() == 0 {
        Some(Dec { mantissa: 0, scale: 0 })
    } else {
        match decs_opt(s.drop_last()) {
            Some(t) => sum_opt(t, s.last()),
            None => None,
        }
    }
}

/// The sum of a sequence of decimals, where it is defined.
pub open spec fn decs_total(s: Seq<Dec>) -> Dec {
    decs_opt(s).unwrap()
}

/// A sum that is defined has defined partial sums.
pub proof fn lemma_decs_prefix(s: Seq<Dec>, n: int)
    requires
        0 <= n <= s.len(),
        decs_opt(s) is Some,
    ensures
        decs_opt(s.take(n)) is Some,
    decreases s.len(),
{
    if n < s.len() {
        assert(s.drop_last().take(n) =~= s.take(n));
        lemma_decs_prefix(s.drop_last(), n);
    } else {
        assert(s.take(n) =~= s);
    }
}

/// The sum of the decimals of `v` from position `from` on, followed by
/// `last`, added up from zero with `rust_decimal`'s `+`; `None` where a
/// partial sum overflows.
pub fn sum_from_then(v: &VecDeque<Dec>, from: usize, last: &Dec) -> (r: Option<Dec>)
    requires
        from <= v@.len(),
        forall|i: int| 0 <= i < v@.len() ==> (#[trigger] v@[i]).wf(),
        last.wf(),
    ensures
        r == decs_opt(v@.subrange(from as int, v@.len() as int).push(*last)),
        r matches Some(t) ==> t.wf(),
{
    let ghost s = v@.subrange(from as int, v@.len() as int).push(*last);
    let mut acc = Dec::zero();
    let mut i: usize = from;
    assert(s.take(0).len() == 0);
    while i < v.len()
        invariant
            from <= i <= v@.len(),
            forall|k: int| 0 <= k < v@.len() ==> (#[trigger] v@[k]).wf(),
            s == v@.subrange(from as int, v@.len() as int).push(*last),
            acc.wf(),
            decs_opt(s.take(i - from)) == Some(acc),
        decreases v@.len() - i,
    {
        let n = i - from;
        assert(s.take(n + 1).drop_last() =~= s.take(n as int));
        assert(s.take(n + 1).last() == v@[i as int]);
        match checked_sum(&acc, &v[i]) {
            Some(t) => {
                acc = t;
            },
            None => {
                proof {
                    if decs_opt(s) is Some {
                        lemma_decs_prefix(s, n + 1);
                    }
                }
                return None;
            },
        }
        i = i + 1;
    }
    let n = v.len() - from;
    assert(s.take(n + 1) =~= s);
    assert(s.take(n + 1).drop_last() =~= s.take(n as int));
    checked_sum(&acc, last)
}

/// Adds up the decimals of `v` from zero with `rust_decimal`'s `+`, or
/// `None` where a partial sum overflows.
pub fn dec_sum_checked(v: &VecDeque<Dec>) -> (r: Option<Dec>)
    requires
        forall|i: int| 0 <= i < v@.len() ==> (#[trigger] v@[i]).wf(),
    ensures
        r == decs_opt(v@),
        r matches Some(t) ==> t.wf(),
{
    let mut acc = Dec::zero();
    let mut i: usize = 0;
    assert(v@.take(0).len() == 0);
    while i < v.len()
        invariant
            0 <= i <= v@.len(),
            forall|k: int| 0 <= k < v@.len() ==> (#[trigger] v@[k]).wf(),
            acc.wf(),
            decs_opt(v@.take(i as int)) == Some(acc),
        decreases v@.len() - i,
    {
        assert(v@.take(i + 1).drop_last() =~= v@.take(i as int));
        assert(v@.take(i + 1).last() == v@[i as int]);
        match checked_sum(&acc, &v[i]) {
            Some(t) => {
                acc = t;
            },
            None => {
                proof {
                    if decs_opt(v@) is Some {
                        lemma_decs_prefix(v@, i + 1);
                    }
                }
                return None;
            },
        }
        i = i + 1;
    }
    assert(v@.take(v@.len() as int) =~= v@);
    Some(acc)
}

/// Adds up the decimals of `v` from zero with `rust_decimal`'s `+`, where
/// no partial sum overflows.
pub fn dec_sum(v: &VecDeque<Dec>) -> (r: Dec)
    requires
        forall|i: int| 0 <= i < v@.len() ==> (#[trigger] v@[i]).wf(),
        decs_opt(v@) is Some,
    ensures
        r.wf(),
        decs_opt(v@) == Some(r),
        r == decs_total(v@),
{
    let mut acc = Dec::zero();
    let mut i: usize = 0;
    assert(v@.take(0).len() == 0);
    while i < v.len()
        invariant
            0 <= i <= v@.len(),
            forall|k: int| 0 <= k < v@.len() ==> (#[trigger] v@[k]).wf(),
            decs_opt(v@) is Some,
            acc.wf(),
            decs_opt(v@.take(i as int)) == Some(acc),
        decreases v@.len() - i,
    {
        assert(v@.take(i + 1).drop_last() =~= v@.take(i as int));
        assert(v@.take(i + 1).last() == v@[i as int]);
        proof {
            lemma_decs_prefix(v@, i + 1);
        }
        acc = dec_add(&acc, &v[i]);
        i = i + 1;
    }
    assert(v@.take(v@.len() as int) =~= v@);
    acc
}

/// `(hi - lo) / base` can be computed: neither the difference nor the
/// quotient overflows, and the base is not zero.
pub open spec fn ratio_defined(hi: Dec, lo: Dec, base: Dec) -> bool {
    &&& difference_opt(hi, lo) is Some
    &&& quotient_opt(difference_of(hi, lo), base) is Some
}

/// Whether `(hi - lo) / base` can be computed.
pub fn ratio_computes(hi: &Dec, lo: &Dec, base: &Dec) -> (r: bool)
    requires
        hi.wf(),
        lo.wf(),
        base.wf(),
    ensures
        r == ratio_defined(*hi, *lo, *base),
{
    match checked_difference(hi, lo) {
        Some(d) => checked_quotient(&d, base).is_some(),
        None => false,
    }
}

impl Dec {
    /// Whether the decimal lies in the representable range.
    pub fn is_wf(&self) -> (r: bool)
        ensures
            r == self.wf(),
    {
        self.scale <= MAX_SCALE && -MAX_MANTISSA <= self.mantissa && self.mantissa <= MAX_MANTISSA
    }

    /// The magnitude of the decimal, at the same scale.
    pub fn magnitude(&self) -> (r: Dec)
        requires
            self.wf(),
        ensures
            r.wf(),
            r@ == abs(self@),
            r == magnitude_of(*self),
    {
        if self.mantissa < 0 {
            let r = Dec { mantissa: -self.mantissa, scale: self.scale };
            proof {
                let p = pow10((28 - self.scale) as nat);
                assert(r@ == -self@) by (nonlinear_arith)
                    requires
                        r@ == -(self.mantissa as int) * p,
                        self@ == (self.mantissa as int) * p,
                ;
                lemma_pow10_positive((28 - self.scale) as nat);
                assert(self@ < 0) by (nonlinear_arith)
                    requires
                        self@ == (self.mantissa as int) * p,
                        self.mantissa < 0,
                        p > 0,
                ;
            }
            r
        } else {
            proof {
                lemma_pow10_positive((28 - self.scale) as nat);
                let p = pow10((28 - self.scale) as nat);
                assert(self@ >= 0) by (nonlinear_arith)
                    requires
                        self@ == (self.mantissa as int) * p,
                        self.mantissa >= 0,
                        p > 0,
                ;
            }
            *self
        }
    }
}

/// The decimal with the magnitude of `d`, at the same scale.
pub open spec fn magnitude_of(d: Dec) -> Dec {
    Dec {
        mantissa: if d.mantissa < 0 {
            (-d.mantissa) as i128
        } else {
            d.mantissa
        },
        scale: d.scale,
    }
}






/// `(hi - lo) / base` with `rust_decimal`'s `-` and `/`.
pub fn dec_ratio(hi: &Dec, lo: &Dec, base: &Dec) -> (r: Dec)
    requires
        hi.wf(),
        lo.wf(),
        base.wf(),
        ratio_defined(*hi, *lo, *base),
    ensures
        r.wf(),
        r == quotient_of(difference_of(*hi, *lo), *base),
{
    let diff = dec_sub(hi, lo);
    dec_div(&diff, base)
}



/// `a <= b` by value.
pub fn dec_le(a: &Dec, b: &Dec) -> (r: bool)
    requires
        a.wf(),
        b.wf(),
    ensures
        r == (a@ <= b@),
{
    !dec_lt(b, a)
}

/// `a == b` by value (`rust_decimal` compares values, not representations).
pub fn dec_eq(a: &Dec, b: &Dec) -> (r: bool)
    requires
        a.wf(),
        b.wf(),
    ensures
        r == (a@ == b@),
{
    !dec_lt(a, b) && !dec_lt(b, a)
}

/// `Ord::max`: the second argument unless the first is strictly greater.
pub fn dec_max(a: Dec, b: Dec) -> (r: Dec)
    requires
        a.wf(),
        b.wf(),
    ensures
        r == (if b@ < a@ { a } else { b }),
{
    if dec_lt(&b, &a) {
        a
    } else {
        b
    }
}

/// `Ord::min`: the first argument unless the second is strictly smaller.
pub fn dec_min(a: Dec, b: Dec) -> (r: Dec)
    requires
        a.wf(),
        b.wf(),
    ensures
        r == (if b@ < a@ { b } else { a }),
{
    if dec_lt(&b, &a) {
        b
    } else {
        a
    }
}

} // verus!

use vstd::arithmetic::div_mod::{
    lemma_div_is_ordered, lemma_div_is_ordered_by_denominator, lemma_div_multiples_vanish,
    lemma_div_pos_is_pos,
};
use vstd::arithmetic::mul::{lemma_mul_inequality, lemma_mul_nonnegative};
use vstd::prelude::*;

verus! {

/// Number of atomic units in one whole decimal unit (18 fractional digits).
pub const DECIMAL_FRACTIONAL: u128 = 1_000_000_000_000_000_000;

/// The product of two fixed-point values, given by their atomics, rounded down.
pub open spec fn mul_floor(a: int, b: int) -> int {
    a * b / (DECIMAL_FRACTIONAL as int)
}

/// The quotient of two fixed-point values, given by their atomics, rounded down.
pub open spec fn div_floor(a: int, b: int) -> int {
    a * (DECIMAL_FRACTIONAL as int) / b
}

/// Multiplying by a factor of at most one never increases a value.
pub proof fn lemma_mul_floor_le(a: int, b: int)
    requires
        0 <= a,
        0 <= b <= DECIMAL_FRACTIONAL,
    ensures
        0 <= mul_floor(a, b) <= a,
        0 <= mul_floor(b, a) <= a,
{
    let f = DECIMAL_FRACTIONAL as int;
    lemma_mul_inequality(b, f, a);
    lemma_mul_nonnegative(a, b);
    assert(a * b == b * a) by (nonlinear_arith);
    assert(f * a == a * f) by (nonlinear_arith);
    lemma_div_is_ordered(a * b, f * a, f);
    lemma_div_multiples_vanish(a, f);
    lemma_div_pos_is_pos(a * b, f);
}

/// Multiplying by a factor of at most two at most doubles a value.
pub proof fn lemma_mul_floor_le_double(a: int, b: int)
    requires
        0 <= a,
        0 <= b <= 2 * DECIMAL_FRACTIONAL,
    ensures
        0 <= mul_floor(a, b) <= 2 * a,
{
    let f = DECIMAL_FRACTIONAL as int;
    lemma_mul_inequality(b, 2 * f, a);
    lemma_mul_nonnegative(a, b);
    assert(a * b == b * a) by (nonlinear_arith);
    assert(2 * f * a == f * (2 * a)) by (nonlinear_arith);
    lemma_div_is_ordered(a * b, f * (2 * a), f);
    lemma_div_multiples_vanish(2 * a, f);
    lemma_div_pos_is_pos(a * b, f);
}

/// A product with a zero factor is zero.
pub proof fn lemma_mul_floor_zero(a: int)
    ensures
        mul_floor(a, 0) == 0,
        mul_floor(0, a) == 0,
{
    assert(a * 0 == 0 && 0 * a == 0) by (nonlinear_arith);
}

/// The ratio of a value to one at least as large is at most one.
pub proof fn lemma_div_floor_le_one(a: int, b: int)
    requires
        0 <= a <= b,
        0 < b,
    ensures
        0 <= div_floor(a, b) <= DECIMAL_FRACTIONAL,
{
    let f = DECIMAL_FRACTIONAL as int;
    lemma_mul_inequality(a, b, f);
    lemma_mul_nonnegative(a, f);
    lemma_div_is_ordered(a * f, b * f, b);
    assert(b * f == f * b) by (nonlinear_arith);
    lemma_div_multiples_vanish(f, b);
    lemma_div_pos_is_pos(a * f, b);
}

/// Dividing by a value of at least one never increases a value.
pub proof fn lemma_div_floor_le(a: int, b: int)
    requires
        0 <= a,
        DECIMAL_FRACTIONAL <= b,
    ensures
        0 <= div_floor(a, b) <= a,
{
    let f = DECIMAL_FRACTIONAL as int;
    lemma_mul_nonnegative(a, f);
    lemma_div_is_ordered_by_denominator(a * f, f, b);
    assert(a * f == f * a) by (nonlinear_arith);
    lemma_div_multiples_vanish(a, f);
    lemma_div_pos_is_pos(a * f, b);
}

/// Relies on `cosmwasm_std::Decimal::checked_mul`: the product of the atomics divided by
/// 10^18 (rounded down), computed in 256 bits, and an error when it exceeds 128 bits.
#[verifier::external_body]
fn checked_mul_atomics(a: u128, b: u128) -> (r: Option<u128>)
    ensures
        match r {
            Some(v) => v == mul_floor(a as int, b as int),
            None => mul_floor(a as int, b as int) > u128::MAX,
        },
{
    cosmwasm_std::Decimal::raw(a).checked_mul(cosmwasm_std::Decimal::raw(b)).ok().map(
        |d| d.atomics().u128(),
    )
}

/// Relies on `cosmwasm_std::Decimal::checked_from_ratio`: `n * 10^18 / d` rounded down,
/// computed in 256 bits, and an error when `d` is zero or the result exceeds 128 bits.
/// Decimal division is this ratio taken over the atomics of both operands.
#[verifier::external_body]
fn checked_from_ratio_atomics(n: u128, d: u128) -> (r: Option<u128>)
    ensures
        match r {
            Some(v) => d != 0 && v == div_floor(n as int, d as int),
            None => d == 0 || div_floor(n as int, d as int) > u128::MAX,
        },
{
    cosmwasm_std::Decimal::checked_from_ratio(n, d).ok().map(|x| x.atomics().u128())
}

/// `a * b`, or nothing when the product does not fit.
pub fn checked_mul(a: Decimal, b: Decimal) -> (r: Option<Decimal>)
    ensures
        r is Some <==> mul_floor(a@, b@) <= u128::MAX,
        r matches Some(v) ==> v@ == mul_floor(a@, b@),
{
    match checked_mul_atomics(a.atomics, b.atomics) {
        Some(v) => Some(Decimal { atomics: v }),
        None => None,
    }
}

/// `a / b`, or nothing when `b` is zero or the quotient does not fit.
pub fn checked_div(a: Decimal, b: Decimal) -> (r: Option<Decimal>)
    ensures
        r is Some <==> b@ != 0 && div_floor(a@, b@) <= u128::MAX,
        r matches Some(v) ==> v@ == div_floor(a@, b@),
{
    match checked_from_ratio_atomics(a.atomics, b.atomics) {
        Some(v) => Some(Decimal { atomics: v }),
        None => None,
    }
}

/// A non-negative fixed-point number with 18 fractional digits, held as its atomics.
#[derive(Clone, Copy, Debug, PartialEq, Eq, Structural)]
pub struct Decimal {
    pub atomics: u128,
}

impl View for Decimal {
    type V = int;

    open spec fn view(&self) -> int {
        self.atomics as int
    }
}

impl Decimal {
    pub fn zero() -> (r: Decimal)
        ensures
            r@ == 0,
    {
        Decimal { atomics: 0 }
    }

    pub fn one() -> (r: Decimal)
        ensures
            r@ == DECIMAL_FRACTIONAL,
    {
        Decimal { atomics: DECIMAL_FRACTIONAL }
    }

    pub fn raw(atomics: u128) -> (r: Decimal)
        ensures
            r@ == atomics,
    {
        Decimal { atomics }
    }

    pub fn is_zero(&self) -> (r: bool)
        ensures
            r == (self@ == 0),
    {
        self.atomics == 0
    }

    /// The whole number `n` as a decimal.
    pub fn from_whole(n: u128) -> (r: Decimal)
        requires
            n * DECIMAL_FRACTIONAL <= u128::MAX,
        ensures
            r@ == n * DECIMAL_FRACTIONAL,
    {
        Decimal { atomics: n * DECIMAL_FRACTIONAL }
    }

    /// `n / d` as a decimal, rounded down to 18 fractional digits.
    pub fn from_ratio(n: u128, d: u128) -> (r: Decimal)
        requires
            d != 0,
            div_floor(n as int, d as int) <= u128::MAX,
        ensures
            r@ == div_floor(n as int, d as int),
    {
        Decimal { atomics: checked_from_ratio_atomics(n, d).unwrap() }
    }

    pub fn add(self, o: Decimal) -> (r: Decimal)
        requires
            self@ + o@ <= u128::MAX,
        ensures
            r@ == self@ + o@,
    {
        Decimal { atomics: self.atomics + o.atomics }
    }

    pub fn sub(self, o: Decimal) -> (r: Decimal)
        requires
            o@ <= self@,
        ensures
            r@ == self@ - o@,
    {
        Decimal { atomics: self.atomics - o.atomics }
    }

    pub fn mul(self, o: Decimal) -> (r: Decimal)
        requires
            mul_floor(self@, o@) <= u128::MAX,
        ensures
            r@ == mul_floor(self@, o@),
    {
        Decimal { atomics: checked_mul_atomics(self.atomics, o.atomics).unwrap() }
    }

    pub fn div(self, o: Decimal) -> (r: Decimal)
        requires
            o@ != 0,
            div_floor(self@, o@) <= u128::MAX,
        ensures
            r@ == div_floor(self@, o@),
    {
        Decimal { atomics: checked_from_ratio_atomics(self.atomics, o.atomics).unwrap() }
    }

    /// The whole part, dropping the fractional digits.
    pub fn to_uint_floor(self) -> (r: u128)
        ensures
            r == self@ / (DECIMAL_FRACTIONAL as int),
    {
        self.atomics / DECIMAL_FRACTIONAL
    }

    pub fn gt(&self, o: &Decimal) -> (r: bool)
        ensures
            r == (self@ > o@),
    {
        self.atomics > o.atomics
    }
}

} // verus!

//! Fixed-point ratio arithmetic.
//!
//! The ledger stores ratios (exchange rate, fees) as fixed-point numbers with
//! 18 fractional digits, mirroring the representation of the external decimal
//! type. A [`Dec`] holds the raw scaled integer; the mathematical value is
//! `raw / DEC_ONE`. Products and quotients need a 256-bit intermediate, which
//! the external library provides behind trusted wrappers; addition,
//! subtraction and comparison are plain integer operations on the raw value
//! and are implemented and verified here.

use vstd::prelude::*;
use crate::DEC_ONE;

verus! {

/// Scale used when a quotient of an amount by a ratio is computed through an
/// intermediate ratio, preserving nine fractional digits.
pub const FRACTIONAL: u128 = 1_000_000_000u128;

/// A non-negative fixed-point ratio with 18 fractional digits.
#[derive(Clone, Copy, PartialEq, Eq, Structural, Debug)]
pub struct Dec {
    /// The value scaled by `DEC_ONE`.
    pub raw: u128,
}

/// Floor of `(num * DEC_ONE) / den`: the raw value of the ratio `num / den`.
pub open spec fn spec_ratio_raw(num: int, den: int) -> int {
    (num * DEC_ONE) / den
}

/// Floor of `(a * raw) / DEC_ONE`: an integer amount multiplied by a ratio.
pub open spec fn spec_mul_floor(a: int, raw: int) -> int {
    (a * raw) / (DEC_ONE as int)
}

/// The amount `a` divided by the ratio with raw value `raw`: the divisor is
/// scaled down to nine fractional digits, `a` is divided by it as a ratio,
/// and the result is scaled back up.
pub open spec fn spec_div_amount(a: int, raw: int) -> int {
    spec_ratio_raw(a, raw / (FRACTIONAL as int)) / (FRACTIONAL as int)
}

/// Relies on `cosmwasm_std::Decimal::checked_from_ratio`: the result's raw
/// value is `num * 10^18 / den`, rounded down; division by zero and raw
/// values beyond `u128::MAX` are reported as `Err`.
#[verifier::external_body]
fn ratio_call(num: u128, den: u128) -> (r: Option<Dec>)
    ensures
        den == 0 ==> r is None,
        den > 0 && spec_ratio_raw(num as int, den as int) <= u128::MAX ==> r == Some(Dec {
            raw: spec_ratio_raw(num as int, den as int) as u128,
        }),
        den > 0 && spec_ratio_raw(num as int, den as int) > u128::MAX ==> r is None,
{
    match cosmwasm_std::Decimal::checked_from_ratio(num, den) {
        Ok(d) => Some(Dec { raw: d.atomics().u128() }),
        Err(_) => None,
    }
}

/// Relies on `cosmwasm_std::Uint128::checked_mul_floor` with a decimal
/// right-hand side: the result is `a * raw / 10^18`, rounded down; results
/// beyond `u128::MAX` are reported as `Err`.
#[verifier::external_body]
fn mul_floor_call(a: u128, d: Dec) -> (r: Option<u128>)
    ensures
        spec_mul_floor(a as int, d.raw as int) <= u128::MAX ==> r == Some(
            spec_mul_floor(a as int, d.raw as int) as u128,
        ),
        spec_mul_floor(a as int, d.raw as int) > u128::MAX ==> r is None,
{
    match cosmwasm_std::Uint128::new(a).checked_mul_floor(cosmwasm_std::Decimal::raw(d.raw)) {
        Ok(v) => Some(v.u128()),
        Err(_) => None,
    }
}

/// Relies on `cosmwasm_std::Decimal::checked_mul`: the product's raw value
/// is `a.raw * b.raw / 10^18`, rounded down, computed in 256 bits; results
/// beyond `u128::MAX` are reported as `Err`.
#[verifier::external_body]
fn mul_dec_call(a: Dec, b: Dec) -> (r: Option<Dec>)
    ensures
        spec_mul_floor(a.raw as int, b.raw as int) <= u128::MAX ==> r == Some(Dec {
            raw: spec_mul_floor(a.raw as int, b.raw as int) as u128,
        }),
        spec_mul_floor(a.raw as int, b.raw as int) > u128::MAX ==> r is None,
{
    match cosmwasm_std::Decimal::raw(a.raw).checked_mul(cosmwasm_std::Decimal::raw(b.raw)) {
        Ok(d) => Some(Dec { raw: d.atomics().u128() }),
        Err(_) => None,
    }
}

impl Dec {
    /// The ratio zero.
    pub fn zero() -> (r: Dec)
        ensures
            r.raw == 0,
    {
        Dec { raw: 0 }
    }

    /// The ratio one.
    pub fn one() -> (r: Dec)
        ensures
            r.raw == DEC_ONE,
    {
        Dec { raw: DEC_ONE }
    }

    /// Whether this ratio is zero.
    pub fn is_zero(&self) -> (r: bool)
        ensures
            r == (self.raw == 0),
    {
        self.raw == 0
    }

    /// Whether `self < other`; with a shared scale this is raw comparison.
    pub fn lt(&self, other: &Dec) -> (r: bool)
        ensures
            r == (self.raw < other.raw),
    {
        self.raw < other.raw
    }

    /// The ratio `num / den`, rounded down to the eighteenth fractional
    /// digit. `None` when `den` is zero or the raw value would overflow.
    pub fn ratio(num: u128, den: u128) -> (r: Option<Dec>)
        ensures
            den == 0 ==> r is None,
            den > 0 && spec_ratio_raw(num as int, den as int) <= u128::MAX ==> r == Some(Dec {
                raw: spec_ratio_raw(num as int, den as int) as u128,
            }),
            den > 0 && spec_ratio_raw(num as int, den as int) > u128::MAX ==> r is None,
    {
        ratio_call(num, den)
    }

    /// The product of two ratios, rounded down to the eighteenth fractional
    /// digit through a wider intermediate. `None` when the product's raw
    /// value would overflow.
    pub fn checked_mul(&self, other: &Dec) -> (r: Option<Dec>)
        ensures
            spec_mul_floor(self.raw as int, other.raw as int) <= u128::MAX ==> r == Some(Dec {
                raw: spec_mul_floor(self.raw as int, other.raw as int) as u128,
            }),
            spec_mul_floor(self.raw as int, other.raw as int) > u128::MAX ==> r is None,
    {
        mul_dec_call(*self, *other)
    }

    /// Raw subtraction; the scale is shared, so values subtract when raws
    /// subtract. `None` when the result would be negative.
    pub fn checked_sub(&self, other: &Dec) -> (r: Option<Dec>)
        ensures
            self.raw >= other.raw ==> r == Some(Dec { raw: (self.raw - other.raw) as u128 }),
            self.raw < other.raw ==> r is None,
    {
        if self.raw >= other.raw {
            Some(Dec { raw: self.raw - other.raw })
        } else {
            None
        }
    }

    /// Raw addition; the scale is shared, so values add when raws add.
    pub fn checked_add(&self, other: &Dec) -> (r: Option<Dec>)
        ensures
            self.raw + other.raw <= u128::MAX ==> r == Some(Dec {
                raw: (self.raw + other.raw) as u128,
            }),
            self.raw + other.raw > u128::MAX ==> r is None,
    {
        if self.raw <= u128::MAX - other.raw {
            Some(Dec { raw: self.raw + other.raw })
        } else {
            None
        }
    }
}

/// The amount `a` multiplied by the ratio `d`, rounded down. `None` when the
/// product exceeds `u128::MAX`.
pub fn mul_amount(a: u128, d: Dec) -> (r: Option<u128>)
    ensures
        spec_mul_floor(a as int, d.raw as int) <= u128::MAX ==> r == Some(
            spec_mul_floor(a as int, d.raw as int) as u128,
        ),
        spec_mul_floor(a as int, d.raw as int) > u128::MAX ==> r is None,
{
    mul_floor_call(a, d)
}

/// The amount `a` divided by the ratio `b`, preserving nine fractional digits
/// through the intermediate: `(a / (b * FRACTIONAL)) * FRACTIONAL`. `None`
/// when `b` rounds to zero at nine digits or an intermediate overflows.
pub fn decimal_division(a: u128, b: Dec) -> (r: Option<u128>)
    ensures
        ({
            let den = b.raw as int / FRACTIONAL as int;
            &&& (den == 0 ==> r is None)
            &&& (den > 0 && spec_ratio_raw(a as int, den) <= u128::MAX ==> r == Some(
                spec_div_amount(a as int, b.raw as int) as u128,
            ))
            &&& (den > 0 && spec_ratio_raw(a as int, den) > u128::MAX ==> r is None)
        }),
{
    let den = match mul_floor_call(FRACTIONAL, b) {
        Some(v) => v,
        None => {
            proof {
                lemma_fractional_mul_fits(b.raw as int);
            }
            return None;
        },
    };
    proof {
        lemma_fractional_mul_fits(b.raw as int);
    }
    let q = match ratio_call(a, den) {
        Some(d) => d,
        None => {
            return None;
        },
    };
    proof {
        lemma_fractional_mul_fits(q.raw as int);
    }
    match mul_floor_call(FRACTIONAL, q) {
        Some(v) => Some(v),
        None => None,
    }
}

/// `FRACTIONAL * raw / DEC_ONE` equals `raw / FRACTIONAL` and fits in `u128`.
proof fn lemma_fractional_mul_fits(raw: int)
    requires
        0 <= raw <= u128::MAX,
    ensures
        spec_mul_floor(FRACTIONAL as int, raw) == raw / (FRACTIONAL as int),
        spec_mul_floor(FRACTIONAL as int, raw) <= u128::MAX,
{
    assert(FRACTIONAL as int * raw == raw * FRACTIONAL as int) by (nonlinear_arith);
    assert((raw * FRACTIONAL as int) / (DEC_ONE as int) == raw / (FRACTIONAL as int)) by {
        vstd::arithmetic::div_mod::lemma_div_denominator(
            raw * FRACTIONAL as int,
            FRACTIONAL as int,
            FRACTIONAL as int,
        );
        vstd::arithmetic::div_mod::lemma_div_multiples_vanish(raw, FRACTIONAL as int);
    }
    vstd::arithmetic::div_mod::lemma_div_is_ordered(raw, u128::MAX as int, FRACTIONAL as int);
    vstd::arithmetic::div_mod::lemma_div_pos_is_pos(raw, FRACTIONAL as int);
    assert(u128::MAX as int / (FRACTIONAL as int) <= u128::MAX as int) by (nonlinear_arith);
}

} // verus!

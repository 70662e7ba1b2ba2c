//! Fixed-point and ratio arithmetic on token amounts.
//!
//! Amounts are `u128` (the range of `cosmwasm_std::Uint128`); fractions are
//! `Decimal`, a fixed-point number with 18 decimal places stored as its atomics
//! (the range of `cosmwasm_std::Decimal`). Every product that may leave the
//! `u128` range goes through `Uint128::checked_multiply_ratio`, whose 256-bit
//! intermediate this library does not rebuild.
use vstd::prelude::*;
use vstd::string::StringExecFns;
use crate::common::{decimal, decimal_string, padded, padded_string, trim_trailing_zeros, trim_trailing_zeros_string};

verus! {

/// `10^18`: the atomics of the decimal one.
pub const DECIMAL_FRACTIONAL: u128 = 1_000_000_000_000_000_000u128;

pub open spec fn fractional() -> int {
    1_000_000_000_000_000_000int
}

/// A non-negative fixed-point number with 18 decimal places.
#[derive(Clone, Copy, Debug, PartialEq, Eq, Structural)]
pub struct Decimal {
    /// The number times `10^18`.
    pub atomics: u128,
}

/// The result of a checked `a * n / d` on `u128`: `None` when the denominator
/// is zero or the floored quotient leaves the `u128` range.
pub open spec fn checked_ratio(a: int, n: int, d: int) -> Option<u128> {
    if d == 0 {
        None
    } else if a * n / d > u128::MAX {
        None
    } else {
        Some((a * n / d) as u128)
    }
}

/// `cosmwasm_std::Uint128::checked_multiply_ratio`: `a * n / d` computed through
/// a 256-bit product and floored; it fails when `d` is zero or when the quotient
/// does not fit in 128 bits. The contract claims exactly that.
#[verifier::external_body]
pub(crate) fn checked_multiply_ratio(a: u128, n: u128, d: u128) -> (r: Option<u128>)
    ensures
        r == checked_ratio(a as int, n as int, d as int),
{
    match cosmwasm_std::Uint128::new(a).checked_multiply_ratio(n, d) {
        Ok(v) => Some(v.u128()),
        Err(_) => None,
    }
}

/// The text of a decimal, as its `Display` writes it: the whole part, and when
/// there is a fractional part, a point and its 18 digits without the trailing
/// zeros.
pub open spec fn decimal_text(d: Decimal) -> Seq<char> {
    let whole = (d.atomics / DECIMAL_FRACTIONAL) as nat;
    let frac = (d.atomics % DECIMAL_FRACTIONAL) as nat;
    if frac == 0 {
        decimal(whole)
    } else {
        decimal(whole) + "."@ + trim_trailing_zeros(padded(frac, 18))
    }
}

impl Decimal {
    /// The text of the decimal.
    pub fn to_text(&self) -> (r: String)
        ensures
            r@ == decimal_text(*self),
    {
        let whole = self.atomics / DECIMAL_FRACTIONAL;
        let frac = self.atomics % DECIMAL_FRACTIONAL;
        let mut s = decimal_string(whole);
        if frac == 0 {
            return s;
        }
        s.append(".");
        let p = padded_string(frac, 18);
        let t = trim_trailing_zeros_string(p.as_str());
        s.append(t.as_str());
        s
    }

    pub open spec fn value(self) -> int {
        self.atomics as int
    }

    /// The decimal zero.
    pub fn zero() -> (r: Decimal)
        ensures
            r.atomics == 0,
    {
        Decimal { atomics: 0 }
    }

    /// The decimal one.
    pub fn one() -> (r: Decimal)
        ensures
            r.atomics == fractional(),
    {
        Decimal { atomics: DECIMAL_FRACTIONAL }
    }

    pub fn is_zero(&self) -> (r: bool)
        ensures
            r == (self.atomics == 0),
    {
        self.atomics == 0
    }

    /// `numerator / denominator` as a decimal, floored to 18 places
    /// (`Decimal::checked_from_ratio`); `None` on a zero denominator or overflow.
    pub fn checked_from_ratio(numerator: u128, denominator: u128) -> (r: Option<Decimal>)
        ensures
            r == (match checked_ratio(numerator as int, fractional(), denominator as int) {
                Some(v) => Some(Decimal { atomics: v }),
                None => None,
            }),
    {
        match checked_multiply_ratio(numerator, DECIMAL_FRACTIONAL, denominator) {
            Some(v) => Some(Decimal { atomics: v }),
            None => None,
        }
    }

    /// The sum of two decimals; `None` on overflow.
    pub fn checked_add(self, other: Decimal) -> (r: Option<Decimal>)
        ensures
            r == (if self.atomics + other.atomics > u128::MAX {
                None
            } else {
                Some(Decimal { atomics: (self.atomics + other.atomics) as u128 })
            }),
    {
        match self.atomics.checked_add(other.atomics) {
            Some(v) => Some(Decimal { atomics: v }),
            None => None,
        }
    }

    /// The difference of two decimals; `None` when `other` is larger.
    pub fn checked_sub(self, other: Decimal) -> (r: Option<Decimal>)
        ensures
            r == (if self.atomics < other.atomics {
                None
            } else {
                Some(Decimal { atomics: (self.atomics - other.atomics) as u128 })
            }),
    {
        if self.atomics < other.atomics {
            None
        } else {
            Some(Decimal { atomics: self.atomics - other.atomics })
        }
    }
}

/// `amount * d`, floored to an integer (`Uint128 * Decimal`); `None` on overflow.
pub open spec fn spec_mul_dec(amount: int, d: Decimal) -> Option<u128> {
    checked_ratio(amount, d.atomics as int, fractional())
}

/// `amount * d` floored, as `Uint128 * Decimal` computes it; `None` where the
/// product leaves the `u128` range.
pub fn mul_dec(amount: u128, d: Decimal) -> (r: Option<u128>)
    ensures
        r == spec_mul_dec(amount as int, d),
{
    if amount == 0 || d.atomics == 0 {
        proof {
            assert(amount as int * d.atomics as int == 0) by (nonlinear_arith)
                requires amount == 0 || d.atomics == 0;
        }
        Some(0)
    } else {
        checked_multiply_ratio(amount, d.atomics, DECIMAL_FRACTIONAL)
    }
}

/// `floor(amount * numerator / denominator)` (`Uint128::multiply_ratio`);
/// `None` on a zero denominator or overflow.
pub fn multiply_ratio(amount: u128, numerator: u128, denominator: u128) -> (r: Option<u128>)
    ensures
        r == checked_ratio(amount as int, numerator as int, denominator as int),
{
    checked_multiply_ratio(amount, numerator, denominator)
}

} // verus!

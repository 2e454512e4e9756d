//! Arbitrary-precision natural numbers.
//!
//! A [`Natural`] holds its value as base 2^32 digits. The arithmetic itself
//! is done by `num-bigint`; each operation used is described here by a
//! contract over the mathematical value, and those contracts are assumed,
//! not proved.

use crate::decimal::{decimal_text, parse_decimal};
use num_bigint::{BigUint, ParseBigIntError};
use num_traits::ToPrimitive;
use std::str::FromStr;
use vstd::arithmetic::power2::pow2;
use vstd::prelude::*;

verus! {

/// The number written by `limbs` in base 2^32, least significant digit first.
pub open spec fn limbs_value(limbs: Seq<u32>) -> nat
    decreases limbs.len(),
{
    if limbs.len() == 0 {
        0
    } else {
        limbs[0] as nat + 0x1_0000_0000 * limbs_value(limbs.drop_first())
    }
}

/// A natural number of any size.
#[derive(Debug)]
pub struct Natural {
    pub(crate) limbs: Vec<u32>,
}

impl View for Natural {
    type V = nat;

    closed spec fn view(&self) -> nat {
        limbs_value(self.limbs@)
    }
}

/// `num_bigint::ParseBigIntError`, the error of `BigUint::from_str`. Nothing
/// is read from it.
#[verifier::external_type_specification]
#[verifier::external_body]
pub struct ExParseBigIntError(ParseBigIntError);

/// `BigUint::from(u64)`: the big number with the value of `x`.
#[verifier::external_body]
pub(crate) fn natural_of_u64(x: u64) -> (n: Natural)
    ensures
        n@ == x,
{
    Natural { limbs: BigUint::from(x).to_u32_digits() }
}

/// `ToPrimitive::to_u64` on a `BigUint`: the value as a `u64` where it fits,
/// `None` where it does not.
#[verifier::external_body]
pub(crate) fn natural_to_u64(a: &Natural) -> (r: Option<u64>)
    ensures
        r is Some <==> a@ <= u64::MAX,
        r matches Some(x) ==> x == a@,
{
    BigUint::from_slice(&a.limbs).to_u64()
}

/// `BigUint + BigUint`: the sum.
#[verifier::external_body]
pub(crate) fn natural_sum(a: &Natural, b: &Natural) -> (n: Natural)
    ensures
        n@ == a@ + b@,
{
    Natural { limbs: (BigUint::from_slice(&a.limbs) + BigUint::from_slice(&b.limbs)).to_u32_digits() }
}

/// `BigUint - BigUint`: the difference. The subtraction panics where the
/// result would be negative, so that case is excluded.
#[verifier::external_body]
pub(crate) fn natural_difference(a: &Natural, b: &Natural) -> (n: Natural)
    requires
        b@ <= a@,
    ensures
        n@ == a@ - b@,
{
    Natural { limbs: (BigUint::from_slice(&a.limbs) - BigUint::from_slice(&b.limbs)).to_u32_digits() }
}

/// `BigUint * BigUint`: the product.
#[verifier::external_body]
pub(crate) fn natural_product(a: &Natural, b: &Natural) -> (n: Natural)
    ensures
        n@ == a@ * b@,
{
    Natural { limbs: (BigUint::from_slice(&a.limbs) * BigUint::from_slice(&b.limbs)).to_u32_digits() }
}

/// `BigUint % BigUint`: the remainder of the division. It panics on a zero
/// divisor, so that case is excluded.
#[verifier::external_body]
pub(crate) fn natural_remainder(a: &Natural, m: &Natural) -> (n: Natural)
    requires
        m@ > 0,
    ensures
        n@ == a@ % m@,
{
    Natural { limbs: (BigUint::from_slice(&a.limbs) % BigUint::from_slice(&m.limbs)).to_u32_digits() }
}

/// `BigUint >> u32`: the number without its lowest `bits` bits, that is,
/// divided by two to the power `bits` and rounded down.
#[verifier::external_body]
pub(crate) fn natural_shifted_right(a: &Natural, bits: u32) -> (n: Natural)
    ensures
        n@ == a@ / pow2(bits as nat),
{
    Natural { limbs: (BigUint::from_slice(&a.limbs) >> bits).to_u32_digits() }
}

/// `BigUint < BigUint`: the order of the values.
#[verifier::external_body]
pub(crate) fn natural_less(a: &Natural, b: &Natural) -> (r: bool)
    ensures
        r == (a@ < b@),
{
    BigUint::from_slice(&a.limbs) < BigUint::from_slice(&b.limbs)
}

/// `BigUint == BigUint`: equality of the values.
#[verifier::external_body]
pub(crate) fn natural_same(a: &Natural, b: &Natural) -> (r: bool)
    ensures
        r == (a@ == b@),
{
    BigUint::from_slice(&a.limbs) == BigUint::from_slice(&b.limbs)
}

/// `BigUint::from_str`: reads decimal text. It accepts an optional `+`
/// followed by digits, which `_` may separate but not lead, and fails on
/// every other text; the value is that of the digits.
#[verifier::external_body]
pub(crate) fn natural_from_str(s: &str) -> (r: Result<Natural, ParseBigIntError>)
    ensures
        r is Ok <==> parse_decimal(s@) is Some,
        r matches Ok(n) ==> parse_decimal(s@) == Some(n@),
{
    BigUint::from_str(s).map(|v| Natural { limbs: v.to_u32_digits() })
}

/// `BigUint::to_string`: the decimal digits of the value, without sign or
/// leading zeros.
#[verifier::external_body]
pub(crate) fn natural_to_string(a: &Natural) -> (s: String)
    ensures
        s@ == decimal_text(a@),
{
    BigUint::from_slice(&a.limbs).to_string()
}

impl Natural {
    /// The natural number with the value of `x`.
    pub fn from_u64(x: u64) -> (n: Natural)
        ensures
            n@ == x,
    {
        natural_of_u64(x)
    }

    /// The value as a `u64`, if it is small enough.
    pub fn to_u64(&self) -> (r: Option<u64>)
        ensures
            r == (if self@ <= u64::MAX { Some(self@ as u64) } else { None }),
    {
        natural_to_u64(self)
    }

    /// Reads a number from decimal text; `None` where the text denotes none.
    pub fn from_decimal(text: &str) -> (r: Option<Natural>)
        ensures
            r is Some <==> parse_decimal(text@) is Some,
            r matches Some(n) ==> parse_decimal(text@) == Some(n@),
    {
        match natural_from_str(text) {
            Ok(n) => Some(n),
            Err(_) => None,
        }
    }

    /// The canonical decimal text of the number.
    pub fn to_decimal(&self) -> (s: String)
        ensures
            s@ == decimal_text(self@),
    {
        natural_to_string(self)
    }

    /// Whether two numbers have the same value.
    pub fn equals(&self, other: &Natural) -> (r: bool)
        ensures
            r == (self@ == other@),
    {
        natural_same(self, other)
    }

    /// Whether the number is zero.
    pub fn is_zero(&self) -> (r: bool)
        ensures
            r == (self@ == 0),
    {
        let zero = natural_of_u64(0);
        natural_same(self, &zero)
    }

    /// A second number with the same value.
    pub fn duplicate(&self) -> (n: Natural)
        ensures
            n@ == self@,
    {
        let limbs = self.limbs.clone();
        assert(limbs@ =~= self.limbs@);
        Natural { limbs }
    }
}

} // verus!

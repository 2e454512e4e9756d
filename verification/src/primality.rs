//! Primality of ordinary numbers: exact for 64-bit values, by the
//! Baillie–PSW test beyond them. The testing is done by `num-prime`.

use crate::decimal::parse_decimal;
use crate::natural::Natural;
use num_bigint::BigUint;
use num_prime::nt_funcs::{is_prime, is_prime64};
use num_prime::PrimalityTestConfig;
use vstd::prelude::*;

verus! {

/// `n` is a prime number: at least two, and divisible by nothing between
/// one and itself.
pub open spec fn is_prime_number(n: nat) -> bool {
    &&& n >= 2
    &&& forall|d: nat| 1 < d < n ==> #[trigger] (n % d) != 0
}

/// Whether `n` passes the Baillie–PSW test as `num-prime` runs it: a strong
/// probable-prime test to base two followed by a strong Lucas test.
pub uninterp spec fn passes_baillie_psw(n: nat) -> bool;

/// `num_prime::nt_funcs::is_prime64`: a deterministic primality test, so
/// the answer is whether the number is prime.
pub assume_specification[ num_prime::nt_funcs::is_prime64 ](target: u64) -> (prime: bool)
    ensures
        prime == is_prime_number(target as nat),
;

/// `num_prime::nt_funcs::is_prime` with the configuration
/// `PrimalityTestConfig::bpsw()`, read through `Primality::probably`. The
/// answer depends on the number alone, and it is `false` only for
/// composites.
#[verifier::external_body]
fn baillie_psw(n: &Natural) -> (probable: bool)
    ensures
        probable == passes_baillie_psw(n@),
        is_prime_number(n@) ==> probable,
{
    is_prime(&BigUint::from_slice(&n.limbs), Some(PrimalityTestConfig::bpsw())).probably()
}

/// Whether `n` is prime, exactly.
pub fn prime_u64(n: u64) -> (prime: bool)
    ensures
        prime == is_prime_number(n as nat),
{
    is_prime64(n)
}

/// Whether the number written in `s_number` is prime.
///
/// Text that denotes no number gives `false`. A number that fits in 64
/// bits is decided exactly. A larger one is put to the Baillie–PSW test,
/// which accepts every prime and has no known composite that it accepts.
pub fn prime_bigint(s_number: &str) -> (prime: bool)
    ensures
        prime == match parse_decimal(s_number@) {
            None => false,
            Some(n) => if n <= u64::MAX {
                is_prime_number(n)
            } else {
                passes_baillie_psw(n)
            },
        },
        parse_decimal(s_number@) matches Some(n) && is_prime_number(n) ==> prime,
{
    let n = match Natural::from_decimal(s_number) {
        Some(v) => v,
        None => {
            return false;
        },
    };
    match n.to_u64() {
        Some(small) => is_prime64(small),
        None => baillie_psw(&n),
    }
}

} // verus!

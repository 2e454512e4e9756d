//! The arithmetic of the Lucas–Lehmer test: exponentiation, Mersenne
//! numbers, and the recurrence `s -> s^2 - 2 (mod M)` advanced by one step,
//! by a chunk of steps, or all the way to a verdict.

use crate::decimal::{decimal_text, parse_decimal};
use crate::natural::{
    natural_difference, natural_less, natural_of_u64, natural_product, natural_remainder,
    natural_same, natural_shifted_right, natural_sum, Natural,
};
use vstd::arithmetic::div_mod::lemma_mod_add_multiples_vanish;
use vstd::arithmetic::power2::lemma2_to64;
use vstd::prelude::*;

verus! {

/// The residue with which every Lucas–Lehmer sequence starts.
pub const SEED: u64 = 4;

/// `base` to the power `exp`; anything to the power zero is one.
pub open spec fn power(base: nat, exp: nat) -> nat
    decreases exp,
{
    if exp == 0 {
        1
    } else {
        base * power(base, (exp - 1) as nat)
    }
}

/// The Mersenne number with exponent `p`: `2^p - 1`.
pub open spec fn mersenne(p: nat) -> nat {
    (power(2, p) - 1) as nat
}

/// One step of the recurrence: `(r^2 - 2) mod m`, the remainder taken
/// non-negative.
pub open spec fn lucas_lehmer_step(m: nat, r: nat) -> nat {
    ((r * r - 2) % (m as int)) as nat
}

/// The residue reached from `r` after `steps` steps modulo `m`.
pub open spec fn advance_spec(m: nat, r: nat, steps: nat) -> nat
    decreases steps,
{
    if steps == 0 {
        r
    } else {
        lucas_lehmer_step(m, advance_spec(m, r, (steps - 1) as nat))
    }
}

/// The outcome of the Lucas–Lehmer test for the exponent `p`. Exponents
/// below two give no Mersenne prime, two gives the prime three, and every
/// other exponent is decided by the residue after `p - 2` steps from the
/// seed.
pub open spec fn lucas_lehmer_spec(p: nat) -> bool {
    if p <= 1 {
        false
    } else if p == 2 {
        true
    } else {
        advance_spec(mersenne(p), SEED as nat, (p - 2) as nat) == 0
    }
}

/// A power of a square is the power with twice the exponent.
proof fn lemma_power_of_square(b: nat, q: nat)
    ensures
        power(b * b, q) == power(b, 2 * q),
    decreases q,
{
    if q > 0 {
        lemma_power_of_square(b, (q - 1) as nat);
        let rest = power(b, (2 * q - 2) as nat);
        assert(power(b, (2 * q - 1) as nat) == b * rest);
        assert(power(b, 2 * q) == b * power(b, (2 * q - 1) as nat));
        assert((b * b) * rest == b * (b * rest)) by (nonlinear_arith);
    }
}

/// Halving the exponent squares the base; an odd exponent leaves one factor
/// over.
proof fn lemma_power_halving(b: nat, e: nat)
    requires
        e > 0,
    ensures
        power(b, e) == power(b * b, e / 2) * (if e % 2 == 1 { b } else { 1 }),
{
    let q = e / 2;
    lemma_power_of_square(b, q);
    if e % 2 == 1 {
        assert(e - 1 == 2 * q);
        assert(power(b, e) == b * power(b, 2 * q));
        assert(b * power(b, 2 * q) == power(b, 2 * q) * b) by (nonlinear_arith);
    } else {
        assert(e == 2 * q);
    }
}

/// The powers of two from the third on are at least eight, so every
/// Mersenne number from the third on is at least seven.
pub proof fn lemma_mersenne_bound(p: nat)
    requires
        p >= 3,
    ensures
        power(2, p) >= 8,
        mersenne(p) >= 7,
    decreases p,
{
    if p == 3 {
        reveal_with_fuel(power, 4);
    } else {
        lemma_mersenne_bound((p - 1) as nat);
    }
}

/// A power of two is never zero.
proof fn lemma_power_of_two_positive(p: nat)
    ensures
        power(2, p) >= 1,
    decreases p,
{
    if p > 0 {
        lemma_power_of_two_positive((p - 1) as nat);
    }
}

/// Advancing by `a` steps and then by `b` more is advancing by `a + b`: a
/// chunk may start from the residue that the chunk before it ended with.
pub proof fn lemma_advance_chained(m: nat, r: nat, a: nat, b: nat)
    ensures
        advance_spec(m, advance_spec(m, r, a), b) == advance_spec(m, r, a + b),
    decreases b,
{
    if b > 0 {
        lemma_advance_chained(m, r, a, (b - 1) as nat);
        assert((a + b - 1) as nat == a + (b - 1) as nat);
    }
}

/// Every residue stays below the modulus.
pub proof fn lemma_advance_bounded(m: nat, r: nat, steps: nat)
    requires
        m > 0,
        r < m,
    ensures
        advance_spec(m, r, steps) < m,
    decreases steps,
{
    if steps > 0 {
        lemma_advance_bounded(m, r, (steps - 1) as nat);
    }
}

/// `base` to the power `exp`, by repeated squaring.
pub fn pow(base: &Natural, exp: &Natural) -> (result: Natural)
    ensures
        result@ == power(base@, exp@),
{
    let zero = natural_of_u64(0);
    let one = natural_of_u64(1);
    let two = natural_of_u64(2);
    let mut result = natural_of_u64(1);
    let mut current_base = base.duplicate();
    let mut remaining = exp.duplicate();
    assert(result@ * power(base@, exp@) == power(base@, exp@)) by (nonlinear_arith)
        requires
            result@ == 1,
    ;
    while natural_less(&zero, &remaining)
        invariant
            zero@ == 0,
            one@ == 1,
            two@ == 2,
            result@ * power(current_base@, remaining@) == power(base@, exp@),
        decreases remaining@,
    {
        let ghost b = current_base@;
        let ghost e = remaining@;
        let ghost acc = result@;
        let ghost squared = power(b * b, e / 2);
        proof {
            lemma_power_halving(b, e);
        }
        let low_bit = natural_remainder(&remaining, &two);
        if natural_same(&low_bit, &one) {
            result = natural_product(&result, &current_base);
            assert(result@ * squared == acc * power(b, e)) by (nonlinear_arith)
                requires
                    result@ == acc * b,
                    power(b, e) == squared * b,
            ;
        } else {
            assert(result@ * squared == acc * power(b, e)) by (nonlinear_arith)
                requires
                    result@ == acc,
                    power(b, e) == squared * 1,
            ;
        }
        remaining = natural_shifted_right(&remaining, 1);
        proof {
            lemma2_to64();
        }
        current_base = natural_product(&current_base, &current_base);
    }
    assert(result@ == power(base@, exp@)) by (nonlinear_arith)
        requires
            result@ * power(current_base@, remaining@) == power(base@, exp@),
            power(current_base@, remaining@) == 1,
    ;
    result
}

/// The Mersenne number `2^p - 1`.
pub fn mersenne_number(p: &Natural) -> (m: Natural)
    ensures
        m@ == mersenne(p@),
{
    let two = natural_of_u64(2);
    let one = natural_of_u64(1);
    let full = pow(&two, p);
    proof {
        lemma_power_of_two_positive(p@);
    }
    natural_difference(&full, &one)
}

/// One step of the recurrence on a residue below the modulus.
pub fn step(modulus: &Natural, residue: &Natural) -> (next: Natural)
    requires
        modulus@ > 2,
        residue@ < modulus@,
    ensures
        next@ == lucas_lehmer_step(modulus@, residue@),
        next@ < modulus@,
{
    let two = natural_of_u64(2);
    let square = natural_product(residue, residue);
    let lifted = natural_sum(&square, modulus);
    let shifted = natural_difference(&lifted, &two);
    proof {
        let sq = residue@ * residue@;
        lemma_mod_add_multiples_vanish(sq - 2, modulus@ as int);
        assert(shifted@ == modulus@ as int + (sq - 2));
    }
    natural_remainder(&shifted, modulus)
}

/// Advances the recurrence by `steps` steps from `residue`.
///
/// The result depends on the three arguments alone: the same call gives the
/// same residue, whoever makes it and whenever.
pub fn advance(modulus: &Natural, residue: &Natural, steps: u64) -> (out: Natural)
    requires
        modulus@ > 2,
        residue@ < modulus@,
    ensures
        out@ == advance_spec(modulus@, residue@, steps as nat),
        out@ < modulus@,
{
    let mut current = residue.duplicate();
    let mut done: u64 = 0;
    while done < steps
        invariant
            done <= steps,
            modulus@ > 2,
            current@ < modulus@,
            current@ == advance_spec(modulus@, residue@, done as nat),
        decreases steps - done,
    {
        current = step(modulus, &current);
        done = done + 1;
    }
    current
}

/// Runs the Lucas–Lehmer test for the exponent `power`: `false` below two,
/// `true` at two, and otherwise whether the residue after `power - 2` steps
/// from the seed, modulo `2^power - 1`, is zero. That this decides the
/// primality of `2^power - 1` is the Lucas–Lehmer theorem, which is taken
/// from number theory and not proved here.
pub fn lucas_lehmer_test(power: &Natural) -> (prime: bool)
    ensures
        prime == lucas_lehmer_spec(power@),
{
    let one = natural_of_u64(1);
    let two = natural_of_u64(2);
    if !natural_less(&one, power) {
        return false;
    }
    if natural_same(power, &two) {
        return true;
    }
    let modulus = mersenne_number(power);
    let rounds = natural_difference(power, &two);
    let mut sum = natural_of_u64(SEED);
    let mut i = natural_of_u64(0);
    proof {
        lemma_mersenne_bound(power@);
    }
    while natural_less(&i, &rounds)
        invariant
            one@ == 1,
            modulus@ > 4,
            i@ <= rounds@,
            sum@ < modulus@,
            sum@ == advance_spec(modulus@, SEED as nat, i@),
        decreases rounds@ - i@,
    {
        sum = step(&modulus, &sum);
        i = natural_sum(&i, &one);
    }
    sum.is_zero()
}

/// The Lucas–Lehmer test on an exponent given as decimal text; text that
/// denotes no number gives `false`.
pub fn is_power_prime(p: &str) -> (prime: bool)
    ensures
        prime == match parse_decimal(p@) {
            Some(n) => lucas_lehmer_spec(n),
            None => false,
        },
{
    match Natural::from_decimal(p) {
        Some(n) => lucas_lehmer_test(&n),
        None => false,
    }
}

/// `b` to the power `e`, both given and the result returned as decimal
/// text; `"error"` where either text denotes no number.
pub fn pow_front(b: &str, e: &str) -> (text: String)
    ensures
        text@ == match (parse_decimal(b@), parse_decimal(e@)) {
            (Some(x), Some(y)) => decimal_text(power(x, y)),
            _ => "error"@,
        },
{
    let base = match Natural::from_decimal(b) {
        Some(v) => v,
        None => {
            return "error".to_owned();
        },
    };
    let exp = match Natural::from_decimal(e) {
        Some(v) => v,
        None => {
            return "error".to_owned();
        },
    };
    pow(&base, &exp).to_decimal()
}

} // verus!

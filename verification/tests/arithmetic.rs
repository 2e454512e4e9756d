use primehack::engine::{advance, mersenne_number, step, SEED};
use primehack::{is_power_prime, lucas_lehmer_test, pow, pow_front, Natural};

fn n(x: u64) -> Natural {
    Natural::from_u64(x)
}

fn value(x: &Natural) -> u64 {
    x.to_u64().expect("small value")
}

#[test]
fn pow_small_values() {
    assert_eq!(value(&pow(&n(2), &n(10))), 1024);
    assert_eq!(value(&pow(&n(3), &n(4))), 81);
    assert_eq!(value(&pow(&n(7), &n(1))), 7);
    assert_eq!(value(&pow(&n(10), &n(19))), 10_000_000_000_000_000_000);
}

#[test]
fn pow_with_zero_and_one() {
    assert_eq!(value(&pow(&n(0), &n(0))), 1);
    assert_eq!(value(&pow(&n(5), &n(0))), 1);
    assert_eq!(value(&pow(&n(0), &n(5))), 0);
    assert_eq!(value(&pow(&n(1), &n(1000))), 1);
}

#[test]
fn pow_beyond_64_bits() {
    assert_eq!(pow(&n(2), &n(64)).to_decimal(), "18446744073709551616");
    assert_eq!(pow(&n(2), &n(100)).to_decimal(), "1267650600228229401496703205376");
    assert_eq!(pow(&n(3), &n(40)).to_decimal(), "12157665459056928801");
}

#[test]
fn pow_front_computes_in_text() {
    assert_eq!(pow_front("2", "100"), "1267650600228229401496703205376");
    assert_eq!(pow_front("10", "30"), "1000000000000000000000000000000");
    assert_eq!(pow_front("+3", "0_4"), "81");
    assert_eq!(pow_front("0", "0"), "1");
}

#[test]
fn pow_front_reports_bad_text() {
    assert_eq!(pow_front("x", "2"), "error");
    assert_eq!(pow_front("2", ""), "error");
    assert_eq!(pow_front("-2", "2"), "error");
    assert_eq!(pow_front("", ""), "error");
}

#[test]
fn mersenne_numbers() {
    assert_eq!(value(&mersenne_number(&n(0))), 0);
    assert_eq!(value(&mersenne_number(&n(1))), 1);
    assert_eq!(value(&mersenne_number(&n(3))), 7);
    assert_eq!(value(&mersenne_number(&n(11))), 2047);
    assert_eq!(value(&mersenne_number(&n(61))), 2305843009213693951);
    assert_eq!(mersenne_number(&n(89)).to_decimal(), "618970019642690137449562111");
}

#[test]
fn step_squares_and_subtracts_two() {
    assert_eq!(value(&step(&n(7), &n(4))), 0);
    assert_eq!(value(&step(&n(2047), &n(4))), 14);
    assert_eq!(value(&step(&n(2047), &n(14))), 194);
    assert_eq!(value(&step(&n(2047), &n(194))), 788);
}

#[test]
fn step_from_zero_and_one_wraps_below_the_modulus() {
    assert_eq!(value(&step(&n(7), &n(0))), 5);
    assert_eq!(value(&step(&n(7), &n(1))), 6);
    assert_eq!(value(&step(&n(3), &n(0))), 1);
    assert_eq!(value(&step(&n(3), &n(1))), 2);
}

#[test]
fn advance_zero_steps_returns_the_residue() {
    assert_eq!(value(&advance(&n(2047), &n(788), 0)), 788);
}

#[test]
fn advance_known_sequence_for_exponent_eleven() {
    let expected = [4u64, 14, 194, 788, 701, 119, 1877, 240, 282, 1736];
    for (steps, want) in expected.iter().enumerate() {
        assert_eq!(value(&advance(&n(2047), &n(SEED), steps as u64)), *want);
    }
}

#[test]
fn advance_known_value_for_exponent_three() {
    assert_eq!(value(&advance(&n(7), &n(4), 1)), 0);
}

#[test]
fn advance_is_deterministic() {
    let m = mersenne_number(&n(61));
    let first = advance(&m, &n(4), 59);
    let second = advance(&m, &n(4), 59);
    assert!(first.equals(&second));
    assert!(first.is_zero());
}

#[test]
fn advance_in_chunks_equals_advance_at_once() {
    let m = mersenne_number(&n(89));
    let whole = advance(&m, &n(4), 87);
    let part = advance(&m, &n(4), 30);
    let part = advance(&m, &part, 40);
    let part = advance(&m, &part, 17);
    assert!(whole.equals(&part));
    assert!(whole.is_zero());
}

#[test]
fn advance_stays_below_the_modulus() {
    let m = n(2047);
    for steps in 0..50u64 {
        assert!(value(&advance(&m, &n(4), steps)) < 2047);
    }
}

#[test]
fn lucas_lehmer_small_exponents() {
    assert!(!lucas_lehmer_test(&n(0)));
    assert!(!lucas_lehmer_test(&n(1)));
    assert!(lucas_lehmer_test(&n(2)));
    assert!(lucas_lehmer_test(&n(3)));
    assert!(!lucas_lehmer_test(&n(4)));
}

#[test]
fn lucas_lehmer_finds_the_mersenne_primes() {
    for p in [3u64, 5, 7, 13, 17, 19, 31, 61, 89, 107, 127] {
        assert!(lucas_lehmer_test(&n(p)), "2^{} - 1 is prime", p);
    }
}

#[test]
fn lucas_lehmer_rejects_composites() {
    for p in [4u64, 6, 9, 11, 23, 29, 37, 41, 67] {
        assert!(!lucas_lehmer_test(&n(p)), "2^{} - 1 is composite", p);
    }
}

#[test]
fn is_power_prime_reads_text() {
    assert!(is_power_prime("13"));
    assert!(is_power_prime("+1_7"));
    assert!(is_power_prime("2"));
    assert!(!is_power_prime("11"));
    assert!(!is_power_prime("1"));
    assert!(!is_power_prime("0"));
}

#[test]
fn is_power_prime_is_false_for_bad_text() {
    assert!(!is_power_prime(""));
    assert!(!is_power_prime("abc"));
    assert!(!is_power_prime("-7"));
    assert!(!is_power_prime("7.0"));
}

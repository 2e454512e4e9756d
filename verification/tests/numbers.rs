use primehack::Natural;

fn number(text: &str) -> Natural {
    Natural::from_decimal(text).expect("decimal text")
}

#[test]
fn decimal_round_trip_beyond_64_bits() {
    let text = "340282366920938463463374607431768211457";
    let n = number(text);
    assert_eq!(n.to_u64(), None);
    assert_eq!(n.to_decimal(), text);
    assert!(number(&n.to_decimal()).equals(&n));
}

#[test]
fn decimal_round_trip_small_values() {
    for x in [0u64, 1, 9, 10, 99, 100, 4294967295, 4294967296, u64::MAX] {
        let n = Natural::from_u64(x);
        assert_eq!(n.to_decimal(), format!("{}", x));
        assert_eq!(number(&n.to_decimal()).to_u64(), Some(x));
    }
}

#[test]
fn zero_is_written_as_one_digit() {
    assert_eq!(Natural::from_u64(0).to_decimal(), "0");
}

#[test]
fn parse_accepts_plain_digits() {
    assert_eq!(number("0").to_u64(), Some(0));
    assert_eq!(number("4").to_u64(), Some(4));
    assert_eq!(number("18446744073709551615").to_u64(), Some(u64::MAX));
    assert_eq!(number("18446744073709551616").to_u64(), None);
}

#[test]
fn parse_accepts_leading_zeros_sign_and_separators() {
    assert_eq!(number("007").to_decimal(), "7");
    assert_eq!(number("+5").to_decimal(), "5");
    assert_eq!(number("1_000").to_decimal(), "1000");
    assert_eq!(number("1__2_").to_decimal(), "12");
    assert_eq!(number("+1_0").to_decimal(), "10");
}

#[test]
fn parse_rejects_what_is_no_number() {
    for text in ["", "+", "_", "_1", "+_1", "++1", "-3", "12a", " 1", "1 ", "1.5", "0x10", "\u{ff11}\u{ff12}", "1+"] {
        assert!(Natural::from_decimal(text).is_none(), "accepted {:?}", text);
    }
}

#[test]
fn to_u64_at_the_edge() {
    assert_eq!(Natural::from_u64(u64::MAX).to_u64(), Some(u64::MAX));
    assert_eq!(number("18446744073709551616").to_u64(), None);
    assert_eq!(Natural::from_u64(0).to_u64(), Some(0));
}

#[test]
fn equals_compares_values() {
    assert!(number("0012").equals(&Natural::from_u64(12)));
    assert!(!number("12").equals(&Natural::from_u64(13)));
    assert!(!number("18446744073709551616").equals(&Natural::from_u64(0)));
}

#[test]
fn is_zero_only_for_zero() {
    assert!(Natural::from_u64(0).is_zero());
    assert!(number("000").is_zero());
    assert!(!Natural::from_u64(1).is_zero());
    assert!(!number("18446744073709551616").is_zero());
}

#[test]
fn duplicate_keeps_the_value() {
    let n = number("123456789012345678901234567890");
    let copy = n.duplicate();
    assert!(copy.equals(&n));
    assert_eq!(copy.to_decimal(), "123456789012345678901234567890");
}

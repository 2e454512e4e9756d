//! Decimal text as a mathematical object: which strings denote a natural
//! number, which number they denote, and the canonical text of a number.

use vstd::prelude::*;

verus! {

/// `c` is one of the ten ASCII digits.
pub open spec fn is_digit(c: char) -> bool {
    '0' <= c && c <= '9'
}

/// The number that the digit `c` stands for.
pub open spec fn digit_value(c: char) -> nat
    recommends
        is_digit(c),
{
    (c as int - 48) as nat
}

/// The digit that stands for `d`.
pub open spec fn digit_char(d: nat) -> char
    recommends
        d < 10,
{
    (d + 48) as char
}

/// The separator that may stand between digits and carries no value.
pub open spec fn is_separator(c: char) -> bool {
    c == '_'
}

/// The value of a run of digits and separators, most significant digit first.
pub open spec fn digits_value(s: Seq<char>) -> nat
    decreases s.len(),
{
    if s.len() == 0 {
        0
    } else if is_separator(s.last()) {
        digits_value(s.drop_last())
    } else {
        10 * digits_value(s.drop_last()) + digit_value(s.last())
    }
}

/// A well-formed unsigned numeral: not empty, starting with a digit, and
/// holding nothing but digits and separators.
pub open spec fn is_numeral(s: Seq<char>) -> bool {
    &&& s.len() > 0
    &&& is_digit(s[0])
    &&& forall|i: int| 0 <= i < s.len() ==> is_digit(#[trigger] s[i]) || is_separator(s[i])
}

/// `s` without one leading plus sign, if it has one.
pub open spec fn without_sign(s: Seq<char>) -> Seq<char> {
    if s.len() > 0 && s[0] == '+' {
        s.drop_first()
    } else {
        s
    }
}

/// The natural number that the text `s` denotes, if it denotes one.
///
/// Accepted are an optional `+`, then a numeral. Everything else — the empty
/// text, a minus sign, blanks, letters — denotes nothing.
pub open spec fn parse_decimal(s: Seq<char>) -> Option<nat> {
    let body = without_sign(s);
    if is_numeral(body) {
        Some(digits_value(body))
    } else {
        None
    }
}

/// The canonical text of `n`: its decimal digits without sign, separators or
/// leading zeros (`"0"` for zero).
pub open spec fn decimal_text(n: nat) -> Seq<char>
    decreases n,
{
    if n < 10 {
        seq![digit_char(n)]
    } else {
        decimal_text(n / 10).push(digit_char(n % 10))
    }
}

/// Canonical text consists of digits only, and reads back as the number it
/// was written for.
pub proof fn lemma_decimal_text_digits(n: nat)
    ensures
        decimal_text(n).len() > 0,
        forall|i: int| 0 <= i < decimal_text(n).len() ==> is_digit(#[trigger] decimal_text(n)[i]),
        digits_value(decimal_text(n)) == n,
    decreases n,
{
    let t = decimal_text(n);
    if n < 10 {
        assert(t.len() == 1);
        assert(t[0] == digit_char(n));
        assert(t.drop_last() =~= Seq::<char>::empty());
        assert(digits_value(t.drop_last()) == 0);
        assert(t.last() == digit_char(n));
    } else {
        let head = decimal_text(n / 10);
        lemma_decimal_text_digits(n / 10);
        assert(t == head.push(digit_char(n % 10)));
        assert(t.drop_last() =~= head);
        assert(t.last() == digit_char(n % 10));
        assert forall|i: int| 0 <= i < t.len() implies is_digit(#[trigger] t[i]) by {
            if i < head.len() {
                assert(t[i] == head[i]);
            }
        }
    }
}

/// Writing a number as decimal text and parsing the text gives the number
/// back, however large it is.
pub proof fn lemma_decimal_round_trip(n: nat)
    ensures
        parse_decimal(decimal_text(n)) == Some(n),
{
    lemma_decimal_text_digits(n);
    let t = decimal_text(n);
    assert(is_digit(t[0]));
    assert(without_sign(t) == t);
}

} // verus!

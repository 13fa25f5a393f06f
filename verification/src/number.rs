//! Reading whole numbers from text.

use vstd::prelude::*;
use vstd::string::*;

verus! {

use crate::text::{decimal, digit_char, signed_decimal};

/// The value of a decimal digit.
pub open spec fn digit_value(c: char) -> Option<nat> {
    if '0' <= c <= '9' {
        Some((c as int - '0' as int) as nat)
    } else {
        None
    }
}

/// The number that decimal digits stand for. Without digits, or with another character among
/// them, there is none.
pub open spec fn digits_value(text: Seq<char>) -> Option<nat>
    decreases text.len(),
{
    if text.len() == 0 {
        None
    } else if text.len() == 1 {
        digit_value(text[0])
    } else {
        match (digits_value(text.drop_last()), digit_value(text.last())) {
            (Some(high), Some(low)) => Some(10 * high + low),
            _ => None,
        }
    }
}

/// The number that a text stands for: decimal digits, with a sign in front or without.
pub open spec fn number_value(text: Seq<char>) -> Option<int> {
    if text.len() > 0 && text[0] == '-' {
        match digits_value(text.skip(1)) {
            Some(value) => Some(-(value as int)),
            None => None,
        }
    } else if text.len() > 0 && text[0] == '+' {
        match digits_value(text.skip(1)) {
            Some(value) => Some(value as int),
            None => None,
        }
    } else {
        match digits_value(text) {
            Some(value) => Some(value as int),
            None => None,
        }
    }
}

/// The number that a text stands for, where it is a number within the given bounds.
pub open spec fn bounded_value(text: Seq<char>, low: int, high: int) -> Option<int> {
    match number_value(text) {
        Some(value) if low <= value <= high => Some(value),
        _ => None,
    }
}

fn digit(c: char) -> (value: Option<u64>)
    ensures
        match value {
            Some(v) => digit_value(c) == Some(v as nat) && v < 10,
            None => digit_value(c) is None,
        },
{
    if '0' <= c && c <= '9' {
        Some((c as u64) - ('0' as u64))
    } else {
        None
    }
}

/// A prefix of the digits of a number has a value, and not a greater one.
proof fn lemma_digits_prefix(text: Seq<char>, n: int)
    requires
        0 < n <= text.len(),
        digits_value(text) is Some,
    ensures
        digits_value(text.take(n)) is Some,
        digits_value(text.take(n))->0 <= digits_value(text)->0,
    decreases text.len() - n,
{
    if n == text.len() {
        assert(text.take(n) =~= text);
    } else {
        lemma_digits_prefix(text, n + 1);
        assert(text.take(n + 1).drop_last() =~= text.take(n));
    }
}

/// What comes of reading digits.
enum Digits {
    /// They are not all digits, or there are none.
    Invalid,
    /// The number is beyond what fits.
    TooLarge,
    Value { value: u64 },
}

fn read_digits(text: &str, from: usize) -> (digits: Digits)
    requires
        from <= text@.len(),
    ensures
        match digits {
            Digits::Invalid => digits_value(text@.skip(from as int)) is None,
            Digits::TooLarge => digits_value(text@.skip(from as int)) matches Some(v) && v
                > u64::MAX,
            Digits::Value { value } => digits_value(text@.skip(from as int)) == Some(
                value as nat,
            ),
        },
{
    let ghost rest = text@.skip(from as int);
    let len = text.unicode_len();
    if from == len {
        return Digits::Invalid;
    }
    let mut at: usize = from;
    let mut value: u64 = 0;
    let mut large = false;
    while at < len
        invariant
            len == text@.len(),
            from <= at <= len,
            from < len,
            rest == text@.skip(from as int),
            at == from ==> value == 0 && !large,
            at > from && !large ==> digits_value(rest.take(at - from)) == Some(value as nat),
            large ==> at > from && (digits_value(rest.take(at - from)) matches Some(v) && v
                > u64::MAX),
        decreases len - at,
    {
        let c = text.get_char(at);
        proof {
            assert(rest[at - from] == c);
            assert(rest.take(at - from + 1).drop_last() =~= rest.take(at - from));
            assert(rest.take(at - from + 1).last() == c);
        }
        match digit(c) {
            None => {
                proof {
                    if digits_value(rest) is Some {
                        lemma_digits_prefix(rest, at - from + 1);
                    }
                }
                return Digits::Invalid;
            },
            Some(low) => {
                if !large {
                    match value.checked_mul(10) {
                        Some(tens) => match tens.checked_add(low) {
                            Some(sum) => {
                                value = sum;
                            },
                            None => {
                                large = true;
                            },
                        },
                        None => {
                            large = true;
                        },
                    }
                }
            },
        }
        at = at + 1;
    }
    assert(rest.take(len - from) =~= rest);
    if large {
        Digits::TooLarge
    } else {
        Digits::Value { value }
    }
}

/// The number that a text stands for, where it is one and fits: decimal digits, with a sign in
/// front or without.
pub fn parse_i64(text: &str) -> (number: Option<i64>)
    ensures
        (match number {
            Some(value) => Some(value as int),
            None => None,
        }) == bounded_value(text@, i64::MIN as int, i64::MAX as int),
{
    let len = text.unicode_len();
    let mut from: usize = 0;
    let mut negative = false;
    assert(text@.skip(0) =~= text@);
    if len > 0 {
        let first = text.get_char(0);
        if first == '-' {
            negative = true;
            from = 1;
        } else if first == '+' {
            from = 1;
        }
    }
    match read_digits(text, from) {
        Digits::Invalid => None,
        Digits::TooLarge => None,
        Digits::Value { value } => {
            if negative {
                if value <= 9223372036854775807 {
                    Some(-(value as i64))
                } else if value == 9223372036854775808 {
                    Some(i64::MIN)
                } else {
                    None
                }
            } else if value <= 9223372036854775807 {
                Some(value as i64)
            } else {
                None
            }
        },
    }
}

/// The number that a text stands for, where it is one and fits.
pub fn parse_i32(text: &str) -> (number: Option<i32>)
    ensures
        (match number {
            Some(value) => Some(value as int),
            None => None,
        }) == bounded_value(text@, i32::MIN as int, i32::MAX as int),
{
    match parse_i64(text) {
        Some(value) => {
            if -2147483648 <= value && value <= 2147483647 {
                Some(value as i32)
            } else {
                None
            }
        },
        None => None,
    }
}

/// The number that a text stands for, where it is one without a minus sign.
pub open spec fn unsigned_value(text: Seq<char>) -> Option<nat> {
    if text.len() > 0 && text[0] == '+' {
        digits_value(text.skip(1))
    } else {
        digits_value(text)
    }
}

/// The number that a text stands for, where it is one and fits: decimal digits, with a plus
/// sign in front or without.
pub fn parse_u64(text: &str) -> (number: Option<u64>)
    ensures
        match number {
            Some(value) => unsigned_value(text@) == Some(value as nat),
            None => unsigned_value(text@) matches Some(value) ==> value > u64::MAX,
        },
{
    let len = text.unicode_len();
    assert(text@.skip(0) =~= text@);
    let from: usize = if len > 0 && text.get_char(0) == '+' {
        1
    } else {
        0
    };
    match read_digits(text, from) {
        Digits::Value { value } => Some(value),
        _ => None,
    }
}

proof fn lemma_decimal_digits(value: nat)
    ensures
        digits_value(decimal(value)) == Some(value),
        decimal(value).len() > 0,
        decimal(value)[0] != '-',
        decimal(value)[0] != '+',
    decreases value,
{
    assert(digit_value(digit_char(value % 10)) == Some((value % 10) as nat));
    if value >= 10 {
        lemma_decimal_digits(value / 10);
        let text = decimal(value);
        assert(text.drop_last() =~= decimal(value / 10));
        assert(text.last() == digit_char(value % 10));
        assert(text[0] == decimal(value / 10)[0]);
    }
}

/// A number that is written in decimal and read again is the same number.
pub proof fn law_written_numbers_are_read(value: int)
    ensures
        number_value(signed_decimal(value)) == Some(value),
{
    if value < 0 {
        lemma_decimal_digits((-value) as nat);
        assert(signed_decimal(value).skip(1) =~= decimal((-value) as nat));
    } else {
        lemma_decimal_digits(value as nat);
    }
}

/// Digits make a number, and only digits do, at least one of them.
pub proof fn law_only_digits_make_numbers(text: Seq<char>)
    ensures
        digits_value(text) is Some <==> text.len() > 0 && forall|i: int|
            0 <= i < text.len() ==> '0' <= #[trigger] text[i] <= '9',
    decreases text.len(),
{
    if text.len() > 1 {
        let init = text.drop_last();
        law_only_digits_make_numbers(init);
        if digits_value(text) is Some {
            assert forall|i: int| 0 <= i < text.len() implies '0' <= #[trigger] text[i] <= '9' by {
                if i < init.len() {
                    assert(init[i] == text[i]);
                }
            }
        }
        if forall|i: int| 0 <= i < text.len() ==> '0' <= #[trigger] text[i] <= '9' {
            assert forall|i: int| 0 <= i < init.len() implies '0' <= #[trigger] init[i] <= '9' by {
                assert(init[i] == text[i]);
            }
            assert('0' <= text[text.len() - 1] <= '9');
        }
    } else if text.len() == 1 {
        assert('0' <= text[0] <= '9' ==> digits_value(text) is Some);
    }
}

/// A further digit counts for itself, and the digits before it for ten times as much.
pub proof fn law_digits_count_by_their_place(text: Seq<char>, digit: char, value: nat)
    requires
        '0' <= digit <= '9',
        digits_value(text) == Some(value),
    ensures
        digits_value(text.push(digit)) == Some(10 * value + (digit as nat - '0' as nat) as nat),
        digits_value(seq![digit]) == Some((digit as nat - '0' as nat) as nat),
{
    assert(text.push(digit).drop_last() =~= text);
}

/// A plus sign changes nothing, a minus sign turns a number into its opposite, and a number that
/// is not signed cannot be less than nothing.
pub proof fn law_signs_of_numbers(text: Seq<char>, value: nat)
    requires
        digits_value(text) == Some(value),
    ensures
        unsigned_value(text) == Some(value),
        unsigned_value(seq!['+'] + text) == Some(value),
        unsigned_value(seq!['-'] + text) is None,
        number_value(text) == Some(value as int),
        number_value(seq!['+'] + text) == Some(value as int),
        number_value(seq!['-'] + text) == Some(-(value as int)),
{
    law_only_digits_make_numbers(text);
    let plus = seq!['+'] + text;
    let minus = seq!['-'] + text;
    assert('0' <= text[0] <= '9');
    assert(plus.skip(1) =~= text);
    assert(minus.skip(1) =~= text);
    law_only_digits_make_numbers(minus);
    assert(minus[0] == '-');
}

/// A number that must lie within bounds is read exactly where it does.
pub proof fn law_numbers_within_bounds(text: Seq<char>, low: int, high: int, value: int)
    ensures
        bounded_value(text, low, high) == Some(value) <==> number_value(text) == Some(value) && low
            <= value <= high,
{
}

} // verus!

//! Decimal numbers as text.

use vstd::prelude::*;
use vstd::string::*;

verus! {

/// The decimal digit with the given value.
pub open spec fn digit_char(value: nat) -> char {
    if value == 0 {
        '0'
    } else if value == 1 {
        '1'
    } else if value == 2 {
        '2'
    } else if value == 3 {
        '3'
    } else if value == 4 {
        '4'
    } else if value == 5 {
        '5'
    } else if value == 6 {
        '6'
    } else if value == 7 {
        '7'
    } else if value == 8 {
        '8'
    } else {
        '9'
    }
}

/// A number in decimal, without leading zeros.
pub open spec fn decimal(value: nat) -> Seq<char>
    decreases value,
{
    if value < 10 {
        seq![digit_char(value)]
    } else {
        decimal(value / 10).push(digit_char(value % 10))
    }
}

/// A number in decimal, with a sign where it is negative.
pub open spec fn signed_decimal(value: int) -> Seq<char> {
    if value < 0 {
        seq!['-'] + decimal((-value) as nat)
    } else {
        decimal(value as nat)
    }
}

/// As many zeros.
pub open spec fn zeros(count: nat) -> Seq<char> {
    Seq::new(count, |i: int| '0')
}

/// A text padded with leading zeros to at least the given width.
pub open spec fn zero_padded(text: Seq<char>, width: nat) -> Seq<char> {
    if text.len() >= width {
        text
    } else {
        zeros((width - text.len()) as nat) + text
    }
}

fn digit_str(value: u64) -> (text: &'static str)
    requires
        value < 10,
    ensures
        text@ == seq![digit_char(value as nat)],
{
    proof {
        reveal_strlit("0");
        reveal_strlit("1");
        reveal_strlit("2");
        reveal_strlit("3");
        reveal_strlit("4");
        reveal_strlit("5");
        reveal_strlit("6");
        reveal_strlit("7");
        reveal_strlit("8");
        reveal_strlit("9");
    }
    let text = if value == 0 {
        "0"
    } else if value == 1 {
        "1"
    } else if value == 2 {
        "2"
    } else if value == 3 {
        "3"
    } else if value == 4 {
        "4"
    } else if value == 5 {
        "5"
    } else if value == 6 {
        "6"
    } else if value == 7 {
        "7"
    } else if value == 8 {
        "8"
    } else {
        "9"
    };
    assert(text@ =~= seq![digit_char(value as nat)]);
    text
}

/// A number in decimal.
pub fn decimal_text(value: u64) -> (text: String)
    ensures
        text@ == decimal(value as nat),
    decreases value,
{
    if value < 10 {
        digit_str(value).to_owned()
    } else {
        let mut text = decimal_text(value / 10);
        text.append(digit_str(value % 10));
        assert(text@ =~= decimal(value as nat));
        text
    }
}

/// A number in decimal, with a sign where it is negative.
pub fn signed_decimal_text(value: i64) -> (text: String)
    ensures
        text@ == signed_decimal(value as int),
{
    if value < 0 {
        proof {
            reveal_strlit("-");
        }
        let mut text = "-".to_owned();
        let magnitude: u64 = if value == i64::MIN {
            9223372036854775808u64
        } else {
            (-value) as u64
        };
        text.append(decimal_text(magnitude).as_str());
        assert(text@ =~= signed_decimal(value as int));
        text
    } else {
        decimal_text(value as u64)
    }
}

/// A number in decimal, padded with leading zeros to at least the given width.
pub fn zero_padded_text(value: u64, width: usize) -> (text: String)
    ensures
        text@ == zero_padded(decimal(value as nat), width as nat),
{
    let digits = decimal_text(value);
    let len: usize = digits.as_str().unicode_len();
    if len >= width {
        return digits;
    }
    let mut text = String::new();
    let missing: usize = width - len;
    proof {
        reveal_strlit("0");
    }
    for i in 0..missing
        invariant
            text@ == zeros(i as nat),
            "0"@.len() == 1 && "0"@[0] == '0',
    {
        text.append("0");
        assert(text@ =~= zeros((i + 1) as nat));
    }
    text.append(digits.as_str());
    text
}

/// The concatenation of two texts.
pub fn joined(left: &str, right: &str) -> (text: String)
    ensures
        text@ == left@ + right@,
{
    let mut text = left.to_owned();
    text.append(right);
    text
}

/// A text is padded with zeros in front up to the width, and only where it is shorter.
pub proof fn law_padding(text: Seq<char>, width: nat)
    ensures
        zero_padded(text, width).len() == (if text.len() >= width {
            text.len()
        } else {
            width
        }),
        zero_padded(text, width).skip(zero_padded(text, width).len() - text.len()) == text,
        forall|i: int|
            0 <= i < zero_padded(text, width).len() - text.len() ==> #[trigger] zero_padded(
                text,
                width,
            )[i] == '0',
{
    let padded = zero_padded(text, width);
    assert(padded.skip(padded.len() - text.len()) =~= text);
}

} // verus!

//! Identifiers as text.

use vstd::prelude::*;
use vstd::string::*;

use crate::text::signed_decimal_text;

verus! {

use vstd::arithmetic::power::pow;

use crate::text::signed_decimal;

/// A digit of base sixteen.
pub open spec fn hex_digit(digit: int) -> char {
    if digit < 10 {
        ('0' as int + digit) as char
    } else {
        ('a' as int + digit - 10) as char
    }
}

/// The digit of base sixteen that comes before so many others.
pub open spec fn digit_before(value: u128, others: int) -> char {
    hex_digit(value as int / pow(16, others as nat) % 16)
}

/// The text of the identifier with the given value: its thirty-two digits of base sixteen, in
/// groups of eight, four, four, four and twelve with hyphens between them.
pub open spec fn uuid_display(value: u128) -> Seq<char> {
    Seq::new(
        36,
        |i: int|
            if i == 8 || i == 13 || i == 18 || i == 23 {
                '-'
            } else if i < 8 {
                digit_before(value, 31 - i)
            } else if i < 13 {
                digit_before(value, 32 - i)
            } else if i < 18 {
                digit_before(value, 33 - i)
            } else if i < 23 {
                digit_before(value, 34 - i)
            } else {
                digit_before(value, 35 - i)
            },
    )
}

/// Whether the digits that tell the version and the variant of an identifier are those of a
/// random one.
pub open spec fn is_random_uuid(value: u128) -> bool {
    &&& value / 0x1000_0000_0000_0000_0000 % 16 == 4
    &&& value / 0x4000_0000_0000_0000 % 4 == 2
}

/// `Uuid::from_u128` and the `Display` of `uuid::Uuid`: the identifier with the given value
/// as text, in lower case and with hyphens.
#[verifier::external_body]
pub(crate) fn uuid_text(value: u128) -> (text: String)
    ensures
        text@ == uuid_display(value),
{
    uuid::Uuid::from_u128(value).to_string()
}

/// `Uuid::new_v4`: the value of a fresh random identifier. Only its version and its variant
/// are known; the rest depends on chance.
#[verifier::external_body]
pub(crate) fn random_uuid() -> (value: u128)
    ensures
        is_random_uuid(value),
{
    uuid::Uuid::new_v4().as_u128()
}

/// An optional text, as it shows in messages.
pub open spec fn shown_option(text: Option<Seq<char>>) -> Seq<char> {
    match text {
        Some(t) => "Some("@ + t + ")"@,
        None => "None"@,
    }
}

/// An optional id, as it shows in messages.
pub open spec fn shown_id(id: Option<i64>) -> Seq<char> {
    shown_option(
        match id {
            Some(id) => Some(signed_decimal(id as int)),
            None => None,
        },
    )
}

/// An optional identifier, as it shows in messages.
pub open spec fn shown_uuid(uuid: Option<u128>) -> Seq<char> {
    shown_option(
        match uuid {
            Some(value) => Some(uuid_display(value)),
            None => None,
        },
    )
}

fn wrap_some(text: String) -> (shown: String)
    ensures
        shown@ == shown_option(Some(text@)),
{
    let mut shown = "Some(".to_owned();
    shown.append(text.as_str());
    shown.append(")");
    shown
}

/// An optional id, as it shows in messages.
pub fn shown_id_text(id: Option<i64>) -> (shown: String)
    ensures
        shown@ == shown_id(id),
{
    match id {
        Some(id) => wrap_some(signed_decimal_text(id)),
        None => "None".to_owned(),
    }
}

/// An optional identifier, as it shows in messages.
pub fn shown_uuid_text(uuid: Option<u128>) -> (shown: String)
    ensures
        shown@ == shown_uuid(uuid),
{
    match uuid {
        Some(value) => wrap_some(uuid_text(value)),
        None => "None".to_owned(),
    }
}

} // verus!

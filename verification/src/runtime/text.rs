//! Numbers as text, and text put together.

use vstd::prelude::*;
use vstd::string::StringExecFns;

verus! {

/// The character of a digit below sixteen, in lower case.
pub open spec fn digit_char(d: int) -> char {
    if d == 0 {
        '0'
    } else if d == 1 {
        '1'
    } else if d == 2 {
        '2'
    } else if d == 3 {
        '3'
    } else if d == 4 {
        '4'
    } else if d == 5 {
        '5'
    } else if d == 6 {
        '6'
    } else if d == 7 {
        '7'
    } else if d == 8 {
        '8'
    } else if d == 9 {
        '9'
    } else if d == 10 {
        'a'
    } else if d == 11 {
        'b'
    } else if d == 12 {
        'c'
    } else if d == 13 {
        'd'
    } else if d == 14 {
        'e'
    } else {
        'f'
    }
}

/// The decimal digits of a natural number, most significant first,
/// without leading zeros.
pub open spec fn decimal_digits(n: nat) -> Seq<char>
    decreases n,
{
    if n < 10 {
        seq![digit_char(n as int)]
    } else {
        decimal_digits(n / 10).push(digit_char((n % 10) as int))
    }
}

/// The hexadecimal digits of a natural number in lower case, most
/// significant first, without leading zeros.
pub open spec fn hexadecimal(n: nat) -> Seq<char>
    decreases n,
{
    if n < 16 {
        seq![digit_char(n as int)]
    } else {
        hexadecimal(n / 16).push(digit_char((n % 16) as int))
    }
}

/// An integer in decimal: a minus sign in front of a negative number.
pub open spec fn decimal(i: int) -> Seq<char> {
    if i < 0 {
        seq!['-'] + decimal_digits((-i) as nat)
    } else {
        decimal_digits(i as nat)
    }
}

/// `ToString::to_string` of an `i64`: the integer in decimal, with a minus
/// sign in front of a negative number.
#[verifier::external_body]
pub(crate) fn signed_text(value: i64) -> (text: String)
    ensures
        text@ == decimal(value as int),
{
    value.to_string()
}

/// `ToString::to_string` of a `u64`: the number in decimal.
#[verifier::external_body]
pub(crate) fn unsigned_text(value: u64) -> (text: String)
    ensures
        text@ == decimal(value as int),
{
    value.to_string()
}

/// `format!` with `{:x}` of a `u64`: the number in lower-case hexadecimal,
/// without prefix.
#[verifier::external_body]
pub(crate) fn hex_text(value: u64) -> (text: String)
    ensures
        text@ == hexadecimal(value as nat),
{
    format!("{:x}", value)
}

/// The three texts, one after the other.
pub fn join3(a: &str, b: &str, c: &str) -> (text: String)
    ensures
        text@ == a@ + b@ + c@,
{
    let mut text = String::from_str(a);
    text.append(b);
    text.append(c);
    text
}

} // verus!

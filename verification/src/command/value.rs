use vstd::prelude::*;

use crate::text::chars_of;

verus! {

/// A flag argument or an operand that could not be read as the requested
/// type.
#[derive(Clone, Copy, Debug, PartialEq, Eq, Structural)]
pub struct ParseValueError;

/// The value of an ASCII decimal digit.
pub open spec fn digit_value(c: char) -> nat {
    (c as u32 - '0' as u32) as nat
}

pub open spec fn is_digit(c: char) -> bool {
    '0' <= c <= '9'
}

/// The number that a string of decimal digits denotes.
pub open spec fn digits_value(d: Seq<char>) -> nat
    decreases d.len(),
{
    if d.len() == 0 {
        0
    } else {
        digits_value(d.drop_last()) * 10 + digit_value(d.last())
    }
}

/// How the standard library reads an unsigned integer no larger than `max`
/// from text: an optional `+`, then one or more decimal digits.
pub open spec fn parse_unsigned(text: Seq<char>, max: nat) -> Option<nat> {
    let d = unsigned_digits(text);
    if d.len() > 0 && all_digits(d) && digits_value(d) <= max {
        Some(digits_value(d))
    } else {
        None
    }
}

/// The text after an optional leading `+`.
pub open spec fn unsigned_digits(text: Seq<char>) -> Seq<char> {
    if text.len() > 0 && text[0] == '+' {
        text.drop_first()
    } else {
        text
    }
}

pub open spec fn all_digits(d: Seq<char>) -> bool {
    forall|i: int| 0 <= i < d.len() ==> is_digit(#[trigger] d[i])
}

/// Appending digits never makes the value smaller.
proof fn lemma_prefix_value_le(d: Seq<char>, k: int)
    requires
        0 <= k <= d.len(),
    ensures
        digits_value(d.take(k)) <= digits_value(d),
    decreases d.len(),
{
    if k < d.len() {
        assert(d.drop_last().take(k) =~= d.take(k));
        lemma_prefix_value_le(d.drop_last(), k);
    } else {
        assert(d.take(k) =~= d);
    }
}

/// Read an unsigned integer no larger than `max`.
fn parse_unsigned_exec(text: &str, max: u32) -> (res: Option<u32>)
    ensures
        match res {
            Some(v) => parse_unsigned(text@, max as nat) == Some(v as nat),
            None => parse_unsigned(text@, max as nat) is None,
        },
{
    let chars = chars_of(text);
    let start: usize = if chars.len() > 0 && chars[0] == '+' {
        1
    } else {
        0
    };
    let ghost d = unsigned_digits(text@);
    assert(d =~= chars@.skip(start as int));
    if start >= chars.len() {
        return None;
    }
    let mut value: u32 = 0;
    let mut i: usize = start;
    while i < chars.len()
        invariant
            start <= i <= chars@.len(),
            chars@ == text@,
            d == chars@.skip(start as int),
            d == unsigned_digits(text@),
            value as nat == digits_value(d.take(i - start)),
            value <= max,
            forall|j: int| 0 <= j < i - start ==> is_digit(#[trigger] d[j]),
        decreases chars@.len() - i,
    {
        let c = chars[i];
        let ghost k = i - start;
        assert(d.take(k + 1).drop_last() =~= d.take(k));
        assert(d[k] == c);
        if !('0' <= c && c <= '9') {
            assert(!is_digit(d[k]));
            assert(parse_unsigned(text@, max as nat) is None);
            return None;
        }
        let digit: u32 = (c as u32) - ('0' as u32);
        let next: u64 = (value as u64) * 10 + (digit as u64);
        assert(digits_value(d.take(k + 1)) == next as nat);
        if next > max as u64 {
            proof {
                lemma_prefix_value_le(d, k + 1);
                assert(digits_value(d) > max as nat);
            }
            assert(parse_unsigned(text@, max as nat) is None);
            return None;
        }
        value = next as u32;
        i = i + 1;
    }
    assert(d.take(i - start) =~= d);
    Some(value)
}

/// A type that a flag argument or an operand can be read as.
pub trait FromArg: Sized + View {
    /// The value that `text` denotes, if any.
    spec fn parses(text: Seq<char>) -> Option<Self::V>;

    fn from_arg(text: &str) -> (res: Result<Self, ParseValueError>)
        ensures
            match res {
                Ok(v) => Self::parses(text@) == Some(v@),
                Err(_) => Self::parses(text@) is None,
            },
    ;
}

impl FromArg for u8 {
    open spec fn parses(text: Seq<char>) -> Option<u8> {
        match parse_unsigned(text, 255) {
            Some(v) => Some(v as u8),
            None => None,
        }
    }

    fn from_arg(text: &str) -> (res: Result<u8, ParseValueError>) {
        match parse_unsigned_exec(text, 255) {
            Some(v) => Ok(v as u8),
            None => Err(ParseValueError),
        }
    }
}

impl FromArg for u16 {
    open spec fn parses(text: Seq<char>) -> Option<u16> {
        match parse_unsigned(text, 65535) {
            Some(v) => Some(v as u16),
            None => None,
        }
    }

    fn from_arg(text: &str) -> (res: Result<u16, ParseValueError>) {
        match parse_unsigned_exec(text, 65535) {
            Some(v) => Ok(v as u16),
            None => Err(ParseValueError),
        }
    }
}

impl FromArg for String {
    /// Any text reads as itself.
    open spec fn parses(text: Seq<char>) -> Option<Seq<char>> {
        Some(text)
    }

    fn from_arg(text: &str) -> (res: Result<String, ParseValueError>) {
        Ok(text.to_owned())
    }
}

} // verus!

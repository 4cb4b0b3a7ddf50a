use vstd::prelude::*;

use crate::text::text_eq;

verus! {

// ---------------------------------------------------------------------------
// Unsigned integers as `str::parse` reads them
// ---------------------------------------------------------------------------

/// An ASCII decimal digit.
pub open spec fn is_decimal_digit(c: char) -> bool {
    48 <= (c as int) <= 57
}

/// A non-empty run of decimal digits.
pub open spec fn all_decimal_digits(text: Seq<char>) -> bool {
    text.len() > 0 && forall|i: int| 0 <= i < text.len() ==> is_decimal_digit(#[trigger] text[i])
}

/// The number that a run of decimal digits writes.
pub open spec fn decimal_value(text: Seq<char>) -> nat
    decreases text.len(),
{
    if text.len() == 0 {
        0
    } else {
        decimal_value(text.drop_last()) * 10 + ((text.last() as int) - 48) as nat
    }
}

/// The text after one optional leading `+`.
pub open spec fn unsigned_digits(text: Seq<char>) -> Seq<char> {
    if text.len() > 0 && text[0] == '+' {
        text.drop_first()
    } else {
        text
    }
}

/// What `str::parse` gives for an unsigned integer type whose largest value
/// is `max`: the value of the digits after an optional `+`, if there is at
/// least one digit, all are decimal digits, and the value fits.
pub open spec fn parsed_unsigned(text: Seq<char>, max: nat) -> Option<nat> {
    let digits = unsigned_digits(text);
    if all_decimal_digits(digits) && decimal_value(digits) <= max {
        Some(decimal_value(digits))
    } else {
        None
    }
}

proof fn lemma_decimal_value_grows(text: Seq<char>, k: int)
    requires
        0 <= k <= text.len(),
        forall|i: int| 0 <= i < text.len() ==> is_decimal_digit(#[trigger] text[i]),
    ensures
        decimal_value(text.subrange(0, k)) <= decimal_value(text),
    decreases text.len(),
{
    if k < text.len() {
        let shorter = text.drop_last();
        assert(shorter.subrange(0, k) =~= text.subrange(0, k));
        assert forall|i: int| 0 <= i < shorter.len() implies is_decimal_digit(#[trigger] shorter[i]) by {
            assert(shorter[i] == text[i]);
        }
        lemma_decimal_value_grows(shorter, k);
        assert(is_decimal_digit(text[text.len() - 1]));
    } else {
        assert(text.subrange(0, k) =~= text);
    }
}

/// Reads an unsigned integer no larger than `max` as `str::parse` does.
pub fn parse_unsigned(text: &str, max: u64) -> (value: Option<u64>)
    ensures
        match value {
            Some(v) => parsed_unsigned(text@, max as nat) == Some(v as nat),
            None => parsed_unsigned(text@, max as nat) is None,
        },
{
    let n = text.unicode_len();
    let mut start: usize = 0;
    if n > 0 && text.get_char(0) == '+' {
        start = 1;
    }
    let ghost digits = unsigned_digits(text@);
    proof {
        assert(digits =~= text@.subrange(start as int, n as int));
    }
    if start == n {
        return None;
    }
    let mut acc: u64 = 0;
    let mut i: usize = start;
    while i < n
        invariant
            start <= i <= n,
            start < n,
            n == text@.len(),
            digits == text@.subrange(start as int, n as int),
            digits == unsigned_digits(text@),
            forall|j: int| 0 <= j < i - start ==> is_decimal_digit(#[trigger] digits[j]),
            acc as nat == decimal_value(digits.subrange(0, i - start)),
            acc <= max,
        decreases n - i,
    {
        let c = text.get_char(i);
        let code = c as u32;
        if code < 48 || code > 57 {
            proof {
                assert(digits[i - start] == c);
            }
            return None;
        }
        let digit = (code - 48) as u64;
        let next = (acc as u128) * 10 + (digit as u128);
        proof {
            assert(digits[i - start] == c);
            let prefix = digits.subrange(0, i - start + 1);
            assert(prefix.drop_last() =~= digits.subrange(0, i - start));
            assert(decimal_value(prefix) == next);
        }
        if next > max as u128 {
            proof {
                if all_decimal_digits(digits) {
                    lemma_decimal_value_grows(digits, i - start + 1);
                }
            }
            return None;
        }
        acc = next as u64;
        i = i + 1;
    }
    proof {
        assert(digits.subrange(0, n - start) =~= digits);
    }
    Some(acc)
}

/// Reads a `u64` as `str::parse::<u64>` does.
pub fn parse_u64(text: &str) -> (value: Option<u64>)
    ensures
        match value {
            Some(v) => parsed_unsigned(text@, u64::MAX as nat) == Some(v as nat),
            None => parsed_unsigned(text@, u64::MAX as nat) is None,
        },
{
    parse_unsigned(text, u64::MAX)
}

/// Reads a `u16` as `str::parse::<u16>` does.
pub fn parse_u16(text: &str) -> (value: Option<u16>)
    ensures
        match value {
            Some(v) => parsed_unsigned(text@, u16::MAX as nat) == Some(v as nat),
            None => parsed_unsigned(text@, u16::MAX as nat) is None,
        },
{
    match parse_unsigned(text, u16::MAX as u64) {
        Some(v) => Some(v as u16),
        None => None,
    }
}

/// Reads a `u8` as `str::parse::<u8>` does.
pub fn parse_u8(text: &str) -> (value: Option<u8>)
    ensures
        match value {
            Some(v) => parsed_unsigned(text@, u8::MAX as nat) == Some(v as nat),
            None => parsed_unsigned(text@, u8::MAX as nat) is None,
        },
{
    match parse_unsigned(text, u8::MAX as u64) {
        Some(v) => Some(v as u8),
        None => None,
    }
}

/// Reads a `usize` as `str::parse::<usize>` does.
pub fn parse_usize(text: &str) -> (value: Option<usize>)
    ensures
        match value {
            Some(v) => parsed_unsigned(text@, usize::MAX as nat) == Some(v as nat),
            None => parsed_unsigned(text@, usize::MAX as nat) is None,
        },
{
    match parse_unsigned(text, usize::MAX as u64) {
        Some(v) => Some(v as usize),
        None => None,
    }
}

// ---------------------------------------------------------------------------
// Settings read from the environment
// ---------------------------------------------------------------------------

/// The value of a boolean setting: set means true exactly when the value is
/// `true`; unset means the default.
pub open spec fn bool_setting_value(value: Option<Seq<char>>, default: bool) -> bool {
    match value {
        Some(v) => v == "true"@,
        None => default,
    }
}

/// The views of an optional string.
pub open spec fn optional_view(value: Option<String>) -> Option<Seq<char>> {
    match value {
        Some(v) => Some(v@),
        None => None,
    }
}

/// A boolean setting from the value of its variable, if set.
pub fn read_bool_env_var(value: Option<String>, default: bool) -> (setting: bool)
    ensures
        setting == bool_setting_value(optional_view(value), default),
{
    match value {
        Some(v) => text_eq(v.as_str(), "true"),
        None => default,
    }
}

/// A text setting from the value of its variable, if set.
pub fn read_env_var(value: Option<String>, default: &str) -> (setting: String)
    ensures
        setting@ == match value {
            Some(v) => v@,
            None => default@,
        },
{
    match value {
        Some(v) => v,
        None => default.to_owned(),
    }
}

/// A mandatory setting: its value must be set.
pub fn read_mandatory_env_var(value: Option<String>) -> (setting: String)
    requires
        value is Some,
    ensures
        setting@ == value->0@,
{
    match value {
        Some(v) => v,
        None => String::new(),
    }
}

/// Whether the value of a numeric setting, if set, is a number that fits.
pub open spec fn numeric_setting_readable(value: Option<Seq<char>>, max: nat) -> bool {
    match value {
        Some(v) => parsed_unsigned(v, max) is Some,
        None => true,
    }
}

/// The value of a numeric setting: the number it is set to, or the default.
pub open spec fn numeric_setting_value(value: Option<Seq<char>>, max: nat, default: nat) -> nat {
    match value {
        Some(v) => parsed_unsigned(v, max)->0,
        None => default,
    }
}

/// A `u64` setting from the value of its variable, if set.
pub fn read_numeric_env_var_u64(value: Option<String>, default: u64) -> (setting: u64)
    requires
        numeric_setting_readable(optional_view(value), u64::MAX as nat),
    ensures
        setting as nat == numeric_setting_value(optional_view(value), u64::MAX as nat, default as nat),
{
    match value {
        Some(v) => match parse_u64(v.as_str()) {
            Some(n) => n,
            None => default,
        },
        None => default,
    }
}

/// A `u16` setting from the value of its variable, if set.
pub fn read_numeric_env_var_u16(value: Option<String>, default: u16) -> (setting: u16)
    requires
        numeric_setting_readable(optional_view(value), u16::MAX as nat),
    ensures
        setting as nat == numeric_setting_value(optional_view(value), u16::MAX as nat, default as nat),
{
    match value {
        Some(v) => match parse_u16(v.as_str()) {
            Some(n) => n,
            None => default,
        },
        None => default,
    }
}

/// A `usize` setting from the value of its variable, if set.
pub fn read_numeric_env_var_usize(value: Option<String>, default: usize) -> (setting: usize)
    requires
        numeric_setting_readable(optional_view(value), usize::MAX as nat),
    ensures
        setting as nat == numeric_setting_value(optional_view(value), usize::MAX as nat, default as nat),
{
    match value {
        Some(v) => match parse_usize(v.as_str()) {
            Some(n) => n,
            None => default,
        },
        None => default,
    }
}

} // verus!

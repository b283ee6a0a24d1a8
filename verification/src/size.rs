//! Byte sizes written by people: digits, then an optional binary unit.

use vstd::prelude::*;

use crate::text::{
    ascii_lowercase, ascii_lowercase_chars, chars_eq, chars_of, trim_chars, trimmed,
};

verus! {

/// Why a size could not be read.
#[derive(Debug, Clone, Copy, PartialEq, Eq, Structural)]
pub enum SizeParseError {
    Empty,
    MissingDigits,
    InvalidNumericPart,
    UnsupportedUnit,
    TooLarge,
}

/// Whether `c` is one of `0`..=`9`.
pub open spec fn is_ascii_digit(c: char) -> bool {
    '0' <= c && c <= '9'
}

/// The number of leading ASCII digits of `s`.
pub open spec fn digit_prefix_len(s: Seq<char>) -> nat
    decreases s.len(),
{
    if s.len() > 0 && is_ascii_digit(s[0]) {
        1 + digit_prefix_len(s.drop_first())
    } else {
        0
    }
}

/// The value of a string of ASCII digits, read in base ten.
pub open spec fn digits_value(s: Seq<char>) -> nat
    decreases s.len(),
{
    if s.len() == 0 {
        0
    } else {
        digits_value(s.drop_last()) * 10 + ((s.last() as u32) - 48) as nat
    }
}

/// The factor of a unit (already lower-cased), if it is one of `b`, `kib`, `mib`, `gib`, `tib`
/// or empty.
pub open spec fn unit_multiplier(unit: Seq<char>) -> Option<nat> {
    if unit == Seq::<char>::empty() || unit == seq!['b'] {
        Some(1)
    } else if unit == seq!['k', 'i', 'b'] {
        Some(1024)
    } else if unit == seq!['m', 'i', 'b'] {
        Some(1048576)
    } else if unit == seq!['g', 'i', 'b'] {
        Some(1073741824)
    } else if unit == seq!['t', 'i', 'b'] {
        Some(1099511627776)
    } else {
        None
    }
}

/// What `parse_size` gives for `input`.
pub open spec fn size_parse(input: Seq<char>) -> Result<u64, SizeParseError> {
    let raw = trimmed(input);
    let n = digit_prefix_len(raw);
    if raw.len() == 0 {
        Err(SizeParseError::Empty)
    } else if n == 0 {
        Err(SizeParseError::MissingDigits)
    } else if digits_value(raw.take(n as int)) > u64::MAX {
        Err(SizeParseError::InvalidNumericPart)
    } else {
        match unit_multiplier(ascii_lowercase(trimmed(raw.skip(n as int)))) {
            None => Err(SizeParseError::UnsupportedUnit),
            Some(m) => if digits_value(raw.take(n as int)) * m > u64::MAX {
                Err(SizeParseError::TooLarge)
            } else {
                Ok((digits_value(raw.take(n as int)) * m) as u64)
            },
        }
    }
}

proof fn lemma_digit_prefix(s: Seq<char>, i: int)
    requires
        0 <= i <= s.len(),
        forall|k: int| 0 <= k < i ==> is_ascii_digit(#[trigger] s[k]),
        i == s.len() || !is_ascii_digit(s[i]),
    ensures
        digit_prefix_len(s) == i,
    decreases i,
{
    if i > 0 {
        assert forall|k: int| 0 <= k < i - 1 implies is_ascii_digit(#[trigger] s.drop_first()[k]) by {
            assert(s.drop_first()[k] == s[k + 1]);
        }
        lemma_digit_prefix(s.drop_first(), i - 1);
    }
}

fn multiplier_of(unit: &Vec<char>) -> (r: Option<u64>)
    ensures
        match unit_multiplier(unit@) {
            Some(m) => r == Some(m as u64),
            None => r is None,
        },
{
    let b: Vec<char> = vec!['b'];
    let kib: Vec<char> = vec!['k', 'i', 'b'];
    let mib: Vec<char> = vec!['m', 'i', 'b'];
    let gib: Vec<char> = vec!['g', 'i', 'b'];
    let tib: Vec<char> = vec!['t', 'i', 'b'];
    assert(b@ =~= seq!['b']);
    assert(kib@ =~= seq!['k', 'i', 'b']);
    assert(mib@ =~= seq!['m', 'i', 'b']);
    assert(gib@ =~= seq!['g', 'i', 'b']);
    assert(tib@ =~= seq!['t', 'i', 'b']);
    if unit.len() == 0 {
        assert(unit@ =~= Seq::<char>::empty());
        Some(1)
    } else if chars_eq(unit, &b) {
        Some(1)
    } else if chars_eq(unit, &kib) {
        Some(1024)
    } else if chars_eq(unit, &mib) {
        Some(1048576)
    } else if chars_eq(unit, &gib) {
        Some(1073741824)
    } else if chars_eq(unit, &tib) {
        Some(1099511627776)
    } else {
        None
    }
}

/// Reads a byte size such as `512`, `64 MiB` or ` 2gib `: surrounding white space is
/// ignored, the digits come first, and the unit (B, KiB, MiB, GiB or TiB, in any ASCII case,
/// or none) may follow after white space.
pub fn parse_size(input: &str) -> (r: Result<u64, SizeParseError>)
    ensures
        r == size_parse(input@),
{
    let all = chars_of(input);
    let raw = trim_chars(&all);
    if raw.len() == 0 {
        return Err(SizeParseError::Empty);
    }
    let mut n: usize = 0;
    let mut value: u64 = 0;
    let mut overflow = false;
    while n < raw.len() && '0' <= raw[n] && raw[n] <= '9'
        invariant
            n <= raw@.len(),
            forall|k: int| 0 <= k < n ==> is_ascii_digit(#[trigger] raw@[k]),
            !overflow ==> value == digits_value(raw@.take(n as int)),
            overflow ==> digits_value(raw@.take(n as int)) > u64::MAX,
        decreases raw.len() - n,
    {
        let d = (raw[n] as u32 - 48) as u64;
        assert(raw@.take(n + 1 as int).drop_last() =~= raw@.take(n as int));
        assert(raw@.take(n + 1 as int).last() == raw@[n as int]);
        if !overflow {
            if value > (u64::MAX - d) / 10 {
                overflow = true;
                assert(digits_value(raw@.take(n + 1 as int)) > u64::MAX) by (nonlinear_arith)
                    requires
                        value > (u64::MAX - d) / 10,
                        digits_value(raw@.take(n + 1 as int)) == value * 10 + d,
                        d < 10,
                ;
            } else {
                assert(value * 10 + d <= u64::MAX) by (nonlinear_arith)
                    requires
                        value <= (u64::MAX - d) / 10,
                        d < 10,
                ;
                value = value * 10 + d;
            }
        } else {
            assert(digits_value(raw@.take(n + 1 as int)) >= digits_value(raw@.take(n as int)) * 10);
        }
        n = n + 1;
    }
    proof {
        lemma_digit_prefix(raw@, n as int);
    }
    if n == 0 {
        return Err(SizeParseError::MissingDigits);
    }
    if overflow {
        return Err(SizeParseError::InvalidNumericPart);
    }
    let mut rest: Vec<char> = Vec::new();
    let mut i: usize = n;
    while i < raw.len()
        invariant
            n <= i <= raw@.len(),
            rest@ =~= raw@.subrange(n as int, i as int),
        decreases raw.len() - i,
    {
        rest.push(raw[i]);
        i = i + 1;
    }
    assert(rest@ =~= raw@.skip(n as int));
    let unit_trimmed = trim_chars(&rest);
    let unit = ascii_lowercase_chars(&unit_trimmed);
    match multiplier_of(&unit) {
        None => Err(SizeParseError::UnsupportedUnit),
        Some(m) => {
            match value.checked_mul(m) {
                Some(v) => Ok(v),
                None => Err(SizeParseError::TooLarge),
            }
        },
    }
}

} // verus!

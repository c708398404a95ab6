//! Textual parsing of the primitive attribute values: integers of every
//! supported width, booleans, and the float literal grammar, with the
//! standard library's grammars and error distinctions reproduced exactly.

use vstd::prelude::*;
use vstd::string::StrSliceExecFns;
use super::textops::str_eq;

verus! {

/// Why an integer parse failed, with the same distinctions as the standard
/// library's integer parser.
#[derive(Debug, PartialEq, Eq, Clone, Copy)]
pub enum IntParseError {
    /// The input was empty.
    Empty,
    /// A character that is no decimal digit stood where a digit had to.
    InvalidDigit,
    /// The value grew past the largest value of the requested width.
    PosOverflow,
    /// The value sank below the smallest value of the requested width.
    NegOverflow,
}

/// The message the standard library's integer parser carries for `e`.
pub open spec fn int_error_message_spec(e: IntParseError) -> Seq<char> {
    match e {
        IntParseError::Empty => "cannot parse integer from empty string"@,
        IntParseError::InvalidDigit => "invalid digit found in string"@,
        IntParseError::PosOverflow => "number too large to fit in target type"@,
        IntParseError::NegOverflow => "number too small to fit in target type"@,
    }
}

/// The message the standard library's integer parser carries for `e`.
pub fn int_error_message(e: IntParseError) -> (r: &'static str)
    ensures
        r@ == int_error_message_spec(e),
{
    match e {
        IntParseError::Empty => "cannot parse integer from empty string",
        IntParseError::InvalidDigit => "invalid digit found in string",
        IntParseError::PosOverflow => "number too large to fit in target type",
        IntParseError::NegOverflow => "number too small to fit in target type",
    }
}

/// Whether `c` is a decimal digit.
pub open spec fn is_dec_digit(c: char) -> bool {
    '0' as int <= c as int && c as int <= '9' as int
}

/// The numeric value of the decimal digit `c`.
pub open spec fn digit_val(c: char) -> int {
    c as int - '0' as int
}

/// A left-to-right scan of the digits of `s[i..]`, accumulating upward from
/// `acc` and failing the moment a non-digit appears or the value passes
/// `max` — exactly the order in which the standard library's parser reports
/// its errors.
pub open spec fn scan_digits(s: Seq<char>, i: int, acc: int, max: int) -> Result<int, IntParseError>
    decreases s.len() - i,
{
    if i < 0 || i >= s.len() {
        Ok(acc)
    } else if !is_dec_digit(s[i]) {
        Err(IntParseError::InvalidDigit)
    } else if acc * 10 + digit_val(s[i]) > max {
        Err(IntParseError::PosOverflow)
    } else {
        scan_digits(s, i + 1, acc * 10 + digit_val(s[i]), max)
    }
}

/// The mirror image of [`scan_digits`] for a negative number: the
/// accumulator moves downward and fails once it sinks below `min`.
pub open spec fn scan_digits_neg(s: Seq<char>, i: int, acc: int, min: int) -> Result<
    int,
    IntParseError,
>
    decreases s.len() - i,
{
    if i < 0 || i >= s.len() {
        Ok(acc)
    } else if !is_dec_digit(s[i]) {
        Err(IntParseError::InvalidDigit)
    } else if acc * 10 - digit_val(s[i]) < min {
        Err(IntParseError::NegOverflow)
    } else {
        scan_digits_neg(s, i + 1, acc * 10 - digit_val(s[i]), min)
    }
}

/// What parsing `s` as an unsigned integer bounded by `max` yields: an
/// optional leading `+`, then one or more decimal digits.
pub open spec fn parse_unsigned_spec(s: Seq<char>, max: int) -> Result<int, IntParseError> {
    if s.len() == 0 {
        Err(IntParseError::Empty)
    } else if s[0] == '-' {
        Err(IntParseError::InvalidDigit)
    } else {
        let start: int = if s[0] == '+' {
            1
        } else {
            0
        };
        if s.len() == start {
            Err(IntParseError::InvalidDigit)
        } else {
            scan_digits(s, start, 0, max)
        }
    }
}

/// What parsing `s` as a signed integer in `[min, max]` yields: an optional
/// leading `+` or `-`, then one or more decimal digits.
pub open spec fn parse_signed_spec(s: Seq<char>, min: int, max: int) -> Result<
    int,
    IntParseError,
> {
    if s.len() == 0 {
        Err(IntParseError::Empty)
    } else if s[0] == '-' {
        if s.len() == 1 {
            Err(IntParseError::InvalidDigit)
        } else {
            scan_digits_neg(s, 1, 0, min)
        }
    } else {
        let start: int = if s[0] == '+' {
            1
        } else {
            0
        };
        if s.len() == start {
            Err(IntParseError::InvalidDigit)
        } else {
            scan_digits(s, start, 0, max)
        }
    }
}

/// Parse `s` as an unsigned integer no larger than `max`.
pub fn parse_unsigned(s: &str, max: u64) -> (r: Result<u64, IntParseError>)
    ensures
        match r {
            Ok(v) => v <= max && parse_unsigned_spec(s@, max as int) == Ok::<int, IntParseError>(
                v as int,
            ),
            Err(e) => parse_unsigned_spec(s@, max as int) == Err::<int, IntParseError>(e),
        },
{
    let len = s.unicode_len();
    if len == 0 {
        return Err(IntParseError::Empty);
    }
    let c0 = s.get_char(0);
    if c0 == '-' {
        return Err(IntParseError::InvalidDigit);
    }
    let start: usize = if c0 == '+' {
        1
    } else {
        0
    };
    if len == start {
        return Err(IntParseError::InvalidDigit);
    }
    let mut i: usize = start;
    let mut acc: u64 = 0;
    while i < len
        invariant
            start <= i <= len,
            len == s@.len(),
            s@.len() > 0,
            s@[0] != '-',
            start as int == (if s@[0] == '+' { 1int } else { 0int }),
            start < len,
            acc <= max,
            scan_digits(s@, start as int, 0, max as int) == scan_digits(
                s@,
                i as int,
                acc as int,
                max as int,
            ),
        decreases len - i,
    {
        let c = s.get_char(i);
        let u = c as u32;
        if u < 48 || u > 57 {
            return Err(IntParseError::InvalidDigit);
        }
        let d = (u - 48) as u64;
        let wide = (acc as u128) * 10 + (d as u128);
        if wide > (max as u128) {
            return Err(IntParseError::PosOverflow);
        }
        acc = wide as u64;
        i = i + 1;
    }
    Ok(acc)
}

/// Parse `s` as a signed integer within `[min, max]`.
pub fn parse_signed(s: &str, min: i64, max: i64) -> (r: Result<i64, IntParseError>)
    requires
        min <= 0,
        0 <= max,
    ensures
        match r {
            Ok(v) => min <= v <= max && parse_signed_spec(s@, min as int, max as int) == Ok::<
                int,
                IntParseError,
            >(v as int),
            Err(e) => parse_signed_spec(s@, min as int, max as int) == Err::<int, IntParseError>(
                e,
            ),
        },
{
    let len = s.unicode_len();
    if len == 0 {
        return Err(IntParseError::Empty);
    }
    let c0 = s.get_char(0);
    if c0 == '-' {
        if len == 1 {
            return Err(IntParseError::InvalidDigit);
        }
        let mut i: usize = 1;
        let mut acc: i64 = 0;
        while i < len
            invariant
                1 <= i <= len,
                len == s@.len(),
                s@.len() > 1,
                s@[0] == '-',
                min <= 0,
                min <= acc <= 0,
                scan_digits_neg(s@, 1, 0, min as int) == scan_digits_neg(
                    s@,
                    i as int,
                    acc as int,
                    min as int,
                ),
            decreases len - i,
        {
            let c = s.get_char(i);
            let u = c as u32;
            if u < 48 || u > 57 {
                return Err(IntParseError::InvalidDigit);
            }
            let d = (u - 48) as i64;
            let wide = (acc as i128) * 10 - (d as i128);
            if wide < (min as i128) {
                return Err(IntParseError::NegOverflow);
            }
            acc = wide as i64;
            i = i + 1;
        }
        Ok(acc)
    } else {
        let start: usize = if c0 == '+' {
            1
        } else {
            0
        };
        if len == start {
            return Err(IntParseError::InvalidDigit);
        }
        let mut i: usize = start;
        let mut acc: i64 = 0;
        while i < len
            invariant
                start <= i <= len,
                len == s@.len(),
                s@.len() > 0,
                s@[0] != '-',
                start as int == (if s@[0] == '+' { 1int } else { 0int }),
                start < len,
                0 <= acc <= max,
                scan_digits(s@, start as int, 0, max as int) == scan_digits(
                    s@,
                    i as int,
                    acc as int,
                    max as int,
                ),
            decreases len - i,
        {
            let c = s.get_char(i);
            let u = c as u32;
            if u < 48 || u > 57 {
                return Err(IntParseError::InvalidDigit);
            }
            let d = (u - 48) as i64;
            let wide = (acc as i128) * 10 + (d as i128);
            if wide > (max as i128) {
                return Err(IntParseError::PosOverflow);
            }
            acc = wide as i64;
            i = i + 1;
        }
        Ok(acc)
    }
}

/// What parsing `s` as a boolean yields: exactly the texts `true` and
/// `false` are accepted.
pub open spec fn parse_bool_spec(s: Seq<char>) -> Option<bool> {
    if s == "true"@ {
        Some(true)
    } else if s == "false"@ {
        Some(false)
    } else {
        None
    }
}

/// Parse `s` as a boolean.
pub fn parse_bool(s: &str) -> (r: Option<bool>)
    ensures
        r == parse_bool_spec(s@),
{
    if str_eq(s, "true") {
        Some(true)
    } else if str_eq(s, "false") {
        Some(false)
    } else {
        None
    }
}


/// The first position at or after `i` holding no decimal digit.
pub open spec fn skip_digits(s: Seq<char>, i: int) -> int
    decreases s.len() - i,
{
    if 0 <= i < s.len() && is_dec_digit(s[i]) {
        skip_digits(s, i + 1)
    } else {
        i
    }
}

/// Either the text ends at `i`, or an exponent part stands there: `e` or
/// `E`, an optional sign, and one or more digits reaching the end.
pub open spec fn exponent_ok(s: Seq<char>, i: int) -> bool {
    i == s.len() || ((s[i] == 'e' || s[i] == 'E') && {
        let j: int = if i + 1 < s.len() && (s[i + 1] == '+' || s[i + 1] == '-') {
            i + 2
        } else {
            i + 1
        };
        skip_digits(s, j) > j && skip_digits(s, j) == s.len()
    })
}

/// A decimal float number stands at `i` and reaches the end: digits, an
/// optional point with digits on at least one side, and an optional
/// exponent.
pub open spec fn number_ok(s: Seq<char>, i: int) -> bool {
    let d1 = skip_digits(s, i);
    if d1 == i {
        i < s.len() && s[i] == '.' && {
            let d2 = skip_digits(s, i + 1);
            d2 > i + 1 && exponent_ok(s, d2)
        }
    } else if d1 < s.len() && s[d1] == '.' {
        exponent_ok(s, skip_digits(s, d1 + 1))
    } else {
        exponent_ok(s, d1)
    }
}

/// One of the case-insensitive special float texts `inf`, `infinity` or
/// `nan` stands at `i` and reaches the end.
pub open spec fn special_ok(s: Seq<char>, i: int) -> bool {
    (s.len() - i == 3 && (s[i] == 'i' || s[i] == 'I') && (s[i + 1] == 'n' || s[i + 1] == 'N') && (
    s[i + 2] == 'f' || s[i + 2] == 'F')) || (s.len() - i == 8 && (s[i] == 'i' || s[i] == 'I') && (
    s[i + 1] == 'n' || s[i + 1] == 'N') && (s[i + 2] == 'f' || s[i + 2] == 'F') && (s[i + 3] == 'i'
        || s[i + 3] == 'I') && (s[i + 4] == 'n' || s[i + 4] == 'N') && (s[i + 5] == 'i' || s[i + 5]
        == 'I') && (s[i + 6] == 't' || s[i + 6] == 'T') && (s[i + 7] == 'y' || s[i + 7] == 'Y'))
        || (s.len() - i == 3 && (s[i] == 'n' || s[i] == 'N') && (s[i + 1] == 'a' || s[i + 1] == 'A')
        && (s[i + 2] == 'n' || s[i + 2] == 'N'))
}

/// Whether `s` is a text the standard library's float parser accepts: an
/// optional sign, then a special text or a decimal number.
pub open spec fn is_float_literal(s: Seq<char>) -> bool {
    let i: int = if s.len() > 0 && (s[0] == '+' || s[0] == '-') {
        1
    } else {
        0
    };
    special_ok(s, i) || number_ok(s, i)
}

/// The first position at or after `i` holding no decimal digit.
fn skip_digits_exec(s: &str, i: usize) -> (r: usize)
    requires
        i <= s@.len(),
    ensures
        i <= r <= s@.len(),
        r == skip_digits(s@, i as int),
{
    let len = s.unicode_len();
    let mut j = i;
    while j < len
        invariant
            i <= j <= len,
            len == s@.len(),
            skip_digits(s@, i as int) == skip_digits(s@, j as int),
        decreases len - j,
    {
        let u = s.get_char(j) as u32;
        if u < 48 || u > 57 {
            return j;
        }
        j = j + 1;
    }
    j
}

/// Whether the end or a full exponent part stands at `i`.
fn exponent_ok_exec(s: &str, i: usize) -> (r: bool)
    requires
        i <= s@.len(),
    ensures
        r == exponent_ok(s@, i as int),
{
    let len = s.unicode_len();
    if i == len {
        return true;
    }
    let c = s.get_char(i);
    if c != 'e' && c != 'E' {
        return false;
    }
    let j: usize = if i + 1 < len {
        let c1 = s.get_char(i + 1);
        if c1 == '+' || c1 == '-' {
            i + 2
        } else {
            i + 1
        }
    } else {
        i + 1
    };
    let d = skip_digits_exec(s, j);
    d > j && d == len
}

/// Whether one of the special float texts stands at `i` and reaches the
/// end.
fn special_ok_exec(s: &str, i: usize) -> (r: bool)
    requires
        i <= s@.len(),
    ensures
        r == special_ok(s@, i as int),
{
    let len = s.unicode_len();
    if len - i == 3 {
        let c0 = s.get_char(i);
        let c1 = s.get_char(i + 1);
        let c2 = s.get_char(i + 2);
        ((c0 == 'i' || c0 == 'I') && (c1 == 'n' || c1 == 'N') && (c2 == 'f' || c2 == 'F')) || ((c0
            == 'n' || c0 == 'N') && (c1 == 'a' || c1 == 'A') && (c2 == 'n' || c2 == 'N'))
    } else if len - i == 8 {
        let c0 = s.get_char(i);
        let c1 = s.get_char(i + 1);
        let c2 = s.get_char(i + 2);
        let c3 = s.get_char(i + 3);
        let c4 = s.get_char(i + 4);
        let c5 = s.get_char(i + 5);
        let c6 = s.get_char(i + 6);
        let c7 = s.get_char(i + 7);
        (c0 == 'i' || c0 == 'I') && (c1 == 'n' || c1 == 'N') && (c2 == 'f' || c2 == 'F') && (c3
            == 'i' || c3 == 'I') && (c4 == 'n' || c4 == 'N') && (c5 == 'i' || c5 == 'I') && (c6
            == 't' || c6 == 'T') && (c7 == 'y' || c7 == 'Y')
    } else {
        false
    }
}

/// Whether `s` is a text the standard library's float parser accepts.
pub fn is_float_literal_str(s: &str) -> (r: bool)
    ensures
        r == is_float_literal(s@),
{
    let len = s.unicode_len();
    let i: usize = if len > 0 {
        let c0 = s.get_char(0);
        if c0 == '+' || c0 == '-' {
            1
        } else {
            0
        }
    } else {
        0
    };
    if special_ok_exec(s, i) {
        return true;
    }
    let d1 = skip_digits_exec(s, i);
    if d1 == i {
        if i < len && s.get_char(i) == '.' {
            let d2 = skip_digits_exec(s, i + 1);
            d2 > i + 1 && exponent_ok_exec(s, d2)
        } else {
            false
        }
    } else if d1 < len && s.get_char(d1) == '.' {
        let d2 = skip_digits_exec(s, d1 + 1);
        exponent_ok_exec(s, d2)
    } else {
        exponent_ok_exec(s, d1)
    }
}

} // verus!

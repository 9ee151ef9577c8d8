//! Parses the values given as command line arguments.

use crate::terminal::util::Size;
use crate::util::{is_digit_char, is_numeric_spec};
use vstd::prelude::*;

verus! {

/// The maximum grid size must not have more than 2 digits because such
/// numbers cannot be displayed correctly on the grid, the grid being based
/// on two characters for numbers.
pub const MAX_GRID_SIZE: u16 = 99;

/// The values that can be created out of the arguments.
#[derive(Debug)]
pub enum Arg {
    /// A grid file's name and content.
    File { name: String, content: String },
    GridSize(Size),
    Help,
    Version,
}

/// Why an argument was not a size.
#[derive(Debug)]
pub enum SizeError {
    /// The named dimension lies outside 1 to 99.
    OutOfRange(&'static str),
    /// The argument is no number at all, so it may have meant a file.
    FileNotFound,
}

/// The numeric value of one decimal digit character.
pub open spec fn digit_val(c: char) -> int {
    c as int - '0' as int
}

/// The value of a decimal digit string, most significant digit first.
pub open spec fn digits_value(s: Seq<char>) -> int
    decreases s.len(),
{
    if s.len() == 0 {
        0
    } else {
        digits_value(s.drop_last()) * 10 + digit_val(s.last())
    }
}

/// A number's digit characters: everything after an optional leading plus
/// sign.
pub open spec fn digits_of(s: Seq<char>) -> Seq<char> {
    if s.len() > 0 && s[0] == '+' {
        s.drop_first()
    } else {
        s
    }
}

/// What parsing an unsigned 16-bit number from a string yields: an optional
/// leading plus sign, then at least one ASCII digit, with a value that fits.
pub open spec fn parse_u16_spec(s: Seq<char>) -> Option<u16> {
    let digits = digits_of(s);
    if digits.len() >= 1 && (forall|i: int| 0 <= i < digits.len() ==> is_digit_char(#[trigger] digits[i]))
        && digits_value(digits) <= 0xffff {
        Some(digits_value(digits) as u16)
    } else {
        None
    }
}

/// A digit string's value only grows as digits are appended.
proof fn lemma_digits_value_monotone(s: Seq<char>, i: int)
    requires
        0 <= i <= s.len(),
        forall|j: int| 0 <= j < s.len() ==> is_digit_char(#[trigger] s[j]),
    ensures
        0 <= digits_value(s.take(i)) <= digits_value(s),
    decreases s.len() - i,
{
    if i == s.len() {
        assert(s.take(i) =~= s);
        lemma_digits_value_nonneg(s);
    } else {
        lemma_digits_value_monotone(s, i + 1);
        let t = s.take(i + 1);
        assert(t.drop_last() =~= s.take(i));
        assert(is_digit_char(t.last()));
        lemma_digits_value_nonneg(s.take(i));
    }
}

/// A digit string's value is never negative.
proof fn lemma_digits_value_nonneg(s: Seq<char>)
    requires
        forall|j: int| 0 <= j < s.len() ==> is_digit_char(#[trigger] s[j]),
    ensures
        digits_value(s) >= 0,
    decreases s.len(),
{
    if s.len() > 0 {
        assert(forall|j: int|
            0 <= j < s.drop_last().len() ==> is_digit_char(#[trigger] s.drop_last()[j]));
        lemma_digits_value_nonneg(s.drop_last());
    }
}

/// Parses an unsigned 16-bit number the way the standard numeric parser
/// reads one: an optional plus sign, then decimal digits.
pub fn parse_u16(s: &str) -> (r: Option<u16>)
    ensures
        r == parse_u16_spec(s@),
{
    let len = s.unicode_len();
    let start: usize = if len > 0 && s.get_char(0) == '+' {
        1
    } else {
        0
    };
    let ghost digits = digits_of(s@);
    proof {
        assert(digits =~= s@.skip(start as int));
    }
    if len == start {
        return None;
    }
    let mut value: u32 = 0;
    let mut i: usize = start;
    while i < len
        invariant
            start <= i <= len,
            len == s@.len(),
            start <= 1,
            len > start,
            digits == s@.skip(start as int),
            digits == digits_of(s@),
            forall|j: int| 0 <= j < i - start ==> is_digit_char(#[trigger] digits[j]),
            value == digits_value(digits.take(i - start)),
            value <= 0xffff,
        decreases len - i,
    {
        let c = s.get_char(i);
        if !('0' <= c && c <= '9') {
            proof {
                let j0 = i - start;
                assert(digits[j0] == s@[i as int]);
                assert(0 <= j0 < digits_of(s@).len() && !is_digit_char(digits_of(s@)[j0]));
                assert(parse_u16_spec(s@) is None);
            }
            return None;
        }
        let d: u32 = (c as u32) - 48;
        proof {
            assert(digits.take(i - start + 1).drop_last() =~= digits.take(i - start));
            assert(digits.take(i - start + 1).last() == digits[i - start]);
            assert(digits[i - start] == s@[i as int]);
        }
        value = value * 10 + d;
        if value > 0xffff {
            proof {
                assert(forall|j: int|
                    0 <= j < i - start + 1 ==> is_digit_char(#[trigger] digits[j]));
                if (forall|j: int|
                    0 <= j < digits_of(s@).len() ==> is_digit_char(#[trigger] digits_of(s@)[j])) {
                    lemma_digits_value_monotone(digits, i - start + 1);
                    assert(digits_value(digits_of(s@)) > 0xffff);
                }
                assert(parse_u16_spec(s@) is None);
            }
            return None;
        }
        i += 1;
    }
    proof {
        assert(digits.take(len - start) =~= digits);
    }
    Some(value as u16)
}

/// Parses one argument as the edge length of a square grid.
pub fn parse_squared_size(size_str: &str) -> (r: Result<Option<Arg>, SizeError>)
    ensures
        match parse_u16_spec(size_str@) {
            Some(v) => if 1 <= v <= MAX_GRID_SIZE {
                r matches Ok(a) && (a matches Some(g) && g matches Arg::GridSize(sz) && sz.width
                    == v && sz.height == v)
            } else {
                r matches Err(e) && e is OutOfRange
            },
            None => if is_numeric_spec(size_str@) {
                r matches Err(e) && e is OutOfRange
            } else {
                r matches Err(e) && e is FileNotFound
            },
        },
{
    match parse_u16(size_str) {
        Some(parsed_size) => {
            if 1 <= parsed_size && parsed_size <= MAX_GRID_SIZE {
                Ok(Some(Arg::GridSize(Size { width: parsed_size, height: parsed_size })))
            } else {
                Err(SizeError::OutOfRange("size"))
            }
        },
        None => {
            if crate::util::is_numeric(size_str) {
                // A value above the 16-bit range will not parse but might
                // still be a number.
                Err(SizeError::OutOfRange("size"))
            } else {
                Err(SizeError::FileNotFound)
            }
        },
    }
}

/// Parses two arguments as a grid's width and height.
pub fn parse_size(width_str: &str, height_str: &str) -> (r: Result<Option<Arg>, SizeError>)
    ensures
        match parse_u16_spec(width_str@) {
            Some(w) => match parse_u16_spec(height_str@) {
                Some(h) => if !(1 <= w <= MAX_GRID_SIZE) {
                    r matches Err(e) && (e matches SizeError::OutOfRange(m) && m@ == "width"@)
                } else if !(1 <= h <= MAX_GRID_SIZE) {
                    r matches Err(e) && (e matches SizeError::OutOfRange(m) && m@ == "height"@)
                } else {
                    r matches Ok(a) && (a matches Some(g) && g matches Arg::GridSize(sz)
                        && sz.width == w && sz.height == h)
                },
                None => if is_numeric_spec(height_str@) {
                    r matches Err(e) && (e matches SizeError::OutOfRange(m) && m@ == "height"@)
                } else {
                    r matches Err(e) && e is FileNotFound
                },
            },
            None => if is_numeric_spec(width_str@) {
                r matches Err(e) && (e matches SizeError::OutOfRange(m) && m@ == "width"@)
            } else {
                r matches Err(e) && e is FileNotFound
            },
        },
{
    match parse_u16(width_str) {
        Some(parsed_width) => {
            match parse_u16(height_str) {
                Some(parsed_height) => {
                    if !(1 <= parsed_width && parsed_width <= MAX_GRID_SIZE) {
                        return Err(SizeError::OutOfRange("width"));
                    }
                    if !(1 <= parsed_height && parsed_height <= MAX_GRID_SIZE) {
                        return Err(SizeError::OutOfRange("height"));
                    }
                    Ok(Some(Arg::GridSize(Size { width: parsed_width, height: parsed_height })))
                },
                None => {
                    if crate::util::is_numeric(height_str) {
                        // A value above the 16-bit range will not parse but
                        // might still be a number.
                        Err(SizeError::OutOfRange("height"))
                    } else {
                        Err(SizeError::FileNotFound)
                    }
                },
            }
        },
        None => {
            if crate::util::is_numeric(width_str) {
                Err(SizeError::OutOfRange("width"))
            } else {
                Err(SizeError::FileNotFound)
            }
        },
    }
}

} // verus!

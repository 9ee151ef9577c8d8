//! Small helpers: line rasterization, numeric string checks and decimal
//! formatting.

use crate::terminal::util::Point;
use vstd::prelude::*;

verus! {

/// Whether `c` is an ASCII decimal digit.
pub open spec fn is_digit_char(c: char) -> bool {
    '0' <= c && c <= '9'
}

/// Whether the characters form a number: any run of `'-'` signs followed by
/// at least one ASCII digit and nothing else.
pub open spec fn is_numeric_spec(s: Seq<char>) -> bool {
    exists|k: int|
        0 <= k < s.len() && #[trigger] is_digit_char(s[k]) && (forall|i: int|
            0 <= i < k ==> s[i] == '-') && (forall|i: int|
            k <= i < s.len() ==> is_digit_char(#[trigger] s[i]))
}

/// Checks whether `str` is a number consisting of ASCII digits after any
/// number of leading `'-'` signs. An empty string is not a number.
pub fn is_numeric(str: &str) -> (r: bool)
    ensures
        r == is_numeric_spec(str@),
{
    let len = str.unicode_len();
    let mut digit_encountered = false;
    let mut first_digit: usize = 0;
    let mut i: usize = 0;
    while i < len
        invariant
            len == str@.len(),
            i <= len,
            !digit_encountered ==> forall|j: int| 0 <= j < i ==> str@[j] == '-',
            digit_encountered ==> first_digit < i && is_digit_char(str@[first_digit as int]),
            digit_encountered ==> forall|j: int| 0 <= j < first_digit ==> str@[j] == '-',
            digit_encountered ==> forall|j: int|
                first_digit <= j < i ==> is_digit_char(#[trigger] str@[j]),
        decreases len - i,
    {
        let c = str.get_char(i);
        if '0' <= c && c <= '9' {
            if !digit_encountered {
                digit_encountered = true;
                first_digit = i;
            }
        } else if c == '-' && !digit_encountered {
            // Still in the leading sign run.
        } else {
            proof {
                assert(!is_numeric_spec(str@)) by {
                    if is_numeric_spec(str@) {
                        let k = choose|k: int|
                            0 <= k < str@.len() && #[trigger] is_digit_char(str@[k]) && (forall|
                                j: int,
                            |
                                0 <= j < k ==> str@[j] == '-') && (forall|j: int|
                                k <= j < str@.len() ==> is_digit_char(#[trigger] str@[j]));
                        // The offending character is not a digit, so it must lie
                        // in the sign run, which a digit before it contradicts.
                        assert(i < k);
                        assert(str@[i as int] == '-');
                        assert(digit_encountered);
                        assert(str@[first_digit as int] == '-');
                    }
                }
            }
            return false;
        }
        i += 1;
    }
    if digit_encountered {
        proof {
            let k = first_digit as int;
            assert(0 <= k < str@.len() && is_digit_char(str@[k]) && (forall|j: int|
                0 <= j < k ==> str@[j] == '-') && (forall|j: int|
                k <= j < str@.len() ==> is_digit_char(#[trigger] str@[j])));
        }
        true
    } else {
        proof {
            assert(!is_numeric_spec(str@)) by {
                if is_numeric_spec(str@) {
                    let k = choose|k: int|
                        0 <= k < str@.len() && #[trigger] is_digit_char(str@[k]) && (forall|j: int|
                            0 <= j < k ==> str@[j] == '-') && (forall|j: int|
                            k <= j < str@.len() ==> is_digit_char(#[trigger] str@[j]));
                    // Every character was a sign, so no digit exists.
                    assert(str@[k] == '-');
                }
            }
        }
        false
    }
}

/// Returns the ordered grid points on the straight line from `start_point` to
/// `end_point`, both included.
///
/// Relies on `line_drawing::Bresenham`: it yields the points of the segment in
/// order from start to end, both endpoints included; every point stays within
/// the bounding rectangle of the endpoints, consecutive points differ by at
/// most one per axis, and no point repeats (the algorithm advances one column
/// per step within its octant, so it also yields at most one point more than
/// the larger coordinate distance). Coordinates stay strictly below the
/// signed 16-bit maximum so that the iterator's final increments past the
/// end cannot overflow.
#[verifier::external_body]
pub fn get_line_points(start_point: Point, end_point: Point) -> (r: Vec<Point>)
    requires
        start_point.x < 0x7fff,
        start_point.y < 0x7fff,
        end_point.x < 0x7fff,
        end_point.y < 0x7fff,
    ensures
        r@.len() >= 1,
        forall|k: int|
            0 <= k < r@.len() - 1 ==> ((#[trigger] r@[k]).x <= r@[k + 1].x + 1 && r@[k + 1].x
                <= r@[k].x + 1 && r@[k].y <= r@[k + 1].y + 1 && r@[k + 1].y <= r@[k].y + 1),
        r@.len() <= 1 + (if start_point.x >= end_point.x {
            start_point.x - end_point.x
        } else {
            end_point.x - start_point.x
        }) + (if start_point.y >= end_point.y {
            start_point.y - end_point.y
        } else {
            end_point.y - start_point.y
        }),
        r@.first() == start_point,
        r@.last() == end_point,
        forall|k: int|
            0 <= k < r@.len() ==> {
                &&& (if start_point.x <= end_point.x {
                    start_point.x <= (#[trigger] r@[k]).x <= end_point.x
                } else {
                    end_point.x <= r@[k].x <= start_point.x
                })
                &&& (if start_point.y <= end_point.y {
                    start_point.y <= r@[k].y <= end_point.y
                } else {
                    end_point.y <= r@[k].y <= start_point.y
                })
            },
        forall|k: int, l: int| 0 <= k < l < r@.len() ==> r@[k] != r@[l],
{
    line_drawing::Bresenham::new(
        (start_point.x as i16, start_point.y as i16),
        (end_point.x as i16, end_point.y as i16),
    )
        .map(|(x, y)| Point { x: x as u16, y: y as u16 })
        .collect()
}

/// The character for one decimal digit.
pub open spec fn digit_char(d: int) -> char
    recommends
        0 <= d < 10,
{
    if d == 0 {
        '0'
    } else if d == 1 {
        '1'
    } else if d == 2 {
        '2'
    } else if d == 3 {
        '3'
    } else if d == 4 {
        '4'
    } else if d == 5 {
        '5'
    } else if d == 6 {
        '6'
    } else if d == 7 {
        '7'
    } else if d == 8 {
        '8'
    } else {
        '9'
    }
}

/// The decimal digits of `n`, most significant first, without leading zeros
/// (a single `'0'` for zero).
pub open spec fn decimal_digits(n: nat) -> Seq<char>
    decreases n,
{
    if n < 10 {
        seq![digit_char(n as int)]
    } else {
        decimal_digits(n / 10).push(digit_char((n % 10) as int))
    }
}

/// One decimal digit as a string slice.
fn digit_str(d: u64) -> (r: &'static str)
    requires
        d < 10,
    ensures
        r@ =~= seq![digit_char(d as int)],
{
    proof {
        reveal_strlit("0");
        reveal_strlit("1");
        reveal_strlit("2");
        reveal_strlit("3");
        reveal_strlit("4");
        reveal_strlit("5");
        reveal_strlit("6");
        reveal_strlit("7");
        reveal_strlit("8");
        reveal_strlit("9");
    }
    if d == 0 {
        "0"
    } else if d == 1 {
        "1"
    } else if d == 2 {
        "2"
    } else if d == 3 {
        "3"
    } else if d == 4 {
        "4"
    } else if d == 5 {
        "5"
    } else if d == 6 {
        "6"
    } else if d == 7 {
        "7"
    } else if d == 8 {
        "8"
    } else {
        "9"
    }
}

/// Formats `n` in decimal.
pub fn decimal_string(n: u64) -> (r: String)
    ensures
        r@ =~= decimal_digits(n as nat),
    decreases n,
{
    if n < 10 {
        String::from_str(digit_str(n))
    } else {
        let mut s = decimal_string(n / 10);
        s.append(digit_str(n % 10));
        s
    }
}

/// `n` in decimal, right-aligned to a width of at least two by one leading
/// space.
pub open spec fn decimal_pad_left(n: nat) -> Seq<char> {
    if n < 10 {
        seq![' '] + decimal_digits(n)
    } else {
        decimal_digits(n)
    }
}

/// Formats `n` right-aligned in a field of width two.
pub fn decimal_string_pad_left(n: u64) -> (r: String)
    ensures
        r@ =~= decimal_pad_left(n as nat),
{
    if n < 10 {
        proof {
            reveal_strlit(" ");
        }
        let mut s = String::from_str(" ");
        s.append(digit_str(n));
        s
    } else {
        decimal_string(n)
    }
}

/// `n` in decimal, left-aligned to a width of at least two by one trailing
/// space.
pub open spec fn decimal_pad_right(n: nat) -> Seq<char> {
    if n < 10 {
        decimal_digits(n) + seq![' ']
    } else {
        decimal_digits(n)
    }
}

/// Formats `n` left-aligned in a field of width two.
pub fn decimal_string_pad_right(n: u64) -> (r: String)
    ensures
        r@ =~= decimal_pad_right(n as nat),
{
    if n < 10 {
        proof {
            reveal_strlit(" ");
        }
        let mut s = String::from_str(digit_str(n));
        s.append(" ");
        s
    } else {
        decimal_string(n)
    }
}

/// `n` in decimal, zero-padded to a width of at least two.
pub open spec fn decimal_zero_pad(n: nat) -> Seq<char> {
    if n < 10 {
        seq!['0'] + decimal_digits(n)
    } else {
        decimal_digits(n)
    }
}

/// Formats `n` zero-padded to a width of at least two.
pub fn decimal_string_zero_pad(n: u64) -> (r: String)
    ensures
        r@ =~= decimal_zero_pad(n as nat),
{
    if n < 10 {
        proof {
            reveal_strlit("0");
        }
        let mut s = String::from_str("0");
        s.append(digit_str(n));
        s
    } else {
        decimal_string(n)
    }
}

} // verus!

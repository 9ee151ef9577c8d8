//! Geometry and color types shared by the terminal model and the grid engine.

use vstd::prelude::*;
use vstd::string::StringSliceAdditionalSpecFns;

verus! {

/// A position on the terminal screen or within the grid, in character cells.
#[derive(Clone, Copy, PartialEq, Eq, Structural, Hash, Debug)]
pub struct Point {
    pub x: u16,
    pub y: u16,
}

/// A width and height pair, in character cells or in grid cells.
#[derive(Clone, Copy, PartialEq, Eq, Structural, Hash, Debug)]
pub struct Size {
    pub width: u16,
    pub height: u16,
}

impl Size {
    /// The number of cells a buffer of this size holds.
    pub fn product(&self) -> (r: u32)
        ensures
            r == self.width as u32 * self.height as u32,
    {
        proof {
            assert(self.width as int * self.height as int <= 0xffff * 0xffff) by (nonlinear_arith)
                requires
                    self.width <= 0xffff,
                    self.height <= 0xffff,
            ;
        }
        self.width as u32 * self.height as u32
    }
}

/// A terminal color: 4-bit named colors, 8-bit palette bytes and 24-bit RGB.
#[derive(Clone, Copy, PartialEq, Eq, Structural, Hash, Debug)]
pub enum Color {
    DarkRed,
    DarkGreen,
    DarkYellow,
    DarkBlue,
    DarkMagenta,
    DarkCyan,
    /// A terminal's default background color.
    Black,
    /// A terminal's default foreground color.
    Gray,
    DarkGray,
    Red,
    Green,
    Yellow,
    Blue,
    Magenta,
    Cyan,
    White,
    /// An 8-bit palette color.
    Byte(u8),
    /// A 24-bit color.
    Rgb { r: u8, g: u8, b: u8 },
}

/// The number of grayscale entries at the top of the 8-bit palette.
pub const GRAYSCALE_COLOR_COUNT: u8 = 24;

/// The number of 4-bit colors at the bottom of the 8-bit palette.
pub const FOUR_BIT_COLOR_COUNT: u8 = 16;

/// What `Color::invert` returns: palette bytes are mirrored within their
/// palette region, RGB components are complemented, and the named colors
/// collapse to black or white.
pub open spec fn invert_spec(c: Color) -> Color {
    match c {
        Color::Byte(byte) => if byte >= 255 - GRAYSCALE_COLOR_COUNT {
            Color::Byte(((255 - byte) + (255 - GRAYSCALE_COLOR_COUNT - 1)) as u8)
        } else {
            Color::Byte((255 - byte - FOUR_BIT_COLOR_COUNT + 1) as u8)
        },
        Color::Rgb { r, g, b } => Color::Rgb {
            r: (255 - r) as u8,
            g: (255 - g) as u8,
            b: (255 - b) as u8,
        },
        Color::Black => Color::White,
        Color::DarkGray => Color::White,
        _ => Color::Black,
    }
}

/// Whether a byte is an ASCII hexadecimal digit.
pub open spec fn is_hex_digit(b: u8) -> bool {
    (48 <= b <= 57) || (65 <= b <= 70) || (97 <= b <= 102)
}

/// The value of an ASCII hexadecimal digit.
pub open spec fn hex_val(b: u8) -> int {
    if 48 <= b <= 57 {
        b - 48
    } else if 65 <= b <= 70 {
        b - 55
    } else {
        b - 87
    }
}

/// The value of a two-digit hexadecimal pair.
pub open spec fn hex_byte(hi: u8, lo: u8) -> int {
    hex_val(hi) * 16 + hex_val(lo)
}

/// What parsing a six-digit hexadecimal color yields: the three color
/// components read from the first six bytes, or nothing when they are not
/// all hexadecimal digits.
pub open spec fn from_hex_spec(b: Seq<u8>) -> Option<Color> {
    if b.len() >= 6 && (forall|i: int| 0 <= i < 6 ==> is_hex_digit(#[trigger] b[i])) {
        Some(
            Color::Rgb {
                r: hex_byte(b[0], b[1]) as u8,
                g: hex_byte(b[2], b[3]) as u8,
                b: hex_byte(b[4], b[5]) as u8,
            },
        )
    } else {
        None
    }
}

/// Reads one ASCII hexadecimal digit's value.
fn hex_digit_value(b: u8) -> (r: Option<u8>)
    ensures
        r matches Some(v) ==> is_hex_digit(b) && v == hex_val(b) && v < 16,
        r is None ==> !is_hex_digit(b),
{
    if 48 <= b && b <= 57 {
        Some(b - 48)
    } else if 65 <= b && b <= 70 {
        Some(b - 55)
    } else if 97 <= b && b <= 102 {
        Some(b - 87)
    } else {
        None
    }
}

/// Whether a character is a hexadecimal digit beyond the decimal ones.
pub open spec fn is_hex_letter(c: char) -> bool {
    ('a' <= c && c <= 'f') || ('A' <= c && c <= 'F')
}

/// One decimal digit folded into a component being read: the component
/// grows by one decimal place and saturates at 255.
pub open spec fn sat_add_digit(cur: Option<u8>, d: int) -> u8 {
    match cur {
        Some(v) => if v * 10 + d > 255 {
            255
        } else {
            (v * 10 + d) as u8
        },
        None => d as u8,
    }
}

/// The color made of however many components were read; missing trailing
/// components are zero, and nothing read at all is no color.
pub open spec fn finish_rgb(r: Option<u8>, g: Option<u8>, b: Option<u8>) -> Option<Color> {
    match (r, g, b) {
        (Some(r), None, None) => Some(Color::Rgb { r, g: 0, b: 0 }),
        (Some(r), Some(g), None) => Some(Color::Rgb { r, g, b: 0 }),
        (Some(r), Some(g), Some(b)) => Some(Color::Rgb { r, g, b }),
        _ => None,
    }
}

/// What reading an RGB color from position `k` onward yields, given the
/// components read so far, the component being read (`slot` 0, 1 or 2) and
/// the length of the current hexadecimal digit run:
/// decimal digits grow the current component; any other character moves on
/// to the first unread component, or finishes once all three were read;
/// a run of six hexadecimal digits, or any hexadecimal letter, is tried as
/// a hexadecimal color first.
pub open spec fn from_rgb_spec_at(
    s: Seq<char>,
    k: int,
    r: Option<u8>,
    g: Option<u8>,
    b: Option<u8>,
    slot: int,
    run: int,
) -> Option<Color>
    decreases s.len() - k,
    when 0 <= k <= s.len()
{
    if k >= s.len() {
        finish_rgb(r, g, b)
    } else {
        let c = s[k];
        if '0' <= c && c <= '9' {
            let d = c as int - 48;
            let r2 = if slot == 0 {
                Some(sat_add_digit(r, d))
            } else {
                r
            };
            let g2 = if slot == 1 {
                Some(sat_add_digit(g, d))
            } else {
                g
            };
            let b2 = if slot == 2 {
                Some(sat_add_digit(b, d))
            } else {
                b
            };
            if run + 1 == 6 && k + 1 >= 6 && from_hex_spec(
                vstd::utf8::encode_utf8(s.skip(k - 5)),
            ) is Some {
                from_hex_spec(vstd::utf8::encode_utf8(s.skip(k - 5)))
            } else {
                from_rgb_spec_at(s, k + 1, r2, g2, b2, slot, run + 1)
            }
        } else if is_hex_letter(c) {
            if from_hex_spec(vstd::utf8::encode_utf8(s.skip(k))) is Some {
                from_hex_spec(vstd::utf8::encode_utf8(s.skip(k)))
            } else if run + 1 == 6 && k + 1 >= 6 && from_hex_spec(
                vstd::utf8::encode_utf8(s.skip(k - 5)),
            ) is Some {
                from_hex_spec(vstd::utf8::encode_utf8(s.skip(k - 5)))
            } else {
                from_rgb_spec_at(s, k + 1, r, g, b, slot, run + 1)
            }
        } else {
            if r is Some && g is Some && b is Some {
                finish_rgb(r, g, b)
            } else {
                let slot2: int = if r is None {
                    0
                } else if g is None {
                    1
                } else {
                    2
                };
                from_rgb_spec_at(s, k + 1, r, g, b, slot2, 0)
            }
        }
    }
}

/// What parsing an RGB color yields: up to three decimal components
/// separated by any other characters, or a six-digit hexadecimal color
/// found anywhere in the string.
pub open spec fn from_rgb_spec(s: Seq<char>) -> Option<Color> {
    from_rgb_spec_at(s, 0, None, None, None, 0, 0)
}

/// Folds one decimal digit into a component, saturating at 255.
fn sat_add(cur: Option<u8>, d: u8) -> (v: u8)
    requires
        d < 10,
    ensures
        v == sat_add_digit(cur, d as int),
{
    match cur {
        Some(v) => {
            let grown: u32 = v as u32 * 10 + d as u32;
            if grown > 255 {
                255
            } else {
                grown as u8
            }
        },
        None => d,
    }
}

impl Color {
    /// Parses a hexadecimal color such as `"FF0000"` from the string's
    /// first six characters.
    pub fn from_hex(string: &str) -> (r: Option<Color>)
        ensures
            r == from_hex_spec(string.spec_bytes()),
    {
        let b = string.as_bytes_vec();
        if b.len() < 6 {
            return None;
        }
        let mut values: Vec<u8> = Vec::new();
        let mut i: usize = 0;
        while i < 6
            invariant
                i <= 6,
                b@ == string.spec_bytes(),
                b@.len() >= 6,
                values@.len() == i,
                forall|j: int|
                    0 <= j < i as int ==> is_hex_digit(#[trigger] b@[j]) && values@[j] == hex_val(
                        b@[j],
                    ) && values@[j] < 16,
            decreases 6 - i,
        {
            match hex_digit_value(b[i]) {
                Some(v) => {
                    values.push(v);
                },
                None => {
                    proof {
                        assert(!is_hex_digit(string.spec_bytes()[i as int]));
                    }
                    return None;
                },
            }
            i += 1;
        }
        Some(
            Color::Rgb {
                r: values[0] * 16 + values[1],
                g: values[2] * 16 + values[3],
                b: values[4] * 16 + values[5],
            },
        )
    }

    /// Tries to parse the input into an RGB color. It can parse decimal
    /// component notations such as `255, 0, 0` — with any separators, a
    /// missing trailing component counting as zero and values saturating at
    /// 255 — and six-digit hexadecimal notations such as `FF0000` anywhere
    /// in the input.
    pub fn from_rgb(string: &str) -> (result: Option<Color>)
        ensures
            result == from_rgb_spec(string@),
    {
        let len = string.unicode_len();
        let mut r: Option<u8> = None;
        let mut g: Option<u8> = None;
        let mut b: Option<u8> = None;
        let mut slot: u8 = 0;
        let mut run: usize = 0;
        let mut k: usize = 0;
        while k < len
            invariant
                k <= len,
                len == string@.len(),
                slot <= 2,
                run <= k,
                from_rgb_spec_at(string@, k as int, r, g, b, slot as int, run as int)
                    == from_rgb_spec(string@),
            decreases len - k,
        {
            let c = string.get_char(k);
            if '0' <= c && c <= '9' {
                let d = (c as u32 - 48) as u8;
                match slot {
                    0 => {
                        r = Some(sat_add(r, d));
                    },
                    1 => {
                        g = Some(sat_add(g, d));
                    },
                    _ => {
                        b = Some(sat_add(b, d));
                    },
                }
                run = run + 1;
                if run == 6 && k + 1 >= 6 {
                    let suffix = string.substring_char(k - 5, len);
                    proof {
                        assert(suffix@ =~= string@.skip(k as int - 5));
                    }
                    let color = Color::from_hex(suffix);
                    match color {
                        Some(color) => {
                            return Some(color);
                        },
                        None => {},
                    }
                }
            } else if (('a' <= c && c <= 'f') || ('A' <= c && c <= 'F')) {
                let suffix = string.substring_char(k, len);
                proof {
                    assert(suffix@ =~= string@.skip(k as int));
                }
                let color = Color::from_hex(suffix);
                match color {
                    Some(color) => {
                        return Some(color);
                    },
                    None => {},
                }
                run = run + 1;
                if run == 6 && k + 1 >= 6 {
                    let suffix = string.substring_char(k - 5, len);
                    proof {
                        assert(suffix@ =~= string@.skip(k as int - 5));
                    }
                    let color = Color::from_hex(suffix);
                    match color {
                        Some(color) => {
                            return Some(color);
                        },
                        None => {},
                    }
                }
            } else {
                if r.is_some() && g.is_some() && b.is_some() {
                    return Some(
                        Color::Rgb {
                            r: r.unwrap(),
                            g: g.unwrap(),
                            b: b.unwrap(),
                        },
                    );
                }
                slot = if r.is_none() {
                    0
                } else if g.is_none() {
                    1
                } else {
                    2
                };
                run = 0;
            }
            k = k + 1;
        }
        match (r, g, b) {
            (Some(r), None, None) => Some(Color::Rgb { r, g: 0, b: 0 }),
            (Some(r), Some(g), None) => Some(Color::Rgb { r, g, b: 0 }),
            (Some(r), Some(g), Some(b)) => Some(Color::Rgb { r, g, b }),
            _ => None,
        }
    }

    /// A color that contrasts with this one, used for highlighting.
    pub fn invert(&self) -> (r: Color)
        ensures
            r == invert_spec(*self),
    {
        match *self {
            Color::Byte(byte) => {
                if byte >= 255 - GRAYSCALE_COLOR_COUNT {
                    let mirrored: u8 = 255 - byte;
                    Color::Byte(mirrored + (255 - GRAYSCALE_COLOR_COUNT - 1))
                } else {
                    Color::Byte(255 - byte - FOUR_BIT_COLOR_COUNT + 1)
                }
            },
            Color::Rgb { r, g, b } => Color::Rgb { r: 255 - r, g: 255 - g, b: 255 - b },
            Color::Black => Color::White,
            Color::DarkGray => Color::White,
            _ => Color::Black,
        }
    }
}

} // verus!

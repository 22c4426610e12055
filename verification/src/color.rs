//! Colours and the `#RRGGBB` notation.

use vstd::prelude::*;
use crate::text::chars_of;

verus! {

/// An opaque colour.
#[derive(Clone, Copy, Debug, PartialEq, Eq, Structural)]
pub struct Color {
    pub r: u8,
    pub g: u8,
    pub b: u8,
}

/// The value of a hexadecimal digit, either case.
pub open spec fn hex_digit(c: char) -> Option<int> {
    if '0' <= c && c <= '9' {
        Some(c as int - '0' as int)
    } else if 'a' <= c && c <= 'f' {
        Some(c as int - 'a' as int + 10)
    } else if 'A' <= c && c <= 'F' {
        Some(c as int - 'A' as int + 10)
    } else {
        None
    }
}

/// The value of two hexadecimal digits.
pub open spec fn hex_pair(hi: char, lo: char) -> Option<int> {
    match (hex_digit(hi), hex_digit(lo)) {
        (Some(h), Some(l)) => Some(16 * h + l),
        _ => None,
    }
}

/// Whether `s` is `#` followed by exactly six hexadecimal digits.
pub open spec fn is_hex_color(s: Seq<char>) -> bool {
    &&& s.len() == 7
    &&& s[0] == '#'
    &&& forall|i: int| 1 <= i < 7 ==> (#[trigger] hex_digit(s[i])) is Some
}

/// The colour that `s` denotes: its three components where `s` is `#RRGGBB`,
/// black for every other string.
pub open spec fn parse_color_spec(s: Seq<char>) -> Color {
    if is_hex_color(s) {
        Color {
            r: hex_pair(s[1], s[2]).unwrap() as u8,
            g: hex_pair(s[3], s[4]).unwrap() as u8,
            b: hex_pair(s[5], s[6]).unwrap() as u8,
        }
    } else {
        Color::black()
    }
}

impl Color {
    pub open spec fn black_spec() -> Color {
        Color { r: 0, g: 0, b: 0 }
    }

    #[verifier::when_used_as_spec(black_spec)]
    pub fn black() -> (c: Color)
        ensures
            c == Color::black_spec(),
    {
        Color { r: 0, g: 0, b: 0 }
    }

    pub open spec fn light_gray_spec() -> Color {
        Color { r: 204, g: 204, b: 204 }
    }

    #[verifier::when_used_as_spec(light_gray_spec)]
    pub fn light_gray() -> (c: Color)
        ensures
            c == Color::light_gray_spec(),
    {
        Color { r: 204, g: 204, b: 204 }
    }

    pub open spec fn red_spec() -> Color {
        Color { r: 255, g: 0, b: 0 }
    }

    #[verifier::when_used_as_spec(red_spec)]
    pub fn red() -> (c: Color)
        ensures
            c == Color::red_spec(),
    {
        Color { r: 255, g: 0, b: 0 }
    }
}

fn hex_value(c: char) -> (r: Option<u8>)
    ensures
        match r {
            Some(v) => hex_digit(c) == Some(v as int) && v < 16,
            None => hex_digit(c) is None,
        },
{
    if '0' <= c && c <= '9' {
        Some((c as u32 - '0' as u32) as u8)
    } else if 'a' <= c && c <= 'f' {
        Some((c as u32 - 'a' as u32 + 10) as u8)
    } else if 'A' <= c && c <= 'F' {
        Some((c as u32 - 'A' as u32 + 10) as u8)
    } else {
        None
    }
}

fn pair_value(hi: char, lo: char) -> (r: Option<u8>)
    ensures
        match r {
            Some(v) => hex_pair(hi, lo) == Some(v as int),
            None => hex_pair(hi, lo) is None,
        },
{
    match (hex_value(hi), hex_value(lo)) {
        (Some(h), Some(l)) => Some(16 * h + l),
        _ => None,
    }
}

/// Reads a colour in `#RRGGBB` notation. Any other string, a three-digit
/// `#RGB` among them, gives black.
pub fn parse_color(hex: &str) -> (c: Color)
    ensures
        c == parse_color_spec(hex@),
{
    let cs = chars_of(hex);
    if cs.len() != 7 || cs[0] != '#' {
        return Color::black();
    }
    match (pair_value(cs[1], cs[2]), pair_value(cs[3], cs[4]), pair_value(cs[5], cs[6])) {
        (Some(r), Some(g), Some(b)) => {
            assert(is_hex_color(cs@)) by {
                assert forall|i: int| 1 <= i < 7 implies (#[trigger] hex_digit(cs@[i])) is Some by {
                    if i == 1 || i == 2 {
                    } else if i == 3 || i == 4 {
                    } else {
                    }
                }
            }
            Color { r, g, b }
        },
        _ => {
            assert(!is_hex_color(cs@)) by {
                if is_hex_color(cs@) {
                    assert(hex_digit(cs@[1]) is Some);
                    assert(hex_digit(cs@[2]) is Some);
                    assert(hex_digit(cs@[3]) is Some);
                    assert(hex_digit(cs@[4]) is Some);
                    assert(hex_digit(cs@[5]) is Some);
                    assert(hex_digit(cs@[6]) is Some);
                }
            }
            Color::black()
        },
    }
}

} // verus!

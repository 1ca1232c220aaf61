//! Colors and the parsing of `#RRGGBB` strings.
//!
//! A malformed color string never fails: it falls back to a fixed default
//! red, so that a bad configuration still shows something.

use vstd::prelude::*;

verus! {

/// An RGBA color, eight bits per channel.
#[derive(Clone, Copy, Debug, PartialEq, Eq, Structural)]
pub struct Color {
    pub r: u8,
    pub g: u8,
    pub b: u8,
    pub a: u8,
}

/// The fallback color: a fixed opaque red.
pub open spec fn spec_default_color() -> Color {
    Color { r: 255, g: 0, b: 0, a: 255 }
}

pub fn default_color() -> (c: Color)
    ensures
        c == spec_default_color(),
{
    Color { r: 255, g: 0, b: 0, a: 255 }
}

/// The value of one hexadecimal digit, either case.
pub open spec fn spec_hex_val(c: char) -> Option<u8> {
    if '0' <= c && c <= '9' {
        Some((c as u32 - '0' as u32) as u8)
    } else if 'a' <= c && c <= 'f' {
        Some((c as u32 - 'a' as u32 + 10) as u8)
    } else if 'A' <= c && c <= 'F' {
        Some((c as u32 - 'A' as u32 + 10) as u8)
    } else {
        None
    }
}

fn hex_val(c: char) -> (r: Option<u8>)
    ensures
        r == spec_hex_val(c),
{
    if '0' <= c && c <= '9' {
        Some((c as u32 - '0' as u32) as u8)
    } else if 'a' <= c && c <= 'f' {
        Some((c as u32 - 'a' as u32 + 10) as u8)
    } else if 'A' <= c && c <= 'F' {
        Some((c as u32 - 'A' as u32 + 10) as u8)
    } else {
        None
    }
}

/// A pair of hexadecimal digits read as one byte.
pub open spec fn spec_hex_pair(hi: char, lo: char) -> Option<u8> {
    match (spec_hex_val(hi), spec_hex_val(lo)) {
        (Some(h), Some(l)) => Some((16 * h + l) as u8),
        _ => None,
    }
}

fn hex_pair(hi: char, lo: char) -> (r: Option<u8>)
    ensures
        r == spec_hex_pair(hi, lo),
{
    match (hex_val(hi), hex_val(lo)) {
        (Some(h), Some(l)) => Some(16 * h + l),
        _ => None,
    }
}

/// The color a configuration string denotes: exactly when it holds at
/// least seven characters, starts with `#`, and its next six characters
/// are hexadecimal digits, the three encoded bytes with full alpha.
/// Every other string falls back to the default red.
pub open spec fn spec_parse_color(s: Seq<char>) -> Color {
    if s.len() < 7 || s[0] != '#' {
        spec_default_color()
    } else {
        match (spec_hex_pair(s[1], s[2]), spec_hex_pair(s[3], s[4]), spec_hex_pair(s[5], s[6])) {
            (Some(r), Some(g), Some(b)) => Color { r, g, b, a: 255 },
            _ => spec_default_color(),
        }
    }
}

/// Parses a `#RRGGBB` string, falling back to the default red on any
/// malformed value.
pub fn string_to_rgba(string: &str) -> (c: Color)
    ensures
        c == spec_parse_color(string@),
{
    let len = string.unicode_len();
    if len < 7 {
        return default_color();
    }
    if string.get_char(0) != '#' {
        return default_color();
    }
    let p1 = hex_pair(string.get_char(1), string.get_char(2));
    let p2 = hex_pair(string.get_char(3), string.get_char(4));
    let p3 = hex_pair(string.get_char(5), string.get_char(6));
    match (p1, p2, p3) {
        (Some(r), Some(g), Some(b)) => Color { r, g, b, a: 255 },
        _ => default_color(),
    }
}

} // verus!

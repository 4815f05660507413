//! Colours as texts and as numbers.
use vstd::prelude::*;

use crate::text;

verus! {

/// Default colour of an icon's square.
pub const DEFAULT_ICON_SWATCH_RGB: (u8, u8, u8) = (140, 140, 150);

/// A colour number, with blue in front, of its three parts.
pub open spec fn colorref(r: int, g: int, b: int) -> int {
    r + 0x100 * g + 0x10000 * b
}

/// The two hexadecimal digits of a byte.
pub open spec fn hex_pair(n: int) -> Seq<char> {
    seq![text::upper_hex(n / 16), text::upper_hex(n % 16)]
}

/// The number that two characters stand for. A leading plus sign is allowed
/// before the one digit, as in every number.
pub open spec fn pair_value(a: char, b: char) -> Option<int> {
    match (text::hex_digit(a), text::hex_digit(b)) {
        (Some(x), Some(y)) => Some(16 * x + y),
        (None, Some(y)) => if a == '+' {
            Some(y)
        } else {
            None
        },
        _ => None,
    }
}

fn read_pair(a: char, b: char) -> (r: Option<u32>)
    ensures
        match r {
            Some(n) => pair_value(a, b) == Some(n as int) && n <= 255,
            None => pair_value(a, b) is None,
        },
{
    match (text::hex_value(a), text::hex_value(b)) {
        (Some(x), Some(y)) => Some(16 * x + y),
        (None, Some(y)) => if a == '+' {
            Some(y)
        } else {
            None
        },
        _ => None,
    }
}

/// The colour that six characters stand for.
pub open spec fn color_of(s: Seq<char>) -> Option<int> {
    if s.len() == 6 {
        match (pair_value(s[0], s[1]), pair_value(s[2], s[3]), pair_value(s[4], s[5])) {
            (Some(r), Some(g), Some(b)) => Some(colorref(r, g, b)),
            _ => None,
        }
    } else {
        None
    }
}

/// The colour that a text `#RRGGBB` stands for, with blue in front; nothing for
/// any other text.
pub fn hex_to_colorref(s: &str) -> (r: Option<u32>)
    ensures
        match r {
            Some(n) => color_of(text::without_leading(s@, '#')) == Some(n as int),
            None => color_of(text::without_leading(s@, '#')) is None,
        },
{
    let t = text::trim_start_matches(s, '#');
    let v = text::chars_of(t.as_str());
    if v.len() != 6 {
        return None;
    }
    match (read_pair(v[0], v[1]), read_pair(v[2], v[3]), read_pair(v[4], v[5])) {
        (Some(r), Some(g), Some(b)) => Some(r + 0x100 * g + 0x10000 * b),
        _ => None,
    }
}

/// The text of a colour number.
pub open spec fn color_text(n: u32) -> Seq<char> {
    "#"@ + hex_pair((n % 0x100) as int) + hex_pair((n / 0x100 % 0x100) as int) + hex_pair(
        (n / 0x10000 % 0x100) as int,
    )
}

fn push_pair(out: &mut String, n: u32)
    requires
        n < 256,
    ensures
        final(out)@ == old(out)@ + hex_pair(n as int),
{
    out.push(text::upper_hex_char((n / 16) as u8));
    out.push(text::upper_hex_char((n % 16) as u8));
    proof {
        assert(out@ =~= old(out)@ + hex_pair(n as int));
    }
}

/// The text `#RRGGBB` of a colour number with blue in front.
pub fn colorref_to_hex(n: u32) -> (r: String)
    ensures
        r@ == color_text(n),
{
    let mut out: String = "#".to_owned();
    push_pair(&mut out, n % 0x100);
    push_pair(&mut out, n / 0x100 % 0x100);
    push_pair(&mut out, n / 0x10000 % 0x100);
    out
}

/// The colour of a square: that of the text, or the default where the text is
/// no colour.
pub fn swatch_color(hex: &str, default_rgb: (u8, u8, u8)) -> (r: u32)
    ensures
        r == match color_of(text::without_leading(hex@, '#')) {
            Some(n) => n,
            None => colorref(default_rgb.0 as int, default_rgb.1 as int, default_rgb.2 as int),
        },
{
    match hex_to_colorref(hex) {
        Some(n) => n,
        None => default_rgb.0 as u32 + 0x100 * default_rgb.1 as u32 + 0x10000
            * default_rgb.2 as u32,
    }
}

/// A colour that was written down is read back as it was.
pub proof fn colors_read_back(n: u32)
    requires
        n < 0x1000000,
    ensures
        color_of(text::without_leading(color_text(n), '#')) == Some(n as int),
{
    let r = (n % 0x100) as int;
    let g = (n / 0x100 % 0x100) as int;
    let b = (n / 0x10000 % 0x100) as int;
    reveal_strlit("#");
    let digits = hex_pair(r) + hex_pair(g) + hex_pair(b);
    text::upper_hex_read_back(r / 16);
    text::upper_hex_read_back(r % 16);
    text::upper_hex_read_back(g / 16);
    text::upper_hex_read_back(g % 16);
    text::upper_hex_read_back(b / 16);
    text::upper_hex_read_back(b % 16);
    assert(color_text(n) =~= seq!['#'] + digits);
    assert((seq!['#'] + digits).skip(1) =~= digits);
    assert((seq!['#'] + digits).drop_first() =~= digits);
    assert(text::hex_digit(digits[0]) is Some);
    assert(digits[0] != '#');
    assert(text::without_leading(digits, '#') == digits);
    assert(text::without_leading(color_text(n), '#') =~= digits);
    assert(digits.len() == 6);
    assert(digits[0] == text::upper_hex(r / 16) && digits[1] == text::upper_hex(r % 16));
    assert(digits[2] == text::upper_hex(g / 16) && digits[3] == text::upper_hex(g % 16));
    assert(digits[4] == text::upper_hex(b / 16) && digits[5] == text::upper_hex(b % 16));
    assert(r + 0x100 * g + 0x10000 * b == n);
}

/// The first two digits of a colour are its red, the next its green, the last its
/// blue, and the number has red lowest.
pub proof fn digits_are_red_green_blue(r: int, g: int, b: int)
    requires
        0 <= r < 256,
        0 <= g < 256,
        0 <= b < 256,
    ensures
        color_of(hex_pair(r) + hex_pair(g) + hex_pair(b)) == Some(r + 256 * g + 65536 * b),
        color_text((r + 256 * g + 65536 * b) as u32) == seq!['#'] + hex_pair(r) + hex_pair(g)
            + hex_pair(b),
{
    reveal_strlit("#");
    assert("#"@ =~= seq!['#']);
    text::upper_hex_read_back(r / 16);
    text::upper_hex_read_back(r % 16);
    text::upper_hex_read_back(g / 16);
    text::upper_hex_read_back(g % 16);
    text::upper_hex_read_back(b / 16);
    text::upper_hex_read_back(b % 16);
    let s = hex_pair(r) + hex_pair(g) + hex_pair(b);
    assert(s[0] == text::upper_hex(r / 16) && s[1] == text::upper_hex(r % 16));
    assert(s[2] == text::upper_hex(g / 16) && s[3] == text::upper_hex(g % 16));
    assert(s[4] == text::upper_hex(b / 16) && s[5] == text::upper_hex(b % 16));
    let n = (r + 256 * g + 65536 * b) as u32;
    assert(n % 0x100 == r && n / 0x100 % 0x100 == g && n / 0x10000 % 0x100 == b);
}

} // verus!

//! Small text helpers for the rendering layer: shortening a string to fit a
//! column, and reading a "#RRGGBB" color.

use vstd::prelude::*;
use vstd::string::*;

verus! {

/// Shortens `s` to at most `max_len` characters: a string that fits is
/// returned as it is; a longer one is cut to `max_len - 1` characters with an
/// ellipsis appended.
pub fn truncate_string(s: &str, max_len: usize) -> (r: String)
    ensures
        s@.len() <= max_len ==> r@ == s@,
        s@.len() > max_len ==> r@ == s@.subrange(
            0,
            if max_len == 0 {
                0int
            } else {
                max_len - 1
            },
        ) + "\u{2026}"@,
{
    let n = s.unicode_len();
    if n <= max_len {
        s.to_owned()
    } else {
        let cut = if max_len == 0 {
            0
        } else {
            max_len - 1
        };
        let mut r = s.substring_char(0, cut).to_owned();
        r.append("\u{2026}");
        r
    }
}

/// The value of a hexadecimal digit, or -1 for any other character. Both
/// cases of the letters are read, so "#FF9E3B" and "#ff9e3b" name the same
/// color.
pub open spec fn spec_hex_val(c: char) -> int {
    let u = c as int;
    if 48 <= u <= 57 {
        u - 48
    } else if 97 <= u <= 102 {
        u - 87
    } else if 65 <= u <= 70 {
        u - 55
    } else {
        -1
    }
}

/// Whether a character sequence reads "#RRGGBB": a hash sign and exactly six
/// hexadecimal digits.
pub open spec fn spec_is_hex_color(s: Seq<char>) -> bool {
    &&& s.len() == 7
    &&& s[0] == '#'
    &&& forall|i: int| 1 <= i < 7 ==> spec_hex_val(#[trigger] s[i]) >= 0
}

/// The byte written at positions i and i + 1 of a hex color.
pub open spec fn spec_hex_byte(s: Seq<char>, i: int) -> int {
    16 * spec_hex_val(s[i]) + spec_hex_val(s[i + 1])
}

/// The value of one hexadecimal digit character.
fn hex_digit(c: char) -> (r: Option<u8>)
    ensures
        r is Some <==> spec_hex_val(c) >= 0,
        r is Some ==> r.unwrap() as int == spec_hex_val(c),
{
    let u = c as u32;
    if 48 <= u && u <= 57 {
        Some((u - 48) as u8)
    } else if 97 <= u && u <= 102 {
        Some((u - 87) as u8)
    } else if 65 <= u && u <= 70 {
        Some((u - 55) as u8)
    } else {
        None
    }
}

/// Reads a "#RRGGBB" string into its red, green and blue bytes. Returns
/// `None` exactly when the string is not of that shape.
pub fn parse_hex_rgb(s: &str) -> (r: Option<(u8, u8, u8)>)
    ensures
        r is Some <==> spec_is_hex_color(s@),
        r is Some ==> {
            &&& r.unwrap().0 as int == spec_hex_byte(s@, 1)
            &&& r.unwrap().1 as int == spec_hex_byte(s@, 3)
            &&& r.unwrap().2 as int == spec_hex_byte(s@, 5)
        },
{
    if s.unicode_len() != 7 {
        return None;
    }
    if s.get_char(0) != '#' {
        return None;
    }
    let d1 = hex_digit(s.get_char(1));
    let d2 = hex_digit(s.get_char(2));
    let d3 = hex_digit(s.get_char(3));
    let d4 = hex_digit(s.get_char(4));
    let d5 = hex_digit(s.get_char(5));
    let d6 = hex_digit(s.get_char(6));
    match (d1, d2, d3, d4, d5, d6) {
        (Some(a), Some(b), Some(c), Some(d), Some(e), Some(f)) => {
            proof {
                assert forall|i: int| 1 <= i < 7 implies spec_hex_val(#[trigger] s@[i]) >= 0 by {
                }
            }
            Some((16 * a + b, 16 * c + d, 16 * e + f))
        },
        _ => None,
    }
}

} // verus!

//! Hexadecimal colour codes for 8-bit colours.

use crate::text::chars_of;
use vstd::prelude::*;

verus! {

/// The upper-case hexadecimal digit for `n`, which is below sixteen.
pub open spec fn hex_digit(n: nat) -> char {
    seq!['0', '1', '2', '3', '4', '5', '6', '7', '8', '9', 'A', 'B', 'C', 'D', 'E', 'F'][n as int]
}

/// The two hexadecimal digits of one channel, high digit first.
pub open spec fn hex_pair(c: u8) -> Seq<char> {
    seq![hex_digit((c / 16) as nat), hex_digit((c % 16) as nat)]
}

/// The six-digit, upper-case code of a colour: red, green, blue, with no
/// prefix and no separators.
pub open spec fn hex_code(red: u8, green: u8, blue: u8) -> Seq<char> {
    hex_pair(red) + hex_pair(green) + hex_pair(blue)
}

/// Whether `c` is an upper-case hexadecimal digit.
pub open spec fn is_hex_digit(c: char) -> bool {
    exists|n: nat| n < 16 && c == hex_digit(n)
}

/// A colour code has six characters, each a hexadecimal digit.
pub proof fn lemma_hex_code_digits(red: u8, green: u8, blue: u8)
    ensures
        hex_code(red, green, blue).len() == 6,
        forall|i: int| 0 <= i < 6 ==> is_hex_digit(#[trigger] hex_code(red, green, blue)[i]),
{
    let code = hex_code(red, green, blue);
    assert(is_hex_digit(hex_digit((red / 16) as nat)));
    assert(is_hex_digit(hex_digit((red % 16) as nat)));
    assert(is_hex_digit(hex_digit((green / 16) as nat)));
    assert(is_hex_digit(hex_digit((green % 16) as nat)));
    assert(is_hex_digit(hex_digit((blue / 16) as nat)));
    assert(is_hex_digit(hex_digit((blue % 16) as nat)));
    assert forall|i: int| 0 <= i < 6 implies is_hex_digit(#[trigger] code[i]) by {
        if i == 0 {
        } else if i == 1 {
        } else if i == 2 {
        } else if i == 3 {
        } else if i == 4 {
        } else {
        }
    }
}

/// `colcon::irgb_to_hex`: a number sign followed by two upper-case
/// hexadecimal digits for each of the three channels, in the order given.
#[verifier::external_body]
fn irgb_to_hex(pixel: [u8; 3]) -> (hex: String)
    ensures
        hex@ == seq!['#'] + hex_code(pixel[0], pixel[1], pixel[2]),
{
    colcon::irgb_to_hex(pixel)
}

/// The six-digit code of `pixel`, without the number sign.
pub fn hex_chars(pixel: [u8; 3]) -> (code: Vec<char>)
    ensures
        code@ == hex_code(pixel[0], pixel[1], pixel[2]),
{
    let marked = irgb_to_hex(pixel);
    let all = chars_of(marked.as_str());
    let mut code: Vec<char> = Vec::new();
    let mut i: usize = 1;
    while i < all.len()
        invariant
            1 <= i <= all.len(),
            all@.len() >= 1,
            code@ == all@.subrange(1, i as int),
        decreases all.len() - i,
    {
        code.push(all[i]);
        i += 1;
    }
    assert(all@.subrange(1, all@.len() as int) == hex_code(pixel[0], pixel[1], pixel[2]));
    code
}

/// The six-digit code of `pixel` as a string.
pub fn hex_string(pixel: [u8; 3]) -> (code: String)
    ensures
        code@ == hex_code(pixel[0], pixel[1], pixel[2]),
{
    let v = hex_chars(pixel);
    crate::text::string_of(&v)
}

} // verus!

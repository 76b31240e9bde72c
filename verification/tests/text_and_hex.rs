use collurgy::hex::{hex_chars, hex_string};
use collurgy::text::{chars_of, push_all, push_decimal, same_chars, string_of};

fn decimal_of(n: usize) -> String {
    let mut out = Vec::new();
    push_decimal(&mut out, n);
    string_of(&out)
}

#[test]
fn decimal_numerals() {
    assert_eq!(decimal_of(0), "0");
    assert_eq!(decimal_of(9), "9");
    assert_eq!(decimal_of(10), "10");
    assert_eq!(decimal_of(15), "15");
    assert_eq!(decimal_of(255), "255");
    assert_eq!(decimal_of(100), "100");
    assert_eq!(decimal_of(1234567890), "1234567890");
}

#[test]
fn decimal_agrees_with_std_on_every_byte() {
    for n in 0..=255usize {
        assert_eq!(decimal_of(n), n.to_string());
    }
}

#[test]
fn push_decimal_appends() {
    let mut out = vec!['x'];
    push_decimal(&mut out, 42);
    assert_eq!(out, vec!['x', '4', '2']);
}

#[test]
fn chars_and_strings_convert_both_ways() {
    assert_eq!(chars_of("a{b}"), vec!['a', '{', 'b', '}']);
    assert_eq!(chars_of(""), Vec::<char>::new());
    assert_eq!(string_of(&vec!['a', 'b']), "ab");
    assert_eq!(string_of(&Vec::new()), "");
    assert_eq!(string_of(&chars_of("gr\u{fc}n \u{1F3A8}")), "gr\u{fc}n \u{1F3A8}");
    assert_eq!(chars_of("gr\u{fc}n").len(), 4);
}

#[test]
fn appending_characters() {
    let mut out = vec!['a'];
    push_all(&mut out, &vec!['b', 'c']);
    push_all(&mut out, &Vec::new());
    assert_eq!(out, vec!['a', 'b', 'c']);
}

#[test]
fn comparing_characters() {
    assert!(same_chars(&chars_of("abc"), &chars_of("abc")));
    assert!(!same_chars(&chars_of("abc"), &chars_of("abd")));
    assert!(!same_chars(&chars_of("abc"), &chars_of("ab")));
    assert!(same_chars(&Vec::new(), &Vec::new()));
}

#[test]
fn hex_codes_are_six_upper_case_digits_without_prefix() {
    assert_eq!(hex_string([0, 0, 0]), "000000");
    assert_eq!(hex_string([255, 255, 255]), "FFFFFF");
    assert_eq!(hex_string([18, 171, 205]), "12ABCD");
    assert_eq!(hex_string([1, 2, 3]), "010203");
    assert_eq!(hex_string([10, 15, 16]), "0A0F10");
    assert_eq!(hex_chars([254, 0, 153]), vec!['F', 'E', '0', '0', '9', '9']);
}

#[test]
fn hex_code_is_the_outside_code_without_its_number_sign() {
    for pixel in [[0u8, 0, 0], [7, 77, 177], [255, 128, 1]] {
        let outside = colcon::irgb_to_hex(pixel);
        assert_eq!(format!("#{}", hex_string(pixel)), outside);
    }
}

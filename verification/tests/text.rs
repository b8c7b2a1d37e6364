use sudare::text::{
    ascii_bytes_of, chars_of, decimal_string, digit_str, find_char, hex_string, trim_range,
    white_space,
};

#[test]
fn white_space_is_the_unicode_property() {
    let mut u: u32 = 0;
    while u <= 0x10FFFF {
        if let Some(c) = char::from_u32(u) {
            assert_eq!(white_space(c), c.is_whitespace(), "U+{:04X}", u);
        }
        u += 1;
    }
}

#[test]
fn decimal_of_numbers() {
    assert_eq!(decimal_string(0), "0");
    assert_eq!(decimal_string(7), "7");
    assert_eq!(decimal_string(10), "10");
    assert_eq!(decimal_string(1905), "1905");
    assert_eq!(decimal_string(u64::MAX), "18446744073709551615");
}

#[test]
fn hex_of_bytes() {
    assert_eq!(hex_string(&vec![]), "");
    assert_eq!(hex_string(&vec![10, 20, 30]), "0a141e");
    assert_eq!(hex_string(&vec![0x00, 0xff, 0x9c]), "00ff9c");
}

#[test]
fn digits_as_text() {
    assert_eq!(digit_str(0), "0");
    assert_eq!(digit_str(9), "9");
    assert_eq!(digit_str(10), "a");
    assert_eq!(digit_str(15), "f");
}

#[test]
fn chars_of_a_text() {
    assert_eq!(chars_of("aé\u{1F600}"), vec!['a', 'é', '\u{1F600}']);
    assert_eq!(chars_of(""), Vec::<char>::new());
}

#[test]
fn find_char_gives_the_first() {
    let chars = chars_of("a:b:c");
    assert_eq!(find_char(&chars, 0, 5, ':'), 1);
    assert_eq!(find_char(&chars, 2, 5, ':'), 3);
    assert_eq!(find_char(&chars, 4, 5, ':'), 5);
    assert_eq!(find_char(&chars, 0, 1, ':'), 1);
}

#[test]
fn trim_range_gives_the_bounds() {
    let chars = chars_of("  ab c \t");
    assert_eq!(trim_range(&chars, 0, 8), (2, 6));
    assert_eq!(trim_range(&chars, 3, 5), (3, 4));
    let blank = chars_of("   ");
    assert_eq!(trim_range(&blank, 0, 3), (3, 3));
}

#[test]
fn bytes_of_ascii() {
    assert_eq!(ascii_bytes_of("ab]"), vec![97, 98, 93]);
}

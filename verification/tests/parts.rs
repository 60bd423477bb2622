use national_id::checksum::{
    control_digit_matches, passes_checksum, weighted_sum_of, ID_LENGTH, MODULUS,
};
use national_id::order::text_precedes;
use national_id::text::{
    char_is_whitespace, char_to_digit, extract_digits, pad_zeros, to_chars, trim,
};
use national_id::validator::validate;
use national_id::NationalIdError;

#[test]
fn whitespace_is_what_std_calls_whitespace() {
    for code in 0..=0x10FFFFu32 {
        if let Some(c) = char::from_u32(code) {
            assert_eq!(char_is_whitespace(c), c.is_whitespace(), "U+{:04X}", code);
        }
    }
}

#[test]
fn whitespace_examples() {
    for c in [' ', '\t', '\n', '\u{b}', '\u{c}', '\r', '\u{85}', '\u{a0}', '\u{1680}', '\u{2000}',
        '\u{200a}', '\u{2028}', '\u{2029}', '\u{202f}', '\u{205f}', '\u{3000}']
    {
        assert!(char_is_whitespace(c), "{:?}", c);
    }
    for c in ['0', '9', 'a', '\u{8}', '\u{e}', '\u{1f}', '\u{200b}', '\u{180e}', '\u{feff}', '_'] {
        assert!(!char_is_whitespace(c), "{:?}", c);
    }
}

#[test]
fn digits_are_what_std_calls_decimal_digits() {
    for code in 0..=0x10FFFFu32 {
        if let Some(c) = char::from_u32(code) {
            assert_eq!(char_to_digit(c).map(u32::from), c.to_digit(10), "U+{:04X}", code);
        }
    }
}

#[test]
fn digit_values() {
    assert_eq!(char_to_digit('0'), Some(0));
    assert_eq!(char_to_digit('5'), Some(5));
    assert_eq!(char_to_digit('9'), Some(9));
    assert_eq!(char_to_digit('/'), None);
    assert_eq!(char_to_digit(':'), None);
    assert_eq!(char_to_digit('a'), None);
    assert_eq!(char_to_digit('\u{6f5}'), None);
}

#[test]
fn chars_of_a_text() {
    assert_eq!(to_chars(""), Vec::<char>::new());
    assert_eq!(to_chars("a1 \u{3000}"), vec!['a', '1', ' ', '\u{3000}']);
}

#[test]
fn trim_removes_whitespace_at_both_ends() {
    assert_eq!(trim(""), "");
    assert_eq!(trim("   "), "");
    assert_eq!(trim("\t\n "), "");
    assert_eq!(trim("abc"), "abc");
    assert_eq!(trim("  abc"), "abc");
    assert_eq!(trim("abc  "), "abc");
    assert_eq!(trim(" a b\tc \n"), "a b\tc");
    assert_eq!(trim("\u{3000}\u{a0}x\u{2028}"), "x");
    assert_eq!(trim("\u{200b}x\u{200b}"), "\u{200b}x\u{200b}");
}

#[test]
fn trim_agrees_with_std() {
    for text in ["", " ", "x", " x", "x ", "  x  y  ", "\r\n0123\t", "\u{85}\u{1680}z\u{205f}",
        "\u{6f0}\u{6f1} ", " \u{feff} ", "é ", " \u{2003}日本語\u{3000}"]
    {
        assert_eq!(trim(text), text.trim(), "{:?}", text);
    }
}

#[test]
fn trim_ignores_added_whitespace() {
    for text in ["", "x", " x y ", "0451726707"] {
        for (before, after) in [("", ""), (" ", ""), ("", "\n"), ("\t \u{a0}", " \r\n")] {
            let wrapped = format!("{}{}{}", before, text, after);
            assert_eq!(trim(wrapped.as_str()), trim(text));
        }
    }
}

#[test]
fn pad_zeros_fills_up_in_front() {
    assert_eq!(pad_zeros("", 10), "0000000000");
    assert_eq!(pad_zeros("7", 10), "0000000007");
    assert_eq!(pad_zeros("123456789", 10), "0123456789");
    assert_eq!(pad_zeros("0123456789", 10), "0123456789");
    assert_eq!(pad_zeros("01234567890", 10), "01234567890");
    assert_eq!(pad_zeros("ab", 3), "0ab");
    assert_eq!(pad_zeros("ab", 0), "ab");
    assert_eq!(pad_zeros("", 0), "");
}

#[test]
fn pad_zeros_counts_characters() {
    assert_eq!(pad_zeros("\u{6f1}\u{6f2}", 4), "00\u{6f1}\u{6f2}");
    assert_eq!(pad_zeros("日本語", 3), "日本語");
    for text in ["", "1", "12345", "1234567890", "12345678901", "é1", "a b"] {
        assert_eq!(pad_zeros(text, 10), format!("{:0>10}", text), "{:?}", text);
    }
}

#[test]
fn extract_digits_keeps_digits_in_order() {
    assert_eq!(extract_digits(""), Vec::<u8>::new());
    assert_eq!(extract_digits("0451726707"), vec![0, 4, 5, 1, 7, 2, 6, 7, 0, 7]);
    assert_eq!(extract_digits("12345678ab"), vec![1, 2, 3, 4, 5, 6, 7, 8]);
    assert_eq!(extract_digits("a8-1 4x"), vec![8, 1, 4]);
    assert_eq!(extract_digits("abc"), Vec::<u8>::new());
    assert_eq!(extract_digits("\u{6f1}2\u{ff13}"), vec![2]);
}

#[test]
fn weighted_sum_values() {
    assert_eq!(weighted_sum_of(&[0, 4, 5, 1, 7, 2, 6, 7, 0, 7]), 180);
    assert_eq!(weighted_sum_of(&[0, 0, 4, 0, 0, 1, 0, 0, 0, 7]), 37);
    assert_eq!(weighted_sum_of(&[0, 8, 1, 4, 6, 5, 9, 4, 3, 8]), 223);
    assert_eq!(weighted_sum_of(&[0, 0, 0, 0, 0, 0, 0, 0, 0, 9]), 0);
    assert_eq!(weighted_sum_of(&[1, 0, 0, 0, 0, 0, 0, 0, 0]), 10);
    assert_eq!(weighted_sum_of(&[0, 0, 0, 0, 0, 0, 0, 0, 1]), 2);
    assert_eq!(weighted_sum_of(&[1, 1, 1, 1, 1, 1, 1, 1, 1, 1, 1]), 54);
    assert_eq!(weighted_sum_of(&[9, 9, 9, 9, 9, 9, 9, 9, 9, 9]), 486);
    assert_eq!(weighted_sum_of(&[255; 9]), 13770);
}

#[test]
fn control_digit_values() {
    assert_eq!(MODULUS, 11);
    // remainder 0 and 1: the control digit is the remainder
    assert!(control_digit_matches(11, 0));
    assert!(control_digit_matches(12, 1));
    assert!(!control_digit_matches(11, 1));
    assert!(!control_digit_matches(12, 0));
    assert!(!control_digit_matches(11, 11));
    assert!(!control_digit_matches(12, 10));
    // remainder 2 to 10: the control digit is eleven minus the remainder
    assert!(control_digit_matches(13, 9));
    assert!(control_digit_matches(21, 1));
    assert!(control_digit_matches(180, 7));
    assert!(control_digit_matches(37, 7));
    assert!(control_digit_matches(223, 8));
    assert!(!control_digit_matches(13, 2));
    assert!(!control_digit_matches(21, 10));
    assert!(!control_digit_matches(180, 4));
    for sum in 0u32..200 {
        let matching: Vec<u8> = (0u8..=20).filter(|c| control_digit_matches(sum, *c)).collect();
        let r = sum % 11;
        let expected = if r < 2 { r } else { 11 - r };
        assert_eq!(matching, vec![expected as u8]);
    }
}

#[test]
fn passes_checksum_values() {
    assert_eq!(ID_LENGTH, 10);
    assert!(passes_checksum(&[0, 4, 5, 1, 7, 2, 6, 7, 0, 7]));
    assert!(passes_checksum(&[0, 0, 4, 0, 0, 1, 0, 0, 0, 7]));
    assert!(passes_checksum(&[0, 8, 1, 4, 6, 5, 9, 4, 3, 8]));
    assert!(!passes_checksum(&[0, 4, 5, 1, 7, 2, 6, 7, 0, 8]));
    assert!(!passes_checksum(&[0, 0, 0, 0, 0, 0, 0, 0, 0, 0]));
    assert!(!passes_checksum(&[0, 0, 0, 0, 0, 0, 0, 0, 0, 1]));
    assert!(!passes_checksum(&[]));
    assert!(!passes_checksum(&[0, 4, 5, 1, 7, 2, 6, 7, 0]));
    assert!(!passes_checksum(&[0, 4, 5, 1, 7, 2, 6, 7, 0, 7, 0]));
    assert!(!passes_checksum(&[0, 0, 0, 0, 0, 0, 1, 2, 3]));
    // remainder 1 with control digit 1
    assert!(passes_checksum(&[0, 0, 0, 0, 0, 0, 0, 0, 6, 1]));
    // remainder 0 with control digit 0
    assert!(passes_checksum(&[0, 0, 0, 0, 0, 0, 0, 1, 4, 0]));
}

#[test]
fn validate_gives_the_padded_text() {
    assert_eq!(validate("0451726707"), Ok(String::from("0451726707")));
    assert_eq!(validate("0040010007"), Ok(String::from("0040010007")));
    assert_eq!(validate("0814659438"), Ok(String::from("0814659438")));
    assert_eq!(validate(" 451726707\n"), Ok(String::from("0451726707")));
    assert_eq!(validate("61"), Ok(String::from("0000000061")));
    assert_eq!(validate("140"), Ok(String::from("0000000140")));
    assert_eq!(validate(""), Err(NationalIdError));
    assert_eq!(validate("123"), Err(NationalIdError));
    assert_eq!(validate("123456ab"), Err(NationalIdError));
    assert_eq!(validate("12345678ab"), Err(NationalIdError));
    assert_eq!(validate("a814659438"), Err(NationalIdError));
    assert_eq!(validate("0000000000"), Err(NationalIdError));
    assert_eq!(validate("0451726707a"), Err(NationalIdError));
    assert_eq!(validate("a0451726707"), Err(NationalIdError));
    assert_eq!(validate("04517 26707"), Err(NationalIdError));
    assert_eq!(validate("00451726707"), Err(NationalIdError));
}

#[test]
fn text_order_values() {
    assert!(text_precedes("", "a"));
    assert!(!text_precedes("", ""));
    assert!(!text_precedes("a", ""));
    assert!(text_precedes("a", "b"));
    assert!(!text_precedes("b", "a"));
    assert!(!text_precedes("a", "a"));
    assert!(text_precedes("a", "ab"));
    assert!(!text_precedes("ab", "a"));
    assert!(text_precedes("0040010007", "0451726707"));
    assert!(text_precedes("0451726707", "0814659438"));
    assert!(!text_precedes("0814659438", "0451726707"));
    assert!(text_precedes("9", "a"));
    assert!(text_precedes("z", "\u{e9}"));
}

#[test]
fn text_order_agrees_with_std() {
    let texts = ["", "0", "00", "01", "1", "a", "ab", "b", "é", "z", "\u{6f0}", "\u{10000}",
        "\u{ffff}", "日本", "0451726707", "0451726708"];
    for a in texts {
        for b in texts {
            assert_eq!(text_precedes(a, b), a < b, "{:?} {:?}", a, b);
        }
    }
}

use modbus_toolbox::numeral::{decimal_text, push_numeral, push_padded, push_signed, read_signed, read_unsigned};
use modbus_toolbox::text::{
    begins, chars_of, find, holds, listed, lower, place_of, same, split_chars, text_of, to_ascii_lower, trimmed, upper,
    white, word_char,
};

#[test]
fn white_space_is_that_of_std() {
    for n in 0..=0x10FFFFu32 {
        if let Some(c) = char::from_u32(n) {
            assert_eq!(white(c), c.is_whitespace(), "{:x}", n);
        }
    }
}

#[test]
fn trimming_is_that_of_std() {
    for s in ["", "  ", " a b ", "\u{3000}x\u{2028}", "\ta\r\n", "plain"] {
        assert_eq!(trimmed(s), s.trim());
    }
}

#[test]
fn cases_are_those_of_std() {
    for s in ["AbC-09", "ÄÖ ß", "İstanbul", "ΑΣ", "中文"] {
        assert_eq!(lower(s), s.to_lowercase());
        assert_eq!(upper(s), s.to_uppercase());
        assert_eq!(to_ascii_lower(s), s.to_ascii_lowercase());
    }
    assert_eq!(lower("ABC"), "abc");
    assert_eq!(upper("straße"), "STRASSE");
}

#[test]
fn word_characters_are_letters_digits_and_two_marks() {
    for c in ['a', 'Z', '7', '中', 'é', ' ', '/', '.', '_', '-'] {
        assert_eq!(word_char(c), c.is_alphanumeric(), "{}", c);
    }
}

#[test]
fn searching_is_that_of_std() {
    for (s, t) in [("abcabd", "abd"), ("", ""), ("abc", ""), ("ab", "abc"), ("aab", "ab")] {
        assert_eq!(holds(s, t), s.contains(t));
        assert_eq!(begins(s, t), s.starts_with(t));
    }
    assert!(same("x", "x") && !same("x", "xy"));
    assert_eq!(find(&chars_of("a:b:c"), ':'), Some(1));
    assert_eq!(find(&chars_of("abc"), ':'), None);
}

#[test]
fn splitting_is_that_of_std() {
    for s in ["", "a", "a,b", ",a,,b,"] {
        let parts: Vec<String> = split_chars(&chars_of(s), ',').iter().map(text_of).collect();
        let expected: Vec<String> = s.split(',').map(|p| p.to_string()).collect();
        assert_eq!(parts, expected);
    }
}

#[test]
fn lists_of_names_are_searched() {
    let names = vec!["a".to_string(), "b".to_string()];
    assert!(listed(&names, "b") && !listed(&names, "c"));
    assert_eq!(place_of(&names, "b"), Some(1));
    assert_eq!(place_of(&names, "c"), None);
}

#[test]
fn numerals_are_those_of_std() {
    for n in [0u128, 7, 10, 65535, u64::MAX as u128, u128::MAX] {
        assert_eq!(decimal_text(n), n.to_string());
        let mut hex = String::new();
        push_numeral(&mut hex, n, 16);
        assert_eq!(hex, format!("{:X}", n));
    }
    let mut s = String::new();
    push_padded(&mut s, 0xAB, 16, 4);
    push_padded(&mut s, 5, 2, 8);
    push_padded(&mut s, 12345, 10, 3);
    assert_eq!(s, "00AB0000010112345");
    for n in [0i128, -1, i128::MIN, i128::MAX] {
        let mut s = String::new();
        push_signed(&mut s, n);
        assert_eq!(s, n.to_string());
    }
}

#[test]
fn numbers_are_read_as_std_reads_them() {
    for s in ["0", "+7", "65535", "65536", "-1", "", "+", "1 ", "12a", "000010"] {
        let v = chars_of(s);
        assert_eq!(read_unsigned(&v, 10, 65535), s.parse::<u16>().ok().map(|n| n as u128), "{}", s);
        assert_eq!(read_signed(&v, i32::MAX as i128), s.parse::<i32>().ok().map(|n| n as i128), "{}", s);
    }
    for s in ["ff", "FF", "1g", "ffff", "10000"] {
        assert_eq!(read_unsigned(&chars_of(s), 16, 65535), u16::from_str_radix(s, 16).ok().map(|n| n as u128));
    }
    assert_eq!(read_signed(&chars_of("-2147483648"), i32::MAX as i128), Some(-2147483648));
    assert_eq!(read_signed(&chars_of("-2147483649"), i32::MAX as i128), None);
}

use portway::text::{
    find_char, is_white_space, parse_u64, push_decimal, split_text, text_eq,
    text_eq_ignore_ascii_case, trim,
};

#[test]
fn white_space_is_that_of_unicode() {
    for c in '\0'..=char::MAX {
        assert_eq!(is_white_space(c), c.is_whitespace(), "{c:?}");
    }
}

#[test]
fn trims_as_std_does() {
    for text in ["", " ", "a", " a b\t", "\u{3000}x\u{85}", "\n\n", "é "] {
        assert_eq!(trim(text), text.trim());
    }
}

#[test]
fn splits_as_std_does() {
    for text in ["", ";", "a", "a;b", ";a;;b;", "é;ü"] {
        let expected: Vec<String> = text.split(';').map(str::to_owned).collect();
        assert_eq!(split_text(text, ';'), expected);
    }
}

#[test]
fn finds_the_first_separator() {
    let chars: Vec<char> = "a=b=c".chars().collect();
    assert_eq!(find_char(&chars, 0, 5, '='), 1);
    assert_eq!(find_char(&chars, 2, 5, '='), 3);
    assert_eq!(find_char(&chars, 0, 1, '='), 1);
}

#[test]
fn numerals_are_read_as_std_reads_them() {
    for text in [
        "", "0", "007", "+5", "-5", "+", "++5", "18446744073709551615", "18446744073709551616",
        "99999999999999999999999", "1a", " 1", "١",
    ] {
        assert_eq!(parse_u64(text), text.parse::<u64>().ok(), "{text:?}");
    }
}

#[test]
fn numerals_are_written_and_read_back() {
    for value in [0, 9, 10, 12_345, u64::MAX] {
        let mut text = "n".to_owned();
        push_decimal(&mut text, value);
        assert_eq!(text, format!("n{value}"));
        assert_eq!(parse_u64(&text[1..]), Some(value));
    }
}

#[test]
fn texts_are_compared() {
    assert!(text_eq("abc", "abc"));
    assert!(!text_eq("abc", "abC"));
    assert!(!text_eq("abc", "ab"));
    for (left, right) in [("Host", "hOST"), ("a", "b"), ("é", "É"), ("k", "\u{212a}"), ("[", "{")] {
        assert_eq!(
            text_eq_ignore_ascii_case(left, right),
            left.eq_ignore_ascii_case(right)
        );
    }
}

use little_oil::number::{digit_text, number_text, parse_bounded, run_end, scan_number, Decimal};
use little_oil::text::{
    chars_of, contains, ends_with, find, has_at, is_space_char, lines, lines_as_they_stand,
    same_text, split, starts_with, trimmed,
};

#[test]
fn white_space_is_what_std_calls_white_space() {
    for code in 0u32..0x11_0000 {
        if let Some(c) = char::from_u32(code) {
            assert_eq!(is_space_char(c), c.is_whitespace(), "{code:x}");
        }
    }
}

#[test]
fn trimmed_is_trim() {
    for text in ["", " ", "a", " a", "a ", "  a b \t\r\n", "\u{3000}x\u{a0}", "\n\n", "é \u{2028}"] {
        assert_eq!(trimmed(text), text.trim(), "{text:?}");
    }
}

#[test]
fn split_is_split() {
    for text in ["", ", ", "a", "a, b", "a,, b", ", a, ", "a,b", "a, , b", "é, ü"] {
        let expected: Vec<&str> = text.split(", ").collect();
        assert_eq!(split(text, ", "), expected, "{text:?}");
    }
    assert_eq!(split("abc", ""), vec!["abc"]);
    assert_eq!(split("a--b---c", "--"), vec!["a", "b", "-c"]);
}

#[test]
fn lines_are_trimmed_lines_of_the_trimmed_text() {
    for text in ["", "a", " a \n b ", "\n\na\r\n\r\nb\r\n\n", "a\n \nb", "  \n  ", "a\rb\nc"] {
        let mut expected: Vec<&str> = text.trim().lines().map(|l| l.trim()).collect();
        if expected.is_empty() {
            expected.push("");
        }
        assert_eq!(lines(text), expected, "{text:?}");
    }
}

#[test]
fn lines_as_they_stand_are_std_lines() {
    for text in ["", "\n", "a", "a\n", "a\nb", "a\r\nb\r\n", "a\r", "a\r\n\r\n", "\r\n", "\n\n", "a\n\rb", " a \n"] {
        let expected: Vec<&str> = text.lines().collect();
        assert_eq!(lines_as_they_stand(text), expected, "{text:?}");
    }
}

#[test]
fn searching() {
    let chars = chars_of("one two one");
    assert_eq!(chars.len(), 11);
    assert_eq!(find(&chars, &chars_of("one"), 0), Some(0));
    assert_eq!(find(&chars, &chars_of("one"), 1), Some(8));
    assert_eq!(find(&chars, &chars_of("one"), 9), None);
    assert_eq!(find(&chars, &chars_of(""), 0), None);
    assert_eq!(find(&chars, &chars_of("one two one!"), 0), None);
    assert!(has_at(&chars, 4, &chars_of("two")));
    assert!(!has_at(&chars, 5, &chars_of("two")));
    assert!(!has_at(&chars, 9, &chars_of("one")));
    assert!(has_at(&chars, 11, &chars_of("")));
    assert!(same_text("é", "é"));
    assert!(!same_text("e", "é"));
    assert!(!same_text("ab", "abc"));
    for (text, pat) in [("", ""), ("a", ""), ("abc", "bc"), ("abc", "abcd"), ("abc", "ab"), ("aab", "ab")] {
        assert_eq!(contains(text, pat), text.contains(pat), "{text:?} {pat:?}");
        assert_eq!(starts_with(text, pat), text.starts_with(pat), "{text:?} {pat:?}");
        assert_eq!(ends_with(text, pat), text.ends_with(pat), "{text:?} {pat:?}");
    }
}

#[test]
fn numbers_are_read_and_written() {
    assert_eq!(parse_bounded("0", 0), Some(0));
    assert_eq!(parse_bounded("255", 255), Some(255));
    assert_eq!(parse_bounded("256", 255), None);
    assert_eq!(parse_bounded("0255", 255), Some(255));
    assert_eq!(parse_bounded("", 255), None);
    assert_eq!(parse_bounded("1a", 255), None);
    assert_eq!(parse_bounded("٣", 255), None);
    assert_eq!(parse_bounded("18446744073709551615", u64::MAX), Some(u64::MAX));
    assert_eq!(parse_bounded("18446744073709551616", u64::MAX), None);
    assert_eq!(parse_bounded("99999999999999999999999", u64::MAX), None);
    for n in [0usize, 7, 9, 10, 11, 99, 100, 12345, usize::MAX] {
        assert_eq!(number_text(n), n.to_string());
    }
    assert_eq!(digit_text(4), "4");
    let chars = chars_of("ab123.45.6");
    assert_eq!(run_end(&chars, 2), 5);
    assert_eq!(run_end(&chars, 0), 0);
    assert_eq!(scan_number(&chars, 2), 8);
    assert_eq!(scan_number(&chars, 9), 10);
    assert_eq!(scan_number(&chars_of("12."), 0), 2);
    assert_eq!(Decimal::from(-4), Decimal { mantissa: -4, scale: 0 });
}

use speechcore::text::chars::{is_ascii_digit, is_white_space, to_ascii_lower};
use speechcore::text::numbers::{decimal_text, parse_u32, signed_decimal_text, IntError};
use speechcore::text::paths::{path_extension, path_file_name, path_file_stem, path_join};
use speechcore::text::strings::{
    contains_str, ends_with_str, eq_ignoring_ascii_case, joined, position_of_last,
    position_of_last_str, split_lines, split_words, starts_with_str, trimmed, with_char_replaced,
    without_prefix, without_suffix,
};
use std::path::Path;

#[test]
fn white_space_is_unicodes() {
    for n in 0..=0x10ffffu32 {
        if let Some(c) = char::from_u32(n) {
            assert_eq!(is_white_space(c), c.is_whitespace(), "{:x}", n);
            assert_eq!(to_ascii_lower(c), c.to_ascii_lowercase());
            assert_eq!(is_ascii_digit(c), c.is_ascii_digit());
        }
    }
}

#[test]
fn numbers_are_written_and_read() {
    for n in [0u64, 7, 10, 99, 100, 4294967295, u64::MAX] {
        assert_eq!(decimal_text(n), format!("{}", n));
    }
    for n in [0i64, -1, 42, i64::MIN, i64::MAX] {
        assert_eq!(signed_decimal_text(n), format!("{}", n));
    }
    let texts = [
        "0", "+7", "-1", "+", "-", "", "12a", "4294967295", "4294967296", "99999999999x", "42949672960",
        " 1", "\u{661}", "++1", "00000000000000012",
    ];
    for text in texts {
        match (parse_u32(text), text.parse::<u32>()) {
            (Ok(a), Ok(b)) => assert_eq!(a, b),
            (Err(a), Err(b)) => assert_eq!(a.message(), b.to_string(), "{}", text),
            other => panic!("{}: {:?}", text, other),
        }
    }
    assert_eq!(parse_u32("99999999999x"), Err(IntError::PosOverflow));
    assert_eq!(parse_u32(&decimal_text(123456)), Ok(123456));
}

#[test]
fn paths_go_by_their_names() {
    let paths = [
        "", "/", ".", "..", "a", "a/", "a/.", "a/..", "a//b.c", "./", "/a/b.c.d", ".hidden",
        "x/.hidden.txt", "foo.", "a/./", "///", "a/b/../c",
    ];
    for p in paths {
        let std = Path::new(p);
        assert_eq!(path_file_name(p).as_deref(), std.file_name().and_then(|s| s.to_str()), "{}", p);
        assert_eq!(path_file_stem(p).as_deref(), std.file_stem().and_then(|s| s.to_str()), "{}", p);
        assert_eq!(path_extension(p).as_deref(), std.extension().and_then(|s| s.to_str()), "{}", p);
        for rel in ["", "x", "/x", "x/y"] {
            assert_eq!(path_join(p, rel), std.join(rel).to_str().unwrap());
        }
    }
}

#[test]
fn texts_are_taken_apart() {
    let text = " one\ttwo\u{2003}three \n";
    assert_eq!(split_words(text), text.split_whitespace().collect::<Vec<_>>());
    assert_eq!(trimmed(text), text.trim());
    for lines in ["", "a", "a\n", "a\r\nb", "a\n\nb\r", "\n", "\r\n\r\n", "a\r\r\nb"] {
        assert_eq!(split_lines(lines), lines.lines().collect::<Vec<_>>(), "{:?}", lines);
    }
    assert_eq!(joined(&vec!["a".to_string(), "".to_string(), "b".to_string()], ", "), "a, , b");
    assert_eq!(position_of_last("a/b/c", '/'), Some(3));
    assert_eq!(position_of_last("abc", '/'), None);
    assert_eq!(position_of_last_str("x-q-q1", "-q"), Some(3));
    assert_eq!(position_of_last_str("x", "-q"), None);
    assert_eq!(position_of_last_str("ab", ""), Some(2));
    assert!(contains_str("abc", "bc") && !contains_str("abc", "ac") && contains_str("", ""));
    assert!(starts_with_str("abc", "ab") && ends_with_str("abc", "bc"));
    assert!(!starts_with_str("a", "ab") && !ends_with_str("c", "bc"));
    assert_eq!(without_prefix("ggml-x", "ggml-").as_deref(), Some("x"));
    assert_eq!(without_suffix("x-onnx", "-onnx").as_deref(), Some("x"));
    assert_eq!(without_suffix("x", "-onnx"), None);
    assert_eq!(with_char_replaced("a_b_", '_', ' '), "a b ");
    assert!(eq_ignoring_ascii_case("En-us", "eN-US"));
    assert!(!eq_ignoring_ascii_case("\u{c9}", "\u{e9}"));
}

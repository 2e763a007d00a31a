use spectre_core::decimal::{
    decimal_string, parse_i32, parse_u16, parse_u32, parse_u64, parse_u8, push_decimal,
    push_signed,
};
use spectre_core::text::{
    alike, begins_with, control, finishes_with, from_chars, has_at, includes, joined, lower_ascii,
    position, replace_each, same, slice, split_at_any, split_at_each, split_lines, split_words,
    text_is, to_chars, trimmed, trimmed_of, whitespace,
};

fn c(s: &str) -> Vec<char> {
    s.chars().collect()
}

fn rows(parts: Vec<Vec<char>>) -> Vec<String> {
    parts.into_iter().map(|p| p.into_iter().collect()).collect()
}

#[test]
fn characters_and_strings() {
    assert_eq!(to_chars("aé😀"), vec!['a', 'é', '😀']);
    assert_eq!(from_chars(&vec!['a', 'é', '😀']), "aé😀");
    assert_eq!(from_chars(&Vec::new()), "");
    assert_eq!(slice(&c("hello"), 1, 3), c("el"));
    assert_eq!(slice(&c("hello"), 2, 2), c(""));
    assert!(same(&c("ab"), &c("ab")));
    assert!(!same(&c("ab"), &c("abc")));
    assert!(!same(&c("ab"), &c("ac")));
    assert!(text_is("x", "x"));
    assert!(!text_is("x", "X"));
}

#[test]
fn white_space_and_control_characters_as_the_standard_library_has_them() {
    for n in 0..0x11_0000u32 {
        if let Some(ch) = char::from_u32(n) {
            assert_eq!(whitespace(ch), ch.is_whitespace(), "white space {:x}", n);
            assert_eq!(control(ch), ch.is_control(), "control {:x}", n);
            assert_eq!(lower_ascii(ch), ch.to_ascii_lowercase(), "lower {:x}", n);
        }
    }
}

#[test]
fn trimming() {
    assert_eq!(trimmed(&c("  a b \t\r\n")), c("a b"));
    assert_eq!(trimmed(&c("\u{a0}x\u{3000}")), c("x"));
    assert_eq!(trimmed(&c("   ")), c(""));
    assert_eq!(trimmed(&c("")), c(""));
    assert_eq!(trimmed_of(&c("__a_b__"), '_'), c("a_b"));
    assert_eq!(trimmed_of(&c("\"q\""), '"'), c("q"));
    assert_eq!(trimmed_of(&c("\""), '"'), c(""));
    assert_eq!(trimmed_of(&c(" x "), '_'), c(" x "));
}

#[test]
fn searching() {
    assert!(has_at(&c("hello"), &c("ll"), 2));
    assert!(!has_at(&c("hello"), &c("ll"), 3));
    assert!(!has_at(&c("hello"), &c("lo"), 4));
    assert!(has_at(&c("hello"), &c(""), 5));
    assert!(!has_at(&c("hello"), &c(""), 6));
    assert!(begins_with(&c("hello"), &c("he")));
    assert!(begins_with(&c("hello"), &c("")));
    assert!(!begins_with(&c("he"), &c("hello")));
    assert!(finishes_with(&c("hello"), &c("llo")));
    assert!(!finishes_with(&c("hello"), &c("hel")));
    assert!(!finishes_with(&c("lo"), &c("hello")));
    assert_eq!(position(&c("abcabc"), &c("bc")), Some(1));
    assert_eq!(position(&c("abcabc"), &c("cb")), None);
    assert_eq!(position(&c("abc"), &c("")), Some(0));
    assert_eq!(position(&c(""), &c("")), Some(0));
    assert_eq!(position(&c("ab"), &c("abc")), None);
    assert!(includes(&c("abc"), &c("c")));
    assert!(!includes(&c("abc"), &c("d")));
}

#[test]
fn splitting() {
    assert_eq!(rows(split_at_each(&c("a,b,,c"), ',')), vec!["a", "b", "", "c"]);
    assert_eq!(rows(split_at_each(&c(""), ',')), vec![""]);
    assert_eq!(rows(split_at_each(&c(","), ',')), vec!["", ""]);
    assert_eq!(rows(split_at_each(&c("abc"), ',')), vec!["abc"]);
    assert_eq!(rows(split_at_any(&c("a/b\\c"), '/', '\\')), vec!["a", "b", "c"]);
    assert_eq!(rows(split_words(&c("  a \t b\r\nc\x0Cd "))), vec!["a", "b", "c", "d"]);
    assert_eq!(rows(split_words(&c("a\u{b}b\u{a0}c"))), vec!["a\u{b}b\u{a0}c"]);
    assert!(split_words(&c(" \t ")).is_empty());
}

#[test]
fn lines_as_the_standard_library_has_them() {
    for text in ["", "\n", "a", "a\n", "a\nb", "a\r\nb\r\n", "a\r", "a\r\r\n", "\r\n\r\n", "a\n\nb\n\n", "\rx\n"] {
        let expected: Vec<String> = text.lines().map(|l| l.to_string()).collect();
        assert_eq!(rows(split_lines(&c(text))), expected, "{:?}", text);
    }
}

#[test]
fn joining_and_replacing() {
    assert_eq!(joined(&vec!["a".to_string(), "b".to_string(), "".to_string()], ", "), "a, b, ");
    assert_eq!(joined(&vec!["a".to_string()], ","), "a");
    assert_eq!(joined(&Vec::new(), ","), "");
    assert_eq!(replace_each(&c("aaa"), &c("aa"), &c("b")), c("ba"));
    assert_eq!(replace_each(&c("abcabc"), &c("bc"), &c("")), c("aa"));
    assert_eq!(replace_each(&c("abc"), &c("x"), &c("y")), c("abc"));
    assert_eq!(replace_each(&c("a"), &c("abc"), &c("y")), c("a"));
    assert_eq!(replace_each(&c("abc"), &c(""), &c("y")), c("abc"));
    assert_eq!(replace_each(&c("\\\""), &c("\\"), &c("\\\\")), c("\\\\\""));
    for (text, pat, with) in [("aXbXc", "X", "YY"), ("", "X", "Y"), ("XX", "X", "XX"), ("abab", "ab", "b")] {
        assert_eq!(
            replace_each(&c(text), &c(pat), &c(with)).into_iter().collect::<String>(),
            text.replace(pat, with)
        );
    }
}

#[test]
fn case_blind_equality() {
    assert!(alike(&c("HD2DS.exe"), &c("hd2ds.EXE")));
    assert!(!alike(&c("HD2DS.exe"), &c("hd2ds.ex")));
    assert!(!alike(&c("é"), &c("É")));
    assert!(alike(&c(""), &c("")));
}

#[test]
fn numbers_as_text() {
    assert_eq!(decimal_string(0), "0");
    assert_eq!(decimal_string(7), "7");
    assert_eq!(decimal_string(10), "10");
    assert_eq!(decimal_string(22000), "22000");
    assert_eq!(decimal_string(u64::MAX), "18446744073709551615");
    let mut s = String::from("x");
    push_decimal(&mut s, 42);
    push_signed(&mut s, -42);
    push_signed(&mut s, 0);
    assert_eq!(s, "x42-420");
}

#[test]
fn text_as_numbers_as_the_standard_library_has_them() {
    let samples = [
        "", "0", "7", "007", "+7", "-7", "+", "-", "++1", "+-1", " 1", "1 ", "1a", "a", "255", "256",
        "65535", "65536", "4294967295", "4294967296", "2147483647", "2147483648", "-2147483648",
        "-2147483649", "-0", "+0", "18446744073709551615", "18446744073709551616",
        "99999999999999999999999", "١٢٣", "1_000", "0x10", "1e3",
    ];
    for text in samples {
        assert_eq!(parse_u8(&c(text)), text.parse::<u8>().ok(), "u8 {:?}", text);
        assert_eq!(parse_u16(&c(text)), text.parse::<u16>().ok(), "u16 {:?}", text);
        assert_eq!(parse_u32(&c(text)), text.parse::<u32>().ok(), "u32 {:?}", text);
        assert_eq!(parse_u64(&c(text)), text.parse::<u64>().ok(), "u64 {:?}", text);
        assert_eq!(parse_i32(&c(text)), text.parse::<i32>().ok(), "i32 {:?}", text);
    }
}

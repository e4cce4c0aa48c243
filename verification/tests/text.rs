use android_emulator::text::{
    chars_of, decimal_string, is_white_space, position_of, read_u16, same_str, split_lines,
    split_words, string_of, trimmed,
};

fn strings(parts: Vec<&[char]>) -> Vec<String> {
    parts.iter().map(|part| part.iter().collect()).collect()
}

fn lines(s: &str) -> Vec<String> {
    let chars = chars_of(s);
    strings(split_lines(&chars))
}

fn words(s: &str) -> Vec<String> {
    let chars = chars_of(s);
    strings(split_words(&chars))
}

fn trim(s: &str) -> String {
    let chars = chars_of(s);
    string_of(trimmed(&chars))
}

fn number(s: &str) -> Option<u16> {
    let chars = chars_of(s);
    read_u16(&chars)
}

#[test]
fn white_space_is_that_of_unicode() {
    for c in '\0'..=char::MAX {
        assert_eq!(is_white_space(c), c.is_whitespace(), "{:?}", c);
    }
}

#[test]
fn lines_end_with_line_feeds() {
    for s in ["", "a", "a\n", "\n", "a\nb", "a\r\nb\r\n", "a\rb", "a\r", "\r\n\r\n", "x\r\r\ny\n\nz\r"] {
        let expected: Vec<String> = s.lines().map(String::from).collect();
        assert_eq!(lines(s), expected, "{:?}", s);
    }
    assert_eq!(lines("a\r\nb\n\nc"), vec!["a", "b", "", "c"]);
}

#[test]
fn words_stand_between_white_space() {
    for s in ["", " ", "a", " a\tb ", "emulator-5554\tdevice", "\u{a0}x\u{3000}y z"] {
        let expected: Vec<String> = s.split_whitespace().map(String::from).collect();
        assert_eq!(words(s), expected, "{:?}", s);
    }
}

#[test]
fn trimming_takes_white_space_from_both_ends() {
    for s in ["", "  ", " a ", "a b", "\tx\n", "\u{2003}y\u{85}"] {
        assert_eq!(trim(s), s.trim(), "{:?}", s);
    }
}

#[test]
fn first_position_of_a_character() {
    let chars = chars_of("a:b:c");
    assert_eq!(position_of(&chars, ':'), 1);
    assert_eq!(position_of(&chars, 'x'), 5);
}

#[test]
fn strings_are_compared_by_their_characters() {
    assert!(same_str("Pixel \u{e9}", "Pixel \u{e9}"));
    assert!(!same_str("Pixel", "Pixe"));
    assert!(!same_str("a", "b"));
}

#[test]
fn sixteen_bit_numbers() {
    for s in [
        "", "+", "-", "0", "-0", "+0", "5554", "+5554", "005554", "65535", "65536", "99999999999", "5 ", " 5",
        "5a", "1_0", "\u{661}", "++1",
    ] {
        assert_eq!(number(s), s.parse::<u16>().ok(), "{:?}", s);
    }
}

#[test]
fn decimal_numbers_read_back() {
    for n in [0u16, 7, 9, 10, 99, 100, 5554, 65535] {
        assert_eq!(decimal_string(n as u64), n.to_string());
        assert_eq!(number(&decimal_string(n as u64)), Some(n));
    }
    assert_eq!(decimal_string(u64::MAX), "18446744073709551615");
}

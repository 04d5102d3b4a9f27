use tabletbot::text::{
    begins_with, contains_text, join_chars, parse_decimal, parse_index, same_chars, split_chars,
    string_rows, strip_prefix_chars,
};

fn chars(text: &str) -> Vec<char> {
    text.chars().collect()
}

fn rows(texts: &[&str]) -> Vec<Vec<char>> {
    texts.iter().map(|t| chars(t)).collect()
}

#[test]
fn splitting_gives_the_pieces_between_separators() {
    assert_eq!(split_chars(&chars("a\nbc\n\nd"), '\n'), rows(&["a", "bc", "", "d"]));
    assert_eq!(split_chars(&chars("abc"), '\n'), rows(&["abc"]));
    assert_eq!(split_chars(&chars(""), '\n'), rows(&[""]));
    assert_eq!(split_chars(&chars("\n"), '\n'), rows(&["", ""]));
    assert_eq!(split_chars(&chars("a\n"), '\n'), rows(&["a", ""]));
    assert_eq!(split_chars(&chars("\na"), '\n'), rows(&["", "a"]));
    assert_eq!(split_chars(&chars("a,b"), ','), rows(&["a", "b"]));
}

#[test]
fn joining_puts_the_separator_between_neighbours() {
    assert_eq!(join_chars(&rows(&["a", "bc", "", "d"]), &chars("\n")), chars("a\nbc\n\nd"));
    assert_eq!(join_chars(&rows(&["a"]), &chars(", ")), chars("a"));
    assert_eq!(join_chars(&rows(&["a", "b"]), &chars(", ")), chars("a, b"));
    assert_eq!(join_chars(&rows(&[]), &chars(", ")), chars(""));
    assert_eq!(join_chars(&rows(&["", ""]), &chars("-")), chars("-"));
    assert_eq!(join_chars(&rows(&["a", "b"]), &chars("")), chars("ab"));
}

#[test]
fn joining_undoes_splitting() {
    for text in ["", "\n", "one", "one\ntwo\n", "\n\nx\n\n"] {
        let pieces = split_chars(&chars(text), '\n');
        assert_eq!(join_chars(&pieces, &chars("\n")), chars(text));
        assert!(pieces.iter().all(|piece| !piece.contains(&'\n')));
    }
}

#[test]
fn digits_are_read_as_numbers() {
    assert_eq!(parse_decimal(&chars("0")), Some(0));
    assert_eq!(parse_decimal(&chars("42")), Some(42));
    assert_eq!(parse_decimal(&chars("007")), Some(7));
    assert_eq!(parse_decimal(&chars("18446744073709551615")), Some(u64::MAX));
    assert_eq!(parse_decimal(&chars("018446744073709551615")), Some(u64::MAX));
}

#[test]
fn anything_but_digits_that_fit_is_no_number() {
    assert_eq!(parse_decimal(&chars("")), None);
    assert_eq!(parse_decimal(&chars("+1")), None);
    assert_eq!(parse_decimal(&chars("-1")), None);
    assert_eq!(parse_decimal(&chars("1 ")), None);
    assert_eq!(parse_decimal(&chars("12a")), None);
    assert_eq!(parse_decimal(&chars("\u{661}")), None);
    assert_eq!(parse_decimal(&chars("18446744073709551616")), None);
    assert_eq!(parse_decimal(&chars("99999999999999999999")), None);
    assert_eq!(parse_decimal(&chars("184467440737095516150")), None);
}

#[test]
fn digits_are_read_as_indices() {
    assert_eq!(parse_index(&chars("10")), Some(10));
    assert_eq!(parse_index(&chars(&usize::MAX.to_string())), Some(usize::MAX));
    assert_eq!(parse_index(&chars("99999999999999999999999")), None);
    assert_eq!(parse_index(&chars("")), None);
    assert_eq!(parse_index(&chars("x")), None);
}

#[test]
fn texts_are_compared_character_by_character() {
    assert!(same_chars(&chars("abc"), &chars("abc")));
    assert!(same_chars(&chars(""), &chars("")));
    assert!(!same_chars(&chars("abc"), &chars("abd")));
    assert!(!same_chars(&chars("abc"), &chars("ab")));
    assert!(!same_chars(&chars(""), &chars("a")));
}

#[test]
fn a_prefix_is_recognised_and_taken_off() {
    assert!(begins_with(&chars("123next"), &chars("123")));
    assert!(begins_with(&chars("123"), &chars("123")));
    assert!(begins_with(&chars("123"), &chars("")));
    assert!(!begins_with(&chars("12"), &chars("123")));
    assert!(!begins_with(&chars("213"), &chars("12")));
    assert_eq!(strip_prefix_chars(&chars("123next"), &chars("123")), Some(chars("next")));
    assert_eq!(strip_prefix_chars(&chars("123"), &chars("123")), Some(chars("")));
    assert_eq!(strip_prefix_chars(&chars("123"), &chars("")), Some(chars("123")));
    assert_eq!(strip_prefix_chars(&chars("12"), &chars("123")), None);
    assert_eq!(strip_prefix_chars(&chars("124"), &chars("123")), None);
}

#[test]
fn strings_are_taken_apart_into_characters() {
    let strings = vec!["ab".to_string(), "".to_string(), "\u{e9}".to_string()];
    assert_eq!(string_rows(&strings), rows(&["ab", "", "\u{e9}"]));
    assert!(string_rows(&Vec::new()).is_empty());
}

#[test]
fn occurrences_are_found_among_characters_not_bytes() {
    assert!(contains_text("h\u{e9}llo", "\u{e9}l"));
    assert!(!contains_text("h\u{e9}llo", "el"));
}

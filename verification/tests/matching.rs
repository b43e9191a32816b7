use grrs::{find_matches, is_blank_pattern, is_whitespace_char, print_matches, SearchError};

#[test]
fn whitespace_table_agrees_with_std_for_every_char() {
    for u in 0..=0x10FFFFu32 {
        if let Some(c) = char::from_u32(u) {
            assert_eq!(is_whitespace_char(c), c.is_whitespace(), "mismatch at U+{:04X}", u);
        }
    }
}

#[test]
fn print_a_match() {
    let mut result = String::new();
    let num = 1;
    print_matches("lorem ipsum\ndolor sit amet", &num, "lorem", &mut result);
    assert_eq!(result, "LINE# 1: lorem ipsum\n");
}

#[test]
fn print_appends_to_existing_output() {
    let mut result = String::from("before\n");
    let num = 2;
    print_matches("dolor sit amet", &num, "sit", &mut result);
    assert_eq!(result, "before\nLINE# 2: dolor sit amet\n");
}

#[test]
fn same_number_for_every_matching_line_of_a_block() {
    let mut result = String::new();
    let num = 3;
    print_matches("x marks\nboxy\nnone here", &num, "x", &mut result);
    assert_eq!(result, "LINE# 3: x marks\nLINE# 3: boxy\n");
}

#[test]
fn empty_pattern_matches_every_line() {
    let mut result = String::new();
    let num = 7;
    print_matches("first\nsecond", &num, "", &mut result);
    assert_eq!(result, "LINE# 7: first\nLINE# 7: second\n");
}

#[test]
fn negative_line_number_is_rendered_with_sign() {
    let mut result = String::new();
    let num = -12;
    print_matches("abc", &num, "b", &mut result);
    assert_eq!(result, "LINE# -12: abc\n");
}

#[test]
fn extreme_line_numbers_are_rendered_exactly() {
    let mut low = String::new();
    print_matches("abc", &i32::MIN, "abc", &mut low);
    assert_eq!(low, "LINE# -2147483648: abc\n");
    let mut high = String::new();
    print_matches("abc", &i32::MAX, "abc", &mut high);
    assert_eq!(high, "LINE# 2147483647: abc\n");
}

#[test]
fn zero_line_number_is_rendered() {
    let mut result = String::new();
    let num = 0;
    print_matches("abc", &num, "abc", &mut result);
    assert_eq!(result, "LINE# 0: abc\n");
}

#[test]
fn find_numbers_matches_by_position() {
    let result = find_matches("A test\nActual content\nMore content\nAnother test", "test");
    assert_eq!(result, Ok(String::from("LINE# 1: A test\nLINE# 4: Another test\n")));
}

#[test]
fn find_with_no_matching_line_returns_empty_output() {
    let result = find_matches("lorem ipsum\ndolor sit amet", "zzz");
    assert_eq!(result, Ok(String::new()));
}

#[test]
fn find_on_empty_content_returns_empty_output() {
    let result = find_matches("", "anything");
    assert_eq!(result, Ok(String::new()));
}

#[test]
fn empty_pattern_is_rejected() {
    let result = find_matches("A test\nActual content\nMore content\nAnother test", "");
    assert_eq!(result, Err(SearchError::EmptyPattern));
}

#[test]
fn whitespace_pattern_is_rejected() {
    let result = find_matches("some content", " \t ");
    assert_eq!(result, Err(SearchError::EmptyPattern));
}

#[test]
fn blank_pattern_check_accepts_only_real_patterns() {
    assert!(is_blank_pattern(""));
    assert!(is_blank_pattern("   "));
    assert!(is_blank_pattern(" \t\n"));
    assert!(!is_blank_pattern("a"));
    assert!(!is_blank_pattern("  a  "));
}

#[test]
fn trailing_newline_yields_the_same_lines() {
    let with = find_matches("a\n", "a");
    let without = find_matches("a", "a");
    assert_eq!(with, Ok(String::from("LINE# 1: a\n")));
    assert_eq!(with, without);
}

#[test]
fn carriage_return_before_newline_is_stripped() {
    let result = find_matches("ab\r\ncd\r\n", "ab");
    assert_eq!(result, Ok(String::from("LINE# 1: ab\n")));
}

#[test]
fn lone_carriage_return_stays_in_the_line() {
    let result = find_matches("a\rb", "b");
    assert_eq!(result, Ok(String::from("LINE# 1: a\rb\n")));
}

#[test]
fn blank_lines_keep_their_positions() {
    let result = find_matches("match\n\nmatch", "match");
    assert_eq!(result, Ok(String::from("LINE# 1: match\nLINE# 3: match\n")));
}

#[test]
fn pattern_longer_than_line_does_not_match() {
    let result = find_matches("ab", "abc");
    assert_eq!(result, Ok(String::new()));
}

#[test]
fn matching_is_case_sensitive() {
    let result = find_matches("Test\ntest", "test");
    assert_eq!(result, Ok(String::from("LINE# 2: test\n")));
}

#[test]
fn overlapping_occurrences_report_the_line_once() {
    let result = find_matches("aaaa", "aa");
    assert_eq!(result, Ok(String::from("LINE# 1: aaaa\n")));
}

#[test]
fn match_at_end_of_line_is_found() {
    let result = find_matches("lorem ipsum", "sum");
    assert_eq!(result, Ok(String::from("LINE# 1: lorem ipsum\n")));
}

#[test]
fn line_numbers_past_nine_render_with_two_digits() {
    let content = "x\nx\nx\nx\nx\nx\nx\nx\nx\nneedle here";
    let result = find_matches(content, "needle");
    assert_eq!(result, Ok(String::from("LINE# 10: needle here\n")));
}

#[test]
fn non_ascii_lines_match_by_characters() {
    let result = find_matches("grüße\nplain", "üß");
    assert_eq!(result, Ok(String::from("LINE# 1: grüße\n")));
}

use elliecore::text::is_white_char;
use elliecore::text::join_lines;
use elliecore::text::trim_str;

#[test]
fn trim_removes_both_edges() {
    assert_eq!(trim_str("  hi \n"), "hi");
}

#[test]
fn trim_keeps_inner_whitespace() {
    assert_eq!(trim_str("\ta b\tc\r\n"), "a b\tc");
}

#[test]
fn trim_of_whitespace_only_is_empty() {
    assert_eq!(trim_str(" \t\r\n"), "");
    assert_eq!(trim_str(""), "");
}

#[test]
fn trim_handles_unicode_whitespace() {
    assert_eq!(trim_str("\u{a0}\u{2003}hi\u{3000}"), "hi");
}

#[test]
fn trim_of_trimmed_is_unchanged() {
    let once = trim_str(" x y ");
    let twice = trim_str(&once);
    assert_eq!(once, twice);
}

#[test]
fn whitespace_classification_matches_unicode() {
    assert!(is_white_char(' '));
    assert!(is_white_char('\t'));
    assert!(is_white_char('\n'));
    assert!(is_white_char('\u{2028}'));
    assert!(!is_white_char('a'));
    assert!(!is_white_char('_'));
    assert!(!is_white_char('\u{200b}'));
}

#[test]
fn join_lines_places_single_separators() {
    let v = vec!["a".to_string(), "b".to_string(), "c".to_string()];
    assert_eq!(join_lines(&v), "a\nb\nc");
}

#[test]
fn join_lines_of_one_entry_adds_nothing() {
    let v = vec!["only".to_string()];
    assert_eq!(join_lines(&v), "only");
}

#[test]
fn join_lines_of_none_is_empty() {
    let v: Vec<String> = vec![];
    assert_eq!(join_lines(&v), "");
}

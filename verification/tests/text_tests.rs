use nemu::desktop_entry::strip_field_codes;
use nemu::text::{eq_ignore_ascii_case, field_or_line, split_at_char, split_lines};

fn strs(v: &[String]) -> Vec<&str> {
    v.iter().map(|s| s.as_str()).collect()
}

#[test]
fn split_keeps_empty_pieces() {
    assert_eq!(strs(&split_at_char("a\0b\0", '\0')), vec!["a", "b", ""]);
    assert_eq!(strs(&split_at_char("", '\0')), vec![""]);
    assert_eq!(strs(&split_at_char("abc", ',')), vec!["abc"]);
}

#[test]
fn lines_drop_final_newline_and_crlf() {
    assert_eq!(strs(&split_lines("a\r\nb\n")), vec!["a", "b"]);
    assert_eq!(strs(&split_lines("a\nb")), vec!["a", "b"]);
    assert_eq!(strs(&split_lines("")), Vec::<&str>::new());
    assert_eq!(strs(&split_lines("x\r")), vec!["x\r"]);
    assert_eq!(strs(&split_lines("\n\n")), vec!["", ""]);
}

#[test]
fn field_or_line_falls_back_to_line() {
    assert_eq!(field_or_line("a\tb\tc", 1), "b");
    assert_eq!(field_or_line("a\tb\tc", 5), "a\tb\tc");
    assert_eq!(field_or_line("plain", 0), "plain");
}

#[test]
fn ascii_case_is_ignored_only_for_ascii() {
    assert!(eq_ignore_ascii_case("Firefox", "fIREFOX"));
    assert!(!eq_ignore_ascii_case("Firefox", "Firefo"));
    assert!(!eq_ignore_ascii_case("é", "É"));
    assert!(eq_ignore_ascii_case("", ""));
}

#[test]
fn field_codes_are_stripped() {
    assert_eq!(strip_field_codes("firefox %u"), "firefox ");
    assert_eq!(strip_field_codes("a %% b %F"), "a % b ");
    assert_eq!(strip_field_codes("echo %x"), "echo %x");
    assert_eq!(strip_field_codes("plain"), "plain");
    assert_eq!(strip_field_codes("%"), "%");
}

use ibl_bake::text::{bool_str, split_lines, str_eq, to_decimal};

fn same_as_std(text: &str) {
    let expected: Vec<&str> = text.lines().collect();
    assert_eq!(split_lines(text), expected);
}

#[test]
fn lines_of_the_empty_text() {
    assert_eq!(split_lines(""), Vec::<&str>::new());
}

#[test]
fn lines_end_at_line_feeds() {
    assert_eq!(split_lines("a\nb\nc"), vec!["a", "b", "c"]);
    assert_eq!(split_lines("a\nb\nc\n"), vec!["a", "b", "c"]);
}

#[test]
fn empty_lines_are_kept() {
    assert_eq!(split_lines("\n"), vec![""]);
    assert_eq!(split_lines("a\n\nb"), vec!["a", "", "b"]);
    assert_eq!(split_lines("\n\n"), vec!["", ""]);
}

#[test]
fn carriage_return_before_line_feed_belongs_to_the_ending() {
    assert_eq!(split_lines("a\r\nb\r\n"), vec!["a", "b"]);
    assert_eq!(split_lines("a\r\r\nb"), vec!["a\r", "b"]);
    assert_eq!(split_lines("\r\n"), vec![""]);
}

#[test]
fn bare_carriage_return_is_kept() {
    assert_eq!(split_lines("a\rb\nc"), vec!["a\rb", "c"]);
    assert_eq!(split_lines("a\r"), vec!["a\r"]);
}

#[test]
fn lines_agree_with_the_standard_library() {
    same_as_std("");
    same_as_std("one line");
    same_as_std("one line\n");
    same_as_std("a\nb\r\nc\rd\n\n\r\n");
    same_as_std("\r");
    same_as_std("\n\r");
    same_as_std("tab\there\r\n  indented\n");
    same_as_std("gr\u{fc}n \u{2192} \u{1f600}\nnext\r\n");
}

#[test]
fn lines_hold_whole_characters() {
    assert_eq!(split_lines("\u{e9}\u{e9}\n\u{4e2d}\u{6587}"), vec!["\u{e9}\u{e9}", "\u{4e2d}\u{6587}"]);
}

#[test]
fn strings_compare_by_their_characters() {
    assert!(str_eq("", ""));
    assert!(str_eq("envmap", "envmap"));
    assert!(!str_eq("envmap", "envmaq"));
    assert!(!str_eq("envmap", "envma"));
    assert!(!str_eq("envma", "envmap"));
    assert!(!str_eq("", "x"));
    assert!(str_eq("\u{4e2d}", "\u{4e2d}"));
    assert!(!str_eq("\u{4e2d}", "\u{4e2e}"));
}

#[test]
fn numbers_are_written_in_decimal() {
    assert_eq!(to_decimal(0), "0");
    assert_eq!(to_decimal(7), "7");
    assert_eq!(to_decimal(10), "10");
    assert_eq!(to_decimal(128), "128");
    assert_eq!(to_decimal(65535), "65535");
    assert_eq!(to_decimal(1234567890), "1234567890");
    assert_eq!(to_decimal(u64::MAX), "18446744073709551615");
}

#[test]
fn truth_values_are_written_in_words() {
    assert_eq!(bool_str(true), "true");
    assert_eq!(bool_str(false), "false");
    assert_eq!(bool_str(true), true.to_string());
    assert_eq!(bool_str(false), false.to_string());
}

use charcoal_dict::text::{collapse_ws, decimal_string, join_strings, split_lines, trim_str};

#[test]
fn trimming_removes_unicode_whitespace() {
    assert_eq!(trim_str("  a b \u{3000}\n"), Some("a b".to_owned()));
    assert_eq!(trim_str(" \t\u{a0} "), None);
    assert_eq!(trim_str("x"), Some("x".to_owned()));
}

#[test]
fn whitespace_runs_collapse() {
    assert_eq!(collapse_ws("  a\t\tb \n c  "), "a b c");
    assert_eq!(collapse_ws(""), "");
    assert_eq!(collapse_ws("   "), "");
}

#[test]
fn lines_split_and_join() {
    assert_eq!(split_lines("a\nb\n"), vec!["a", "b", ""]);
    assert_eq!(split_lines(""), vec![""]);
    assert_eq!(join_strings(&vec!["a".into(), "b".into()], ", "), "a, b");
}

#[test]
fn decimals() {
    assert_eq!(decimal_string(0), "0");
    assert_eq!(decimal_string(1234), "1234");
}

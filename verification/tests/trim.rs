use llmctx::{keep_range, trim};

#[test]
fn range_between_the_runs_of_set_flags() {
    assert_eq!(keep_range(&[true, false, false, true]), (1, 3));
    assert_eq!(keep_range(&[false, true, false]), (0, 3));
    assert_eq!(keep_range(&[true, true, false]), (2, 3));
    assert_eq!(keep_range(&[false, true, true]), (0, 1));
    assert_eq!(keep_range(&[false]), (0, 1));
}

#[test]
fn range_is_empty_at_the_end_when_all_flags_are_set() {
    assert_eq!(keep_range(&[]), (0, 0));
    assert_eq!(keep_range(&[true]), (1, 1));
    assert_eq!(keep_range(&[true, true, true]), (3, 3));
}

#[test]
fn set_flags_inside_the_range_are_kept() {
    assert_eq!(keep_range(&[true, false, true, true, false, true, true]), (1, 5));
}

#[test]
fn trimmed_text_is_a_slice_of_the_text() {
    let text = String::from("  inner part\t");
    let kept = trim(&text);
    assert_eq!(kept, "inner part");
    assert_eq!(kept.as_ptr() as usize, text.as_ptr() as usize + 2);
}

#[test]
fn trim_counts_characters_not_bytes() {
    assert_eq!(trim("\u{2003}\u{2003}\u{e9}t\u{e9}\u{a0}"), "\u{e9}t\u{e9}");
    assert_eq!(trim("\u{3000}"), "");
    assert_eq!(trim("\u{1f600} "), "\u{1f600}");
}

#[test]
fn line_breaks_are_whitespace() {
    assert_eq!(trim("\r\n\nline one\nline two\n\r\n"), "line one\nline two");
}

#[test]
fn trim_removes_whitespace_at_both_ends_only() {
    assert_eq!(trim("  hello world \n"), "hello world");
    assert_eq!(trim("\t\r\n x\ty \n"), "x\ty");
    assert_eq!(trim("plain"), "plain");
}

#[test]
fn trim_of_whitespace_only_is_empty() {
    assert_eq!(trim(""), "");
    assert_eq!(trim(" \n\t  "), "");
}

#[test]
fn trim_knows_whitespace_beyond_ascii() {
    assert_eq!(trim("\u{a0}\u{2003}caf\u{e9}\u{3000}"), "caf\u{e9}");
    assert_eq!(trim("\u{200b}x\u{200b}"), "\u{200b}x\u{200b}");
}

#[test]
fn trim_is_idempotent() {
    for text in ["  a b  ", "\n\n", "x", " \u{2028}y z\u{2029} "] {
        assert_eq!(trim(trim(text)), trim(text));
    }
}

use diff_review::hunk::{analyze_hunk_cosmetic, file_is_cosmetic, is_formatting_only_change};
use diff_review::line::{
    is_case_only_change, is_comment_line, is_indentation_only_change,
    is_trailing_whitespace_change, is_whitespace_only_change, normalize_content,
};
use diff_review::model::{DiffHunk, DiffLine, LineType};
use diff_review::text::is_white_char;

fn line(t: LineType, s: &str) -> DiffLine {
    DiffLine { content: s.to_string(), line_type: t, old_lineno: None, new_lineno: None }
}

fn hunk_of(removed: &[&str], added: &[&str]) -> Vec<DiffLine> {
    let mut v: Vec<DiffLine> = removed.iter().map(|s| line(LineType::Delete, s)).collect();
    v.extend(added.iter().map(|s| line(LineType::Add, s)));
    v
}

fn hunk(cosmetic: bool) -> DiffHunk {
    DiffHunk { old_start: 1, old_lines: 1, new_start: 1, new_lines: 1, lines: vec![], is_cosmetic: cosmetic }
}

#[test]
fn white_char_matches_std() {
    for code in 0u32..0x3100 {
        if let Some(c) = char::from_u32(code) {
            assert_eq!(is_white_char(c), c.is_whitespace(), "{:x}", code);
        }
    }
    assert!(!is_white_char('\u{feff}'));
    assert!(!is_white_char('\u{200b}'));
}

#[test]
fn comment_lines() {
    for s in ["// note", "  # py", "-- sql", "; ini", " * doc", "/* a", "*/", "' vb",
        "\"\"\" doc", "''' doc", "<!-- x -->", "-->", "rem batch", "REM Batch", "", "   \t\n"] {
        assert!(is_comment_line(s), "{:?}", s);
    }
    for s in ["code();", "x = 1 # trailing", "remark", "/ divide", "<div>", "-x"] {
        assert!(!is_comment_line(s), "{:?}", s);
    }
}

#[test]
fn whitespace_only_changes() {
    assert!(is_whitespace_only_change("a b c", "abc"));
    assert!(is_whitespace_only_change("f( x )\n", "f(x)"));
    assert!(is_whitespace_only_change("same", "same"));
    assert!(!is_whitespace_only_change("ab", "ba"));
}

#[test]
fn indentation_only_changes() {
    assert!(is_indentation_only_change("    foo();", "foo();"));
    assert!(is_indentation_only_change("\tfoo();", "  foo();"));
    assert!(!is_indentation_only_change("foo();", "foo();"));
    assert!(!is_indentation_only_change("foo(); ", "foo();"));
}

#[test]
fn trailing_whitespace_changes() {
    assert!(is_trailing_whitespace_change("foo();   ", "foo();"));
    assert!(is_trailing_whitespace_change("foo();\n", "foo();\t\n"));
    assert!(!is_trailing_whitespace_change("foo();", "foo();"));
    assert!(!is_trailing_whitespace_change(" foo();", "foo();"));
}

#[test]
fn case_only_changes() {
    assert!(is_case_only_change("Foo", "foo"));
    assert!(is_case_only_change("SELECT x", "select X"));
    assert!(!is_case_only_change("foo", "foo"));
    assert!(!is_case_only_change("foo", "bar"));
}

#[test]
fn case_only_change_implies_equal_lowercase() {
    let (a, b) = ("HeLLo World", "hello world");
    assert!(is_case_only_change(a, b));
    assert_eq!(a.to_lowercase(), b.to_lowercase());
    assert_ne!(a, b);
}

#[test]
fn normalize_strips_all_whitespace() {
    assert_eq!(normalize_content(" a b\tc\r\n"), "abc");
    assert_eq!(normalize_content(""), "");
    assert_eq!(normalize_content("x\u{3000}y"), "xy");
}

#[test]
fn formatting_only_change_joins_lines() {
    let old = vec!["const x = a + b + c;".to_string()];
    let new = vec!["const x =".to_string(), "  a + b + c;".to_string()];
    assert!(is_formatting_only_change(&old, &new));
    let other = vec!["const x =".to_string(), "  c + b + a;".to_string()];
    assert!(!is_formatting_only_change(&old, &other));
}

#[test]
fn removal_of_comments_is_cosmetic() {
    assert!(analyze_hunk_cosmetic(&hunk_of(&["// one\n", "\n", "# two\n"], &[])));
}

#[test]
fn removal_of_code_is_not_cosmetic() {
    assert!(!analyze_hunk_cosmetic(&hunk_of(&["// one\n", "let x = 1;\n"], &[])));
}

#[test]
fn addition_of_comments_is_cosmetic() {
    assert!(analyze_hunk_cosmetic(&hunk_of(&[], &["/* doc */\n", "  * more\n"])));
    assert!(!analyze_hunk_cosmetic(&hunk_of(&[], &["fn f() {}\n"])));
}

#[test]
fn pairwise_indentation_is_cosmetic() {
    assert!(analyze_hunk_cosmetic(&hunk_of(&["  foo();", "bar();"], &["foo();", "  bar();"])));
}

#[test]
fn pairwise_real_change_is_not_cosmetic() {
    assert!(!analyze_hunk_cosmetic(&hunk_of(&["foo();", "bar();"], &["foo();", "baz();"])));
}

#[test]
fn pairwise_case_change_is_cosmetic() {
    assert!(analyze_hunk_cosmetic(&hunk_of(&["SELECT a;", "x"], &["select a;", "X"])));
}

#[test]
fn reflow_is_cosmetic() {
    assert!(analyze_hunk_cosmetic(&hunk_of(&["const x = a + b + c;"], &["const x =", "  a + b + c;"])));
}

#[test]
fn unequal_counts_need_all_noise() {
    assert!(analyze_hunk_cosmetic(&hunk_of(&["// a"], &["// b", "# c"])));
    assert!(!analyze_hunk_cosmetic(&hunk_of(&["// a"], &["// b", "x = 1;"])));
}

#[test]
fn context_only_hunk_is_not_cosmetic() {
    assert!(!analyze_hunk_cosmetic(&[]));
    assert!(!analyze_hunk_cosmetic(&[line(LineType::Context, "x\n")]));
}

#[test]
fn context_lines_play_no_part() {
    let mut v = hunk_of(&["  foo();"], &["foo();"]);
    v.insert(0, line(LineType::Context, "unrelated();"));
    assert!(analyze_hunk_cosmetic(&v));
}

#[test]
fn classifying_twice_gives_same_verdict() {
    let v = hunk_of(&["foo();", "bar();"], &["foo();", "baz();"]);
    assert_eq!(analyze_hunk_cosmetic(&v), analyze_hunk_cosmetic(&v));
    let w = hunk_of(&["  foo();"], &["foo();"]);
    assert_eq!(analyze_hunk_cosmetic(&w), analyze_hunk_cosmetic(&w));
}

#[test]
fn file_cosmetic_needs_hunks_all_cosmetic() {
    assert!(!file_is_cosmetic(&[]));
    assert!(file_is_cosmetic(&[hunk(true), hunk(true)]));
    assert!(!file_is_cosmetic(&[hunk(true), hunk(false)]));
}

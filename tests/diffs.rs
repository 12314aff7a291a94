use diff_review::assemble::{build_file_diff, extract_hunks, DiffEvent};
use diff_review::changes::{changed_files, ChangeEvent};
use diff_review::model::{DiffHunk, FileStatus, LineType};
use diff_review::resolve::{first_source, next_source, untracked_source, DiffSource};
use diff_review::untracked::{is_binary_content, split_lines, untracked_hunks};

fn ev_line(origin: char, s: &str, o: Option<u32>, n: Option<u32>) -> DiffEvent {
    DiffEvent::Line { origin, content: s.to_string(), old_lineno: o, new_lineno: n }
}

fn ev_hunk(a: u32, b: u32, c: u32, d: u32) -> DiffEvent {
    DiffEvent::Hunk { old_start: a, old_lines: b, new_start: c, new_lines: d }
}

#[test]
fn events_assemble_into_hunks() {
    let events = vec![
        DiffEvent::File { is_binary: false },
        ev_line('+', "dropped\n", None, Some(1)),
        ev_hunk(1, 2, 1, 2),
        ev_line(' ', "keep\n", Some(1), Some(1)),
        ev_line('-', "  foo();\n", Some(2), None),
        ev_line('+', "foo();\n", None, Some(2)),
        ev_hunk(10, 1, 10, 1),
        ev_line('-', "a();\n", Some(10), None),
        ev_line('+', "b();\n", None, Some(10)),
        ev_line('=', "\n", None, None),
    ];
    let (hunks, binary) = extract_hunks(&events);
    assert!(!binary);
    assert_eq!(hunks.len(), 2);
    assert_eq!((hunks[0].old_start, hunks[0].old_lines, hunks[0].new_start, hunks[0].new_lines), (1, 2, 1, 2));
    assert_eq!(hunks[0].lines.len(), 3);
    assert_eq!(hunks[0].lines[0].line_type, LineType::Context);
    assert_eq!(hunks[0].lines[1].line_type, LineType::Delete);
    assert_eq!(hunks[0].lines[1].old_lineno, Some(2));
    assert_eq!(hunks[0].lines[2].line_type, LineType::Add);
    assert_eq!(hunks[0].lines[2].content, "foo();\n");
    assert!(hunks[0].is_cosmetic);
    assert_eq!(hunks[1].old_start, 10);
    assert_eq!(hunks[1].lines.len(), 3);
    assert_eq!(hunks[1].lines[2].line_type, LineType::Context);
    assert!(!hunks[1].is_cosmetic);
}

#[test]
fn binary_flag_comes_from_last_file_event() {
    let (h, b) = extract_hunks(&vec![DiffEvent::File { is_binary: true }]);
    assert!(h.is_empty());
    assert!(b);
    let (_, b) = extract_hunks(&vec![DiffEvent::File { is_binary: true }, DiffEvent::File { is_binary: false }]);
    assert!(!b);
    let (h, b) = extract_hunks(&vec![]);
    assert!(h.is_empty() && !b);
}

#[test]
fn file_diff_flags() {
    let (hunks, _) = extract_hunks(&vec![ev_hunk(1, 1, 1, 1), ev_line('-', " x\n", Some(1), None), ev_line('+', "x\n", None, Some(1))]);
    let d = build_file_diff("f.rs".to_string(), hunks.clone(), false);
    assert_eq!(d.path, "f.rs");
    assert!(d.is_cosmetic);
    assert_eq!(d.hunks, hunks);
    let empty = build_file_diff("g.rs".to_string(), Vec::<DiffHunk>::new(), false);
    assert!(!empty.is_cosmetic);
    let bin = build_file_diff("h.bin".to_string(), hunks, true);
    assert!(bin.is_binary && bin.hunks.is_empty() && !bin.is_cosmetic);
}

#[test]
fn binary_sniff_window() {
    assert!(is_binary_content(&[b'a', 0, b'b']));
    assert!(!is_binary_content(b"plain text\n"));
    assert!(!is_binary_content(&[]));
    let mut late = vec![b'a'; 8000];
    late.push(0);
    assert!(!is_binary_content(&late));
    let mut edge = vec![b'a'; 7999];
    edge.push(0);
    assert!(is_binary_content(&edge));
}

#[test]
fn lines_split_like_std() {
    for s in ["a\nb\r\nc", "a\n", "", "\n", "a\n\nb\n", "x\r", "a\r\n\r\n", "é\u{3000}z\nq"] {
        let want: Vec<String> = s.lines().map(|l| l.to_string()).collect();
        assert_eq!(split_lines(s), want, "{:?}", s);
    }
}

#[test]
fn untracked_file_is_one_added_hunk() {
    let (hunks, binary) = untracked_hunks(b"fn main() {}\r\n// done\nlast");
    assert!(!binary);
    assert_eq!(hunks.len(), 1);
    let h = &hunks[0];
    assert_eq!((h.old_start, h.old_lines, h.new_start, h.new_lines), (0, 0, 1, 3));
    let contents: Vec<&str> = h.lines.iter().map(|l| l.content.as_str()).collect();
    assert_eq!(contents, vec!["fn main() {}\n", "// done\n", "last\n"]);
    for (i, l) in h.lines.iter().enumerate() {
        assert_eq!(l.line_type, LineType::Add);
        assert_eq!(l.old_lineno, None);
        assert_eq!(l.new_lineno, Some(i as u32 + 1));
    }
    assert!(!h.is_cosmetic);
}

#[test]
fn untracked_file_decodes_lossily() {
    let (hunks, _) = untracked_hunks(&[b'a', 0xff, b'\n']);
    assert_eq!(hunks[0].lines[0].content, "a\u{fffd}\n");
}

#[test]
fn untracked_comment_file_is_cosmetic() {
    let (hunks, _) = untracked_hunks(b"# only a comment\n\n");
    assert!(hunks[0].is_cosmetic);
}

#[test]
fn untracked_binary_file_has_no_hunks() {
    let (hunks, binary) = untracked_hunks(&[0x89, b'P', b'N', b'G', 0, 1, 2]);
    assert!(binary);
    assert!(hunks.is_empty());
    let d = build_file_diff("img.png".to_string(), hunks, binary);
    assert!(d.is_binary && d.hunks.is_empty() && !d.is_cosmetic);
}

#[test]
fn untracked_empty_file_has_no_hunks() {
    let (hunks, binary) = untracked_hunks(b"");
    assert!(hunks.is_empty() && !binary);
}

#[test]
fn sources_tried_in_order() {
    assert_eq!(first_source(), DiffSource::Committed);
    let none: Vec<DiffHunk> = vec![];
    assert_eq!(next_source(DiffSource::Committed, &none), Some(DiffSource::WorkingTree));
    assert_eq!(next_source(DiffSource::WorkingTree, &none), Some(DiffSource::Untracked));
    assert_eq!(next_source(DiffSource::Untracked, &none), None);
    let (some, _) = untracked_hunks(b"x\n");
    assert_eq!(next_source(DiffSource::Committed, &some), None);
}

#[test]
fn untracked_source_keeps_earlier_binary_flag() {
    let (h, b) = untracked_source(&None, true);
    assert!(h.is_empty() && b);
    let (h, b) = untracked_source(&Some(b"a\nb\n".to_vec()), false);
    assert_eq!(h.len(), 1);
    assert_eq!(h[0].new_lines, 2);
    assert!(!b);
    let (h, b) = untracked_source(&Some(vec![0u8, 1]), false);
    assert!(h.is_empty() && b);
}

#[test]
fn listing_and_file_diff_agree_on_one_hunk() {
    let cases: Vec<Vec<(char, &str)>> = vec![
        vec![(' ', "ctx\n"), ('-', "  foo();\n"), ('+', "foo();\n")],
        vec![('-', "foo();\n"), ('+', "bar();\n")],
        vec![(' ', "only context\n")],
        vec![('+', "// note\n")],
    ];
    for lines in cases {
        let mut diff_events = vec![ev_hunk(1, 1, 1, 1)];
        let mut change_events = vec![ChangeEvent::Delta { path: "f".to_string(), status: FileStatus::Modified }];
        for (o, c) in &lines {
            diff_events.push(ev_line(*o, c, None, None));
            change_events.push(ChangeEvent::Line { path: "f".to_string(), origin: *o, content: c.to_string() });
        }
        let (hunks, _) = extract_hunks(&diff_events);
        let diff = build_file_diff("f".to_string(), hunks, false);
        let listed = changed_files(&change_events, &vec![]);
        assert_eq!(listed[0].is_cosmetic, diff.is_cosmetic, "{:?}", lines);
    }
}

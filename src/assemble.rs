//! Turning one diff source's stream of file, hunk and line events into hunks.
use vstd::prelude::*;
use crate::hunk::{all_hunks_cosmetic, analyze_hunk_cosmetic, file_is_cosmetic, hunk_cosmetic};
use crate::model::{DiffHunk, DiffLine, FileDiff, LineType};

verus! {

/// One event of a walk over a diff: a file, a hunk header, or a line of the current hunk.
#[derive(Clone, Debug)]
pub enum DiffEvent {
    File { is_binary: bool },
    Hunk { old_start: u32, old_lines: u32, new_start: u32, new_lines: u32 },
    Line { origin: char, content: String, old_lineno: Option<u32>, new_lineno: Option<u32> },
}

/// A hunk as header fields and lines.
pub type HunkModel = (u32, u32, u32, u32, Seq<DiffLine>);

pub open spec fn hunk_model(h: DiffHunk) -> HunkModel {
    (h.old_start, h.old_lines, h.new_start, h.new_lines, h.lines@)
}

pub open spec fn hunk_models(hs: Seq<DiffHunk>) -> Seq<HunkModel> {
    hs.map_values(|h: DiffHunk| hunk_model(h))
}

/// `+` marks an added line, `-` a removed one; anything else is context.
pub open spec fn line_type_of(origin: char) -> LineType {
    if origin == '+' {
        LineType::Add
    } else if origin == '-' {
        LineType::Delete
    } else {
        LineType::Context
    }
}

/// The hunks that the events describe: a header opens a hunk, a line joins the
/// last one opened, and a line before any header is dropped.
pub open spec fn assembled(evs: Seq<DiffEvent>) -> Seq<HunkModel>
    decreases evs.len(),
{
    if evs.len() == 0 {
        Seq::empty()
    } else {
        let prev = assembled(evs.drop_last());
        match evs.last() {
            DiffEvent::File { .. } => prev,
            DiffEvent::Hunk { old_start, old_lines, new_start, new_lines } => prev.push(
                (old_start, old_lines, new_start, new_lines, Seq::empty()),
            ),
            DiffEvent::Line { origin, content, old_lineno, new_lineno } => {
                if prev.len() == 0 {
                    prev
                } else {
                    let h = prev.last();
                    let line = DiffLine {
                        content,
                        line_type: line_type_of(origin),
                        old_lineno,
                        new_lineno,
                    };
                    prev.update(prev.len() - 1, (h.0, h.1, h.2, h.3, h.4.push(line)))
                }
            },
        }
    }
}

/// The binary flag of the last file event, `false` without one.
pub open spec fn binary_flag(evs: Seq<DiffEvent>) -> bool
    decreases evs.len(),
{
    if evs.len() == 0 {
        false
    } else {
        match evs.last() {
            DiffEvent::File { is_binary } => is_binary,
            _ => binary_flag(evs.drop_last()),
        }
    }
}

fn line_type_for(origin: char) -> (r: LineType)
    ensures
        r == line_type_of(origin),
{
    if origin == '+' {
        LineType::Add
    } else if origin == '-' {
        LineType::Delete
    } else {
        LineType::Context
    }
}

fn close_hunk(header: (u32, u32, u32, u32), lines: Vec<DiffLine>) -> (r: DiffHunk)
    ensures
        hunk_model(r) == (header.0, header.1, header.2, header.3, lines@),
        r.is_cosmetic == hunk_cosmetic(lines@),
{
    let is_cosmetic = analyze_hunk_cosmetic(lines.as_slice());
    DiffHunk {
        old_start: header.0,
        old_lines: header.1,
        new_start: header.2,
        new_lines: header.3,
        lines,
        is_cosmetic,
    }
}

/// The hunks of one diff source in source order, each with its cosmetic verdict,
/// and whether the source reported the file binary.
pub fn extract_hunks(events: &Vec<DiffEvent>) -> (r: (Vec<DiffHunk>, bool))
    ensures
        hunk_models(r.0@) == assembled(events@),
        forall|i: int|
            0 <= i < r.0.len() ==> (#[trigger] r.0@[i]).is_cosmetic == hunk_cosmetic(
                r.0@[i].lines@,
            ),
        r.1 == binary_flag(events@),
{
    let mut out: Vec<DiffHunk> = Vec::new();
    let mut open: Option<(u32, u32, u32, u32)> = None;
    let mut lines: Vec<DiffLine> = Vec::new();
    let mut is_binary = false;
    let mut i: usize = 0;
    while i < events.len()
        invariant
            i <= events.len(),
            is_binary == binary_flag(events@.take(i as int)),
            open is None ==> out.len() == 0,
            forall|k: int|
                0 <= k < out.len() ==> (#[trigger] out@[k]).is_cosmetic == hunk_cosmetic(
                    out@[k].lines@,
                ),
            match open {
                None => hunk_models(out@) == assembled(events@.take(i as int)),
                Some(h) => hunk_models(out@).push((h.0, h.1, h.2, h.3, lines@)) == assembled(
                    events@.take(i as int),
                ),
            },
        decreases events.len() - i,
    {
        assert(events@.take(i + 1).drop_last() =~= events@.take(i as int));
        assert(events@.take(i + 1).last() == events@[i as int]);
        match &events[i] {
            DiffEvent::File { is_binary: b } => {
                is_binary = *b;
            },
            DiffEvent::Hunk { old_start, old_lines, new_start, new_lines } => {
                match open {
                    Some(h) => {
                        let done = close_hunk(h, lines);
                        out.push(done);
                        assert(hunk_models(out@) =~= hunk_models(out@.drop_last()).push(
                            hunk_model(done),
                        ));
                    },
                    None => {},
                }
                open = Some((*old_start, *old_lines, *new_start, *new_lines));
                lines = Vec::new();
            },
            DiffEvent::Line { origin, content, old_lineno, new_lineno } => {
                match open {
                    Some(h) => {
                        let ghost before = lines@;
                        lines.push(
                            DiffLine {
                                content: content.clone(),
                                line_type: line_type_for(*origin),
                                old_lineno: *old_lineno,
                                new_lineno: *new_lineno,
                            },
                        );
                        assert(hunk_models(out@).push((h.0, h.1, h.2, h.3, lines@)) =~= hunk_models(
                            out@,
                        ).push((h.0, h.1, h.2, h.3, before)).update(
                            out@.len() as int,
                            (h.0, h.1, h.2, h.3, lines@),
                        ));
                    },
                    None => {},
                }
            },
        }
        i = i + 1;
    }
    match open {
        Some(h) => {
            let done = close_hunk(h, lines);
            out.push(done);
            assert(hunk_models(out@) =~= hunk_models(out@.drop_last()).push(hunk_model(done)));
        },
        None => {},
    }
    assert(events@.take(events.len() as int) =~= events@);
    (out, is_binary)
}

/// A file's diff from the hunks its source gave: a binary file carries no hunks,
/// and the file is cosmetic when it has hunks and each one is.
pub fn build_file_diff(path: String, hunks: Vec<DiffHunk>, is_binary: bool) -> (r: FileDiff)
    ensures
        r.path == path,
        r.is_binary == is_binary,
        is_binary ==> r.hunks@.len() == 0 && !r.is_cosmetic,
        !is_binary ==> r.hunks@ == hunks@,
        r.is_cosmetic == all_hunks_cosmetic(r.hunks@),
{
    let hunks = if is_binary {
        Vec::new()
    } else {
        hunks
    };
    let is_cosmetic = file_is_cosmetic(hunks.as_slice());
    FileDiff { path, hunks, is_binary, is_cosmetic }
}

} // verus!

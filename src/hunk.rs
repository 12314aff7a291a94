//! Deciding whether a hunk, or a whole file, changes nothing of substance.
use vstd::prelude::*;
use crate::line::{
    case_only, indentation_only, is_case_only_change, is_comment_line,
    is_indentation_only_change, is_noise, is_trailing_whitespace_change,
    is_whitespace_only_change, trailing_only, whitespace_only,
};
use crate::model::{DiffHunk, DiffLine, LineType, views};
use crate::text::{push_stripped, same_chars, strip_white};

verus! {

broadcast use vstd::seq_lib::group_seq_properties;

/// The contents of the lines of `lines` of the given kind, in order.
pub open spec fn contents_of(lines: Seq<DiffLine>, kind: LineType) -> Seq<Seq<char>>
    decreases lines.len(),
{
    if lines.len() == 0 {
        Seq::empty()
    } else {
        let rest = contents_of(lines.drop_last(), kind);
        if lines.last().line_type == kind {
            rest.push(lines.last().content@)
        } else {
            rest
        }
    }
}

/// All of `xs` written one after another.
pub open spec fn concat_all(xs: Seq<Seq<char>>) -> Seq<char>
    decreases xs.len(),
{
    if xs.len() == 0 {
        Seq::empty()
    } else {
        concat_all(xs.drop_last()) + xs.last()
    }
}

pub open spec fn all_noise(xs: Seq<Seq<char>>) -> bool {
    forall|i: int| 0 <= i < xs.len() ==> #[trigger] is_noise(xs[i])
}

/// Two lines that differ only cosmetically.
pub open spec fn pair_cosmetic(a: Seq<char>, b: Seq<char>) -> bool {
    ||| (is_noise(a) && is_noise(b))
    ||| whitespace_only(a, b)
    ||| indentation_only(a, b)
    ||| trailing_only(a, b)
    ||| case_only(a, b)
}

/// The removed and the added text agree once joined and stripped of whitespace.
pub open spec fn reflowed(removed: Seq<Seq<char>>, added: Seq<Seq<char>>) -> bool {
    strip_white(concat_all(removed)) == strip_white(concat_all(added))
}

/// The verdict on a hunk with these removed and added line contents.
pub open spec fn cosmetic_verdict(removed: Seq<Seq<char>>, added: Seq<Seq<char>>) -> bool {
    if removed.len() == 0 && added.len() == 0 {
        false
    } else if added.len() == 0 {
        all_noise(removed)
    } else if removed.len() == 0 {
        all_noise(added)
    } else if reflowed(removed, added) {
        true
    } else if added.len() == removed.len() {
        forall|i: int| 0 <= i < added.len() ==> #[trigger] pair_cosmetic(removed[i], added[i])
    } else {
        all_noise(added) && all_noise(removed)
    }
}

/// Whether the hunk made of `lines` is cosmetic.
pub open spec fn hunk_cosmetic(lines: Seq<DiffLine>) -> bool {
    cosmetic_verdict(contents_of(lines, LineType::Delete), contents_of(lines, LineType::Add))
}

/// A file is cosmetic when it has hunks and every one of them is.
pub open spec fn all_hunks_cosmetic(hunks: Seq<DiffHunk>) -> bool {
    hunks.len() > 0 && forall|i: int| 0 <= i < hunks.len() ==> (#[trigger] hunks[i]).is_cosmetic
}

/// The contents of the lines of one kind, in order.
pub fn contents_of_kind(lines: &[DiffLine], kind: LineType) -> (r: Vec<String>)
    ensures
        views(r@) == contents_of(lines@, kind),
{
    let mut out: Vec<String> = Vec::new();
    let mut i: usize = 0;
    while i < lines.len()
        invariant
            i <= lines.len(),
            views(out@) == contents_of(lines@.take(i as int), kind),
        decreases lines.len() - i,
    {
        assert(lines@.take(i + 1).drop_last() =~= lines@.take(i as int));
        if lines[i].line_type == kind {
            out.push(lines[i].content.clone());
            assert(views(out@) =~= contents_of(lines@.take(i + 1), kind));
        }
        i = i + 1;
    }
    assert(lines@.take(lines.len() as int) =~= lines@);
    out
}

/// Whether every line is noise.
pub fn all_comment_lines(xs: &Vec<String>) -> (r: bool)
    ensures
        r == all_noise(views(xs@)),
{
    let mut i: usize = 0;
    while i < xs.len()
        invariant
            i <= xs.len(),
            forall|k: int| 0 <= k < i ==> #[trigger] is_noise(views(xs@)[k]),
        decreases xs.len() - i,
    {
        if !is_comment_line(xs[i].as_str()) {
            assert(!is_noise(views(xs@)[i as int]));
            return false;
        }
        i = i + 1;
    }
    true
}

/// The lines joined and stripped of whitespace.
fn stripped_concat(xs: &Vec<String>) -> (r: Vec<char>)
    ensures
        r@ == strip_white(concat_all(views(xs@))),
{
    let mut out: Vec<char> = Vec::new();
    let mut i: usize = 0;
    assert(views(xs@).take(0) =~= Seq::<Seq<char>>::empty());
    proof {
        reveal(Seq::filter);
    }
    while i < xs.len()
        invariant
            i <= xs.len(),
            out@ == strip_white(concat_all(views(xs@).take(i as int))),
        decreases xs.len() - i,
    {
        assert(views(xs@).take(i + 1).drop_last() =~= views(xs@).take(i as int));
        let ghost before = concat_all(views(xs@).take(i as int));
        push_stripped(&mut out, xs[i].as_str());
        proof {
            Seq::filter_distributes_over_add(before, xs@[i as int]@, |c: char| !crate::text::is_white(c));
        }
        i = i + 1;
    }
    assert(views(xs@).take(xs.len() as int) =~= views(xs@));
    out
}

/// Whether the old lines and the new lines hold the same text once joined and
/// stripped of whitespace (a reflow).
pub fn is_formatting_only_change(old_lines: &Vec<String>, new_lines: &Vec<String>) -> (r: bool)
    ensures
        r == reflowed(views(old_lines@), views(new_lines@)),
{
    let a = stripped_concat(old_lines);
    let b = stripped_concat(new_lines);
    same_chars(&a, &b)
}

/// Whether two lines differ only cosmetically.
pub fn is_cosmetic_pair(old: &str, new: &str) -> (r: bool)
    ensures
        r == pair_cosmetic(old@, new@),
{
    (is_comment_line(old) && is_comment_line(new)) || is_whitespace_only_change(old, new)
        || is_indentation_only_change(old, new) || is_trailing_whitespace_change(old, new)
        || is_case_only_change(old, new)
}

/// Whether the hunk made of `lines` is cosmetic; context lines play no part.
pub fn analyze_hunk_cosmetic(lines: &[DiffLine]) -> (r: bool)
    ensures
        r == hunk_cosmetic(lines@),
{
    let additions = contents_of_kind(lines, LineType::Add);
    let deletions = contents_of_kind(lines, LineType::Delete);
    let ghost added = views(additions@);
    let ghost removed = views(deletions@);
    if additions.len() == 0 && deletions.len() == 0 {
        return false;
    }
    if additions.len() == 0 {
        return all_comment_lines(&deletions);
    }
    if deletions.len() == 0 {
        return all_comment_lines(&additions);
    }
    if is_formatting_only_change(&deletions, &additions) {
        return true;
    }
    if additions.len() == deletions.len() {
        let mut i: usize = 0;
        while i < additions.len()
            invariant
                i <= additions.len(),
                additions.len() == deletions.len(),
                added == views(additions@),
                removed == views(deletions@),
                added == contents_of(lines@, LineType::Add),
                removed == contents_of(lines@, LineType::Delete),
                added.len() > 0,
                !reflowed(removed, added),
                forall|k: int| 0 <= k < i ==> #[trigger] pair_cosmetic(removed[k], added[k]),
            decreases additions.len() - i,
        {
            if !is_cosmetic_pair(deletions[i].as_str(), additions[i].as_str()) {
                assert(!pair_cosmetic(removed[i as int], added[i as int]));
                assert(added.len() == removed.len());
                assert(!(forall|k: int|
                    0 <= k < added.len() ==> #[trigger] pair_cosmetic(removed[k], added[k])));
                return false;
            }
            i = i + 1;
        }
        return true;
    }
    all_comment_lines(&additions) && all_comment_lines(&deletions)
}

/// Whether a file with these hunks is cosmetic: it has hunks, and each is.
pub fn file_is_cosmetic(hunks: &[DiffHunk]) -> (r: bool)
    ensures
        r == all_hunks_cosmetic(hunks@),
{
    if hunks.len() == 0 {
        return false;
    }
    let mut i: usize = 0;
    while i < hunks.len()
        invariant
            i <= hunks.len(),
            forall|k: int| 0 <= k < i ==> (#[trigger] hunks@[k]).is_cosmetic,
        decreases hunks.len() - i,
    {
        if !hunks[i].is_cosmetic {
            return false;
        }
        i = i + 1;
    }
    true
}

} // verus!

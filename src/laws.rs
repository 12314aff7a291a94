//! Properties of the classifier and the assembled results, proved from the
//! specifications the functions are verified against.
use vstd::prelude::*;
use crate::changes::change_line;
use crate::hunk::{all_hunks_cosmetic, all_noise, contents_of, hunk_cosmetic};
use crate::line::{case_only, is_noise, lower_of};
use crate::model::{DiffHunk, DiffLine, LineType};
use crate::repo::branch_not_found_text;
use crate::text::occurs;

verus! {

/// Two lines that differ only in case lowercase to the same text and are
/// themselves different.
pub proof fn lemma_case_only_lowercases_equal(a: Seq<char>, b: Seq<char>)
    requires
        case_only(a, b),
    ensures
        lower_of(a) == lower_of(b),
        a != b,
{
}

/// The verdict on a hunk depends on its lines alone: the same lines, classified
/// twice, get the same verdict.
pub proof fn lemma_verdict_depends_on_lines_alone(first: Seq<DiffLine>, second: Seq<DiffLine>)
    requires
        first == second,
    ensures
        hunk_cosmetic(first) == hunk_cosmetic(second),
{
}

/// A hunk that only removes lines is cosmetic exactly when every removed line
/// is noise: all comments or blanks make it cosmetic, one line of code does not.
pub proof fn lemma_removal_only_hunk(lines: Seq<DiffLine>)
    requires
        contents_of(lines, LineType::Add).len() == 0,
        contents_of(lines, LineType::Delete).len() > 0,
    ensures
        hunk_cosmetic(lines) == all_noise(contents_of(lines, LineType::Delete)),
        (exists|i: int|
            0 <= i < contents_of(lines, LineType::Delete).len() && !is_noise(
                #[trigger] contents_of(lines, LineType::Delete)[i],
            )) ==> !hunk_cosmetic(lines),
{
}

/// A file is cosmetic exactly when it has hunks and every hunk is; a file
/// without hunks never is.
pub proof fn lemma_file_cosmetic_iff_all_hunks(hunks: Seq<DiffHunk>)
    ensures
        all_hunks_cosmetic(hunks) <==> (hunks.len() > 0 && forall|i: int|
            0 <= i < hunks.len() ==> (#[trigger] hunks[i]).is_cosmetic),
        hunks.len() == 0 ==> !all_hunks_cosmetic(hunks),
{
}

/// The message of a branch-not-found error holds the requested branch name.
pub proof fn lemma_branch_message_names_branch(branch: Seq<char>, detail: Seq<char>)
    ensures
        occurs(branch_not_found_text(branch, detail), branch),
{
    let t = branch_not_found_text(branch, detail);
    let k = "Could not find branch '"@.len() as int;
    assert(t.subrange(k, k + branch.len()) =~= branch);
}

/// The added and removed lines of a hunk as the change-set listing keeps them:
/// context dropped, line numbers forgotten.
pub open spec fn listed_lines(lines: Seq<DiffLine>) -> Seq<DiffLine>
    decreases lines.len(),
{
    if lines.len() == 0 {
        Seq::empty()
    } else {
        let rest = listed_lines(lines.drop_last());
        let l = lines.last();
        if l.line_type == LineType::Context {
            rest
        } else {
            rest.push(change_line(l.content, l.line_type))
        }
    }
}

proof fn lemma_listed_contents(lines: Seq<DiffLine>, kind: LineType)
    requires
        kind != LineType::Context,
    ensures
        contents_of(listed_lines(lines), kind) == contents_of(lines, kind),
    decreases lines.len(),
{
    if lines.len() > 0 {
        lemma_listed_contents(lines.drop_last(), kind);
        let rest = listed_lines(lines.drop_last());
        let l = lines.last();
        if l.line_type != LineType::Context {
            assert(rest.push(change_line(l.content, l.line_type)).drop_last() == rest);
        }
    }
}

/// The change-set listing and the file diff agree on a file whose diff is one
/// hunk: the listing's flag (changed lines present, and cosmetic together) is
/// the hunk's verdict.
pub proof fn lemma_listing_agrees_with_diff(lines: Seq<DiffLine>)
    ensures
        (listed_lines(lines).len() > 0 && hunk_cosmetic(listed_lines(lines))) == hunk_cosmetic(
            lines,
        ),
{
    lemma_listed_contents(lines, LineType::Add);
    lemma_listed_contents(lines, LineType::Delete);
    if listed_lines(lines).len() == 0 {
        assert(listed_lines(lines) =~= Seq::<DiffLine>::empty());
        assert(contents_of(Seq::<DiffLine>::empty(), LineType::Add).len() == 0);
        assert(contents_of(Seq::<DiffLine>::empty(), LineType::Delete).len() == 0);
    }
}

} // verus!

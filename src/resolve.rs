//! Which source supplies a file's hunks: committed history first, then the
//! working tree, then the raw content of an untracked file.
use vstd::prelude::*;
use crate::model::DiffHunk;
use crate::untracked::{looks_binary, untracked_diff, untracked_hunks};

verus! {

/// A place a file's hunks can come from, in the order they are tried.
#[derive(Clone, Copy, Debug, PartialEq, Eq, Structural)]
pub enum DiffSource {
    /// Merge base to HEAD.
    Committed,
    /// Merge base to the working tree and index.
    WorkingTree,
    /// The file's bytes on disk.
    Untracked,
}

/// The source tried after `s`, if any.
pub open spec fn successor(s: DiffSource) -> Option<DiffSource> {
    match s {
        DiffSource::Committed => Some(DiffSource::WorkingTree),
        DiffSource::WorkingTree => Some(DiffSource::Untracked),
        DiffSource::Untracked => None,
    }
}

/// The first source to ask.
pub fn first_source() -> (r: DiffSource)
    ensures
        r == DiffSource::Committed,
{
    DiffSource::Committed
}

/// The source to ask next after `current` gave `found`: none once a source has
/// given a hunk or the last source has been asked.
pub fn next_source(current: DiffSource, found: &Vec<DiffHunk>) -> (r: Option<DiffSource>)
    ensures
        found.len() > 0 ==> r is None,
        found.len() == 0 ==> r == successor(current),
{
    if found.len() > 0 {
        return None;
    }
    match current {
        DiffSource::Committed => Some(DiffSource::WorkingTree),
        DiffSource::WorkingTree => Some(DiffSource::Untracked),
        DiffSource::Untracked => None,
    }
}

/// What the untracked-file source gives: nothing for an absent file (the binary
/// flag of the earlier sources kept), else the whole-file addition of its content.
pub fn untracked_source(content: &Option<Vec<u8>>, prior_binary: bool) -> (r: (
    Vec<DiffHunk>,
    bool,
))
    ensures
        content is None ==> r.0.len() == 0 && r.1 == prior_binary,
        content matches Some(c) ==> untracked_diff(c@, r.0@) && r.1 == (prior_binary
            || looks_binary(c@)),
{
    match content {
        None => (Vec::new(), prior_binary),
        Some(c) => {
            let (hunks, binary) = untracked_hunks(c.as_slice());
            (hunks, prior_binary || binary)
        },
    }
}

} // verus!

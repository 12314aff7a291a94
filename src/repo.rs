//! Errors, branch names, and the choice of a default base branch.
use vstd::prelude::*;
use crate::model::BranchInfo;
use crate::text::str_eq;

verus! {

/// Why a query failed.
#[derive(Clone, Debug, PartialEq, Eq)]
pub enum ReviewError {
    /// The path is not inside a repository.
    RepositoryNotFound(String),
    /// No local or remote-tracking branch has this name.
    BranchNotFound { branch: String, detail: String },
    /// An underlying read failed.
    ReadFailure(String),
    /// The repository is bare.
    NoWorkingDirectory,
}

/// The text of a branch-not-found error.
pub open spec fn branch_not_found_text(branch: Seq<char>, detail: Seq<char>) -> Seq<char> {
    "Could not find branch '"@ + branch + "': "@ + detail
}


/// The message shown for a branch that cannot be found.
pub fn branch_not_found_message(branch: &str, detail: &str) -> (r: String)
    ensures
        r@ == branch_not_found_text(branch@, detail@),
{
    let mut m = String::from_str("Could not find branch '");
    m.append(branch);
    m.append("': ");
    m.append(detail);
    m
}

impl ReviewError {
    /// The human-readable message of the error.
    pub fn message(&self) -> (r: String)
        ensures
            self matches ReviewError::BranchNotFound { branch, detail } ==> r@
                == branch_not_found_text(branch@, detail@),
            self matches ReviewError::RepositoryNotFound(m) ==> r@ == m@,
            self matches ReviewError::ReadFailure(m) ==> r@ == m@,
            self is NoWorkingDirectory ==> r@ == "No working directory"@,
    {
        match self {
            ReviewError::RepositoryNotFound(m) => m.clone(),
            ReviewError::BranchNotFound { branch, detail } => branch_not_found_message(
                branch.as_str(),
                detail.as_str(),
            ),
            ReviewError::ReadFailure(m) => m.clone(),
            ReviewError::NoWorkingDirectory => String::from_str("No working directory"),
        }
    }
}

/// The name under which a remote-tracking branch for `branch` is looked up.
pub fn remote_tracking_name(branch: &str) -> (r: String)
    ensures
        r@ == "origin/"@ + branch@,
{
    let mut m = String::from_str("origin/");
    m.append(branch);
    m
}

pub open spec fn is_local_named(b: BranchInfo, name: Seq<char>) -> bool {
    !b.is_remote && b.name@ == name
}

pub open spec fn has_local(bs: Seq<BranchInfo>, name: Seq<char>) -> bool {
    exists|i: int| 0 <= i < bs.len() && #[trigger] is_local_named(bs[i], name)
}

pub open spec fn is_other_local(b: BranchInfo) -> bool {
    !b.is_remote && !b.is_current
}

/// `j` is the first local branch that is not checked out.
pub open spec fn first_other_local(bs: Seq<BranchInfo>, j: int) -> bool {
    &&& 0 <= j < bs.len()
    &&& is_other_local(bs[j])
    &&& forall|k: int| 0 <= k < j ==> !is_other_local(#[trigger] bs[k])
}

/// The base branch offered by default: a local `main`, else a local `master`,
/// else the first other local branch, else the current branch.
pub open spec fn default_base_of(bs: Seq<BranchInfo>, current: Seq<char>, r: Seq<char>) -> bool {
    if has_local(bs, "main"@) {
        r == "main"@
    } else if has_local(bs, "master"@) {
        r == "master"@
    } else if exists|j: int| first_other_local(bs, j) {
        exists|j: int| first_other_local(bs, j) && r == bs[j].name@
    } else {
        r == current
    }
}

fn find_local(bs: &Vec<BranchInfo>, name: &str) -> (r: bool)
    ensures
        r == has_local(bs@, name@),
{
    let mut i: usize = 0;
    while i < bs.len()
        invariant
            i <= bs.len(),
            forall|k: int| 0 <= k < i ==> !(#[trigger] is_local_named(bs@[k], name@)),
        decreases bs.len() - i,
    {
        if !bs[i].is_remote && str_eq(bs[i].name.as_str(), name) {
            assert(is_local_named(bs@[i as int], name@));
            return true;
        }
        i = i + 1;
    }
    false
}

/// The base branch to offer by default.
pub fn default_base(branches: &Vec<BranchInfo>, current_branch: &str) -> (r: String)
    ensures
        default_base_of(branches@, current_branch@, r@),
{
    if find_local(branches, "main") {
        return String::from_str("main");
    }
    if find_local(branches, "master") {
        return String::from_str("master");
    }
    let mut i: usize = 0;
    while i < branches.len()
        invariant
            i <= branches.len(),
            forall|k: int| 0 <= k < i ==> !is_other_local(#[trigger] branches@[k]),
            !has_local(branches@, "main"@),
            !has_local(branches@, "master"@),
        decreases branches.len() - i,
    {
        if !branches[i].is_remote && !branches[i].is_current {
            assert(first_other_local(branches@, i as int));
            return branches[i].name.clone();
        }
        i = i + 1;
    }
    String::from_str(current_branch)
}

} // verus!

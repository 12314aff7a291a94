//! The change-set listing: a fold over the committed diff's delta and line
//! events, then the working directory's status entries, sorted by path.
use vstd::prelude::*;
use crate::hunk::{analyze_hunk_cosmetic, hunk_cosmetic};
use crate::model::{ChangedFile, DiffLine, FileStatus, LineType};
use crate::order::{
    has_path, lemma_lt_irreflexive, locate, path_lt, sorted_by_path,
};
use crate::text::chars_of;

verus! {

/// One event of a walk over the committed diff.
#[derive(Clone, Debug)]
pub enum ChangeEvent {
    /// A file delta; it starts the file's counts afresh.
    Delta { path: String, status: FileStatus },
    /// A line of a file's diff, with its origin mark (`+`, `-`, or another).
    Line { path: String, origin: char, content: String },
}

/// A working-directory status entry: which of the index and working-tree
/// flags are set for the path.
#[derive(Clone, Debug, PartialEq, Eq)]
pub struct StatusEntry {
    pub path: String,
    pub wt_new: bool,
    pub index_new: bool,
    pub wt_deleted: bool,
    pub index_deleted: bool,
    pub wt_modified: bool,
    pub index_modified: bool,
}

/// Status of a path seen only in the working directory; `None` is skipped.
pub open spec fn status_from_flags(e: StatusEntry) -> Option<FileStatus> {
    if e.wt_new || e.index_new {
        Some(FileStatus::Added)
    } else if e.wt_deleted || e.index_deleted {
        Some(FileStatus::Deleted)
    } else if e.wt_modified || e.index_modified {
        Some(FileStatus::Modified)
    } else {
        None
    }
}

/// The status a working-directory entry gives its path, if any.
pub fn working_status(e: &StatusEntry) -> (r: Option<FileStatus>)
    ensures
        r == status_from_flags(*e),
{
    if e.wt_new || e.index_new {
        Some(FileStatus::Added)
    } else if e.wt_deleted || e.index_deleted {
        Some(FileStatus::Deleted)
    } else if e.wt_modified || e.index_modified {
        Some(FileStatus::Modified)
    } else {
        None
    }
}

/// Per path: status, additions, deletions, and the added and removed lines in order.
pub type Acc = (FileStatus, nat, nat, Seq<DiffLine>);

pub open spec fn change_line(content: String, t: LineType) -> DiffLine {
    DiffLine { content, line_type: t, old_lineno: None, new_lineno: None }
}

/// The committed diff folded into one accumulator per path.
pub open spec fn committed_changes(evs: Seq<ChangeEvent>) -> Map<Seq<char>, Acc>
    decreases evs.len(),
{
    if evs.len() == 0 {
        Map::empty()
    } else {
        let m = committed_changes(evs.drop_last());
        match evs.last() {
            ChangeEvent::Delta { path, status } => m.insert(path@, (status, 0, 0, Seq::empty())),
            ChangeEvent::Line { path, origin, content } => {
                if m.contains_key(path@) && origin == '+' {
                    let a = m[path@];
                    m.insert(path@, (a.0, a.1 + 1, a.2, a.3.push(change_line(content, LineType::Add))))
                } else if m.contains_key(path@) && origin == '-' {
                    let a = m[path@];
                    m.insert(
                        path@,
                        (a.0, a.1, a.2 + 1, a.3.push(change_line(content, LineType::Delete))),
                    )
                } else {
                    m
                }
            },
        }
    }
}

/// Status, additions, deletions, and the cosmetic flag of one row.
pub type Summary = (FileStatus, nat, nat, bool);

/// A path's row: cosmetic when it has changed lines and they form a cosmetic hunk.
pub open spec fn summary_of(a: Acc) -> Summary {
    (a.0, a.1, a.2, a.3.len() > 0 && hunk_cosmetic(a.3))
}

/// Rows added for working-directory entries whose paths have none yet.
pub open spec fn with_status(m: Map<Seq<char>, Summary>, sts: Seq<StatusEntry>) -> Map<
    Seq<char>,
    Summary,
>
    decreases sts.len(),
{
    if sts.len() == 0 {
        m
    } else {
        let prev = with_status(m, sts.drop_last());
        let e = sts.last();
        if !prev.contains_key(e.path@) && status_from_flags(e) is Some {
            prev.insert(e.path@, (status_from_flags(e)->0, 0, 0, false))
        } else {
            prev
        }
    }
}

/// The rows of the change set, by path.
pub open spec fn change_set(evs: Seq<ChangeEvent>, sts: Seq<StatusEntry>) -> Map<
    Seq<char>,
    Summary,
> {
    with_status(committed_changes(evs).map_values(|a: Acc| summary_of(a)), sts)
}

pub open spec fn row_summary(f: ChangedFile) -> Summary {
    (f.status, f.additions as nat, f.deletions as nat, f.is_cosmetic)
}

/// `fs` lists the rows of `m`, one per path, sorted by path.
pub open spec fn lists_exactly(fs: Seq<ChangedFile>, m: Map<Seq<char>, Summary>) -> bool {
    &&& sorted_by_path(fs)
    &&& forall|i: int|
        0 <= i < fs.len() ==> m.contains_key(#[trigger] fs[i].path@) && m[fs[i].path@]
            == row_summary(fs[i])
    &&& forall|k: Seq<char>| #[trigger] m.contains_key(k) ==> has_path(fs, k)
}

/// The rows and line lists follow the accumulators of `m`.
pub open spec fn tracks(fs: Seq<ChangedFile>, ls: Seq<Vec<DiffLine>>, m: Map<Seq<char>, Acc>) -> bool {
    &&& fs.len() == ls.len()
    &&& sorted_by_path(fs)
    &&& forall|i: int|
        0 <= i < fs.len() ==> m.contains_key(#[trigger] fs[i].path@) && m[fs[i].path@] == (
            fs[i].status,
            fs[i].additions as nat,
            fs[i].deletions as nat,
            ls[i]@,
        )
    &&& forall|k: Seq<char>| #[trigger] m.contains_key(k) ==> has_path(fs, k)
}

proof fn lemma_distinct_paths(fs: Seq<ChangedFile>, i: int, j: int)
    requires
        sorted_by_path(fs),
        0 <= i < fs.len(),
        0 <= j < fs.len(),
        i != j,
    ensures
        fs[i].path@ != fs[j].path@,
{
    lemma_lt_irreflexive(fs[i].path@);
    if i < j {
        assert(path_lt(fs[i].path@, fs[j].path@));
    } else {
        assert(path_lt(fs[j].path@, fs[i].path@));
    }
}

/// Inserting a row at its sorted place keeps the rows sorted and adds its path.
proof fn lemma_insert_row(fs: Seq<ChangedFile>, p: int, f: ChangedFile)
    requires
        sorted_by_path(fs),
        0 <= p <= fs.len(),
        forall|i: int| 0 <= i < p ==> path_lt(#[trigger] fs[i].path@, f.path@),
        forall|i: int| p <= i < fs.len() ==> path_lt(f.path@, #[trigger] fs[i].path@),
    ensures
        sorted_by_path(fs.insert(p, f)),
        fs.insert(p, f).len() == fs.len() + 1,
        fs.insert(p, f)[p] == f,
        forall|i: int| 0 <= i < p ==> #[trigger] fs.insert(p, f)[i] == fs[i],
        forall|i: int| p < i <= fs.len() ==> #[trigger] fs.insert(p, f)[i] == fs[i - 1],
        forall|k: Seq<char>| has_path(fs, k) ==> #[trigger] has_path(fs.insert(p, f), k),
        has_path(fs.insert(p, f), f.path@),
        forall|i: int| 0 <= i < fs.len() ==> #[trigger] fs[i].path@ != f.path@,
{
    fs.insert_ensures(p, f);
    let g = fs.insert(p, f);
    assert forall|i: int, j: int| 0 <= i < j < g.len() implies path_lt(
        #[trigger] g[i].path@,
        #[trigger] g[j].path@,
    ) by {
        if j < p {
        } else if j == p {
        } else if i < p {
            crate::order::lemma_lt_transitive(g[i].path@, f.path@, g[j].path@);
        } else if i == p {
        } else {
            assert(g[i] == fs[i - 1] && g[j] == fs[j - 1]);
        }
    }
    assert forall|k: Seq<char>| has_path(fs, k) implies #[trigger] has_path(g, k) by {
        let i = choose|i: int| 0 <= i < fs.len() && #[trigger] fs[i].path@ == k;
        if i < p {
            assert(g[i].path@ == k);
        } else {
            assert(g[i + 1].path@ == k);
        }
    }
    assert(g[p].path@ == f.path@);
    assert forall|i: int| 0 <= i < fs.len() implies #[trigger] fs[i].path@ != f.path@ by {
        lemma_lt_irreflexive(f.path@);
    }
}

fn new_row(path: &String, status: FileStatus) -> (r: ChangedFile)
    ensures
        r.path == *path,
        r.status == status,
        r.additions == 0,
        r.deletions == 0,
        !r.is_cosmetic,
{
    ChangedFile { path: path.clone(), status, additions: 0, deletions: 0, is_cosmetic: false }
}

/// Folds the committed diff's events into rows sorted by path, each with its
/// added and removed lines.
fn fold_committed(events: &Vec<ChangeEvent>) -> (r: (Vec<ChangedFile>, Vec<Vec<DiffLine>>))
    ensures
        tracks(r.0@, r.1@, committed_changes(events@)),
        forall|i: int| 0 <= i < r.0.len() ==> !(#[trigger] r.0@[i]).is_cosmetic,
{
    let mut files: Vec<ChangedFile> = Vec::new();
    let mut lines: Vec<Vec<DiffLine>> = Vec::new();
    let mut n: usize = 0;
    while n < events.len()
        invariant
            n <= events.len(),
            tracks(files@, lines@, committed_changes(events@.take(n as int))),
            forall|i: int|
                0 <= i < files.len() ==> (#[trigger] files@[i]).additions <= n
                    && files@[i].deletions <= n && !files@[i].is_cosmetic,
        decreases events.len() - n,
    {
        assert(events@.take(n + 1).drop_last() =~= events@.take(n as int));
        let ghost m = committed_changes(events@.take(n as int));
        let ghost fs0 = files@;
        let ghost ls0 = lines@;
        match &events[n] {
            ChangeEvent::Delta { path, status } => {
                let key = chars_of(path.as_str());
                let (p, found) = locate(&files, &key);
                let row = new_row(path, *status);
                let ghost m2 = m.insert(path@, (*status, 0nat, 0nat, Seq::<DiffLine>::empty()));
                assert(committed_changes(events@.take(n + 1)) == m2);
                if found {
                    files.set(p, row);
                    lines.set(p, Vec::new());
                    assert forall|i: int| 0 <= i < files.len() implies m2.contains_key(
                        #[trigger] files@[i].path@,
                    ) && m2[files@[i].path@] == (
                        files@[i].status,
                        files@[i].additions as nat,
                        files@[i].deletions as nat,
                        lines@[i]@,
                    ) by {
                        if i != p {
                            lemma_distinct_paths(fs0, i, p as int);
                        }
                    }
                    assert forall|k: Seq<char>| #[trigger] m2.contains_key(k) implies has_path(
                        files@,
                        k,
                    ) by {
                        if k != path@ {
                            let i = choose|i: int| 0 <= i < fs0.len() && #[trigger] fs0[i].path@ == k;
                            assert(files@[i].path@ == k);
                        } else {
                            assert(files@[p as int].path@ == k);
                        }
                    }
                    assert(sorted_by_path(files@)) by {
                        assert forall|i: int, j: int| 0 <= i < j < files.len() implies path_lt(
                            #[trigger] files@[i].path@,
                            #[trigger] files@[j].path@,
                        ) by {
                            assert(path_lt(fs0[i].path@, fs0[j].path@));
                        }
                    }
                } else {
                    let empty: Vec<DiffLine> = Vec::new();
                    proof {
                        lemma_insert_row(fs0, p as int, row);
                        ls0.insert_ensures(p as int, empty);
                    }
                    files.insert(p, row);
                    lines.insert(p, empty);
                    assert forall|i: int| 0 <= i < files.len() implies m2.contains_key(
                        #[trigger] files@[i].path@,
                    ) && m2[files@[i].path@] == (
                        files@[i].status,
                        files@[i].additions as nat,
                        files@[i].deletions as nat,
                        lines@[i]@,
                    ) by {
                        if i < p {
                            assert(files@[i] == fs0[i]);
                        } else if i > p {
                            assert(files@[i] == fs0[i - 1]);
                        }
                    }
                    assert forall|k: Seq<char>| #[trigger] m2.contains_key(k) implies has_path(
                        files@,
                        k,
                    ) by {
                        if k != path@ {
                            assert(has_path(fs0, k));
                        }
                    }
                    assert forall|i: int| 0 <= i < files.len() implies (
                    #[trigger] files@[i]).additions <= n + 1 && files@[i].deletions <= n + 1
                        && !files@[i].is_cosmetic by {
                        if i < p {
                            assert(files@[i] == fs0[i]);
                        } else if i > p {
                            assert(files@[i] == fs0[i - 1]);
                        }
                    }
                }
            },
            ChangeEvent::Line { path, origin, content } => {
                let key = chars_of(path.as_str());
                let (p, found) = locate(&files, &key);
                if found && (*origin == '+' || *origin == '-') {
                    let ghost a = m[path@];
                    let add = *origin == '+';
                    let t = if add {
                        LineType::Add
                    } else {
                        LineType::Delete
                    };
                    let line = DiffLine {
                        content: content.clone(),
                        line_type: t,
                        old_lineno: None,
                        new_lineno: None,
                    };
                    if add {
                        files[p].additions = files[p].additions + 1;
                    } else {
                        files[p].deletions = files[p].deletions + 1;
                    }
                    lines[p].push(line);
                    let ghost m2 = m.insert(
                        path@,
                        (
                            files@[p as int].status,
                            files@[p as int].additions as nat,
                            files@[p as int].deletions as nat,
                            lines@[p as int]@,
                        ),
                    );
                    assert(committed_changes(events@.take(n + 1)) == m2);
                    assert forall|i: int| 0 <= i < files.len() implies m2.contains_key(
                        #[trigger] files@[i].path@,
                    ) && m2[files@[i].path@] == (
                        files@[i].status,
                        files@[i].additions as nat,
                        files@[i].deletions as nat,
                        lines@[i]@,
                    ) by {
                        if i != p {
                            lemma_distinct_paths(fs0, i, p as int);
                        }
                    }
                    assert forall|k: Seq<char>| #[trigger] m2.contains_key(k) implies has_path(
                        files@,
                        k,
                    ) by {
                        let i = choose|i: int| 0 <= i < fs0.len() && #[trigger] fs0[i].path@ == k;
                        assert(files@[i].path@ == k);
                    }
                    assert(sorted_by_path(files@)) by {
                        assert forall|i: int, j: int| 0 <= i < j < files.len() implies path_lt(
                            #[trigger] files@[i].path@,
                            #[trigger] files@[j].path@,
                        ) by {
                            assert(path_lt(fs0[i].path@, fs0[j].path@));
                        }
                    }
                } else {
                    assert(committed_changes(events@.take(n + 1)) == m);
                }
            },
        }
        n = n + 1;
    }
    assert(events@.take(events.len() as int) =~= events@);
    (files, lines)
}

/// Sets each row's cosmetic flag from its changed lines.
fn mark_cosmetic(
    files: &mut Vec<ChangedFile>,
    lines: &Vec<Vec<DiffLine>>,
    Ghost(m): Ghost<Map<Seq<char>, Acc>>,
)
    requires
        tracks(old(files)@, lines@, m),
    ensures
        lists_exactly(final(files)@, m.map_values(|a: Acc| summary_of(a))),
{
    let ghost fs0 = files@;
    let ghost m0 = m.map_values(|a: Acc| summary_of(a));
    let mut i: usize = 0;
    while i < files.len()
        invariant
            i <= files.len(),
            files.len() == fs0.len(),
            tracks(fs0, lines@, m),
            forall|k: int|
                0 <= k < files.len() ==> (#[trigger] files@[k]).path == fs0[k].path
                    && files@[k].status == fs0[k].status && files@[k].additions
                    == fs0[k].additions && files@[k].deletions == fs0[k].deletions,
            forall|k: int|
                0 <= k < i ==> (#[trigger] files@[k]).is_cosmetic == (lines@[k]@.len() > 0
                    && hunk_cosmetic(lines@[k]@)),
        decreases fs0.len() - i,
    {
        let c = lines[i].len() > 0 && analyze_hunk_cosmetic(lines[i].as_slice());
        files[i].is_cosmetic = c;
        i = i + 1;
    }
    assert forall|k: int| 0 <= k < files.len() implies m0.contains_key(
        #[trigger] files@[k].path@,
    ) && m0[files@[k].path@] == row_summary(files@[k]) by {
        assert(fs0[k].path@ == files@[k].path@);
    }
    assert forall|k: Seq<char>| #[trigger] m0.contains_key(k) implies has_path(files@, k) by {
        assert(m.contains_key(k));
        let j = choose|j: int| 0 <= j < fs0.len() && #[trigger] fs0[j].path@ == k;
        assert(files@[j].path@ == k);
    }
    assert(sorted_by_path(files@)) by {
        assert forall|a: int, b: int| 0 <= a < b < files.len() implies path_lt(
            #[trigger] files@[a].path@,
            #[trigger] files@[b].path@,
        ) by {
            assert(path_lt(fs0[a].path@, fs0[b].path@));
        }
    }
}

/// Adds a row for each working-directory entry whose path has none yet.
fn merge_statuses(
    files: &mut Vec<ChangedFile>,
    statuses: &Vec<StatusEntry>,
    Ghost(m): Ghost<Map<Seq<char>, Summary>>,
)
    requires
        lists_exactly(old(files)@, m),
    ensures
        lists_exactly(final(files)@, with_status(m, statuses@)),
{
    let mut s: usize = 0;
    while s < statuses.len()
        invariant
            s <= statuses.len(),
            lists_exactly(files@, with_status(m, statuses@.take(s as int))),
        decreases statuses.len() - s,
    {
        assert(statuses@.take(s + 1).drop_last() =~= statuses@.take(s as int));
        let ghost prev = with_status(m, statuses@.take(s as int));
        let ghost fs0 = files@;
        let e = &statuses[s];
        let key = chars_of(e.path.as_str());
        let (p, found) = locate(&files, &key);
        if found {
            assert(prev.contains_key(e.path@));
        } else {
            assert(!prev.contains_key(e.path@));
            match working_status(e) {
                None => {},
                Some(st) => {
                    let row = new_row(&e.path, st);
                    let ghost m2 = prev.insert(e.path@, (st, 0nat, 0nat, false));
                    assert(with_status(m, statuses@.take(s + 1)) == m2);
                    proof {
                        lemma_insert_row(fs0, p as int, row);
                    }
                    files.insert(p, row);
                    assert forall|i: int| 0 <= i < files.len() implies m2.contains_key(
                        #[trigger] files@[i].path@,
                    ) && m2[files@[i].path@] == row_summary(files@[i]) by {
                        if i < p {
                            assert(files@[i] == fs0[i]);
                        } else if i > p {
                            assert(files@[i] == fs0[i - 1]);
                        }
                    }
                    assert forall|k: Seq<char>| #[trigger] m2.contains_key(k) implies has_path(
                        files@,
                        k,
                    ) by {
                        if k != e.path@ {
                            assert(has_path(fs0, k));
                        }
                    }
                },
            }
        }
        s = s + 1;
    }
    assert(statuses@.take(statuses.len() as int) =~= statuses@);
}

/// The change-set listing: one row per path of the committed diff, with its
/// status, line counts and cosmetic flag, then one row for each working-directory
/// entry whose path has none, all sorted by path.
pub fn changed_files(events: &Vec<ChangeEvent>, statuses: &Vec<StatusEntry>) -> (r: Vec<
    ChangedFile,
>)
    ensures
        lists_exactly(r@, change_set(events@, statuses@)),
{
    let (mut files, lines) = fold_committed(events);
    mark_cosmetic(&mut files, &lines, Ghost(committed_changes(events@)));
    merge_statuses(
        &mut files,
        statuses,
        Ghost(committed_changes(events@).map_values(|a: Acc| summary_of(a))),
    );
    files
}

} // verus!

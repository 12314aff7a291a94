//! Ordering of paths: lexicographic by character, which is also the order of
//! their UTF-8 bytes.
use vstd::prelude::*;
use crate::model::ChangedFile;
use crate::text::chars_of;

verus! {

/// `a` comes strictly before `b`.
pub open spec fn path_lt(a: Seq<char>, b: Seq<char>) -> bool
    decreases a.len(),
{
    if a.len() == 0 {
        b.len() > 0
    } else if b.len() == 0 {
        false
    } else if a[0] != b[0] {
        a[0] < b[0]
    } else {
        path_lt(a.drop_first(), b.drop_first())
    }
}

/// Every row comes strictly before the rows after it.
pub open spec fn sorted_by_path(fs: Seq<ChangedFile>) -> bool {
    forall|i: int, j: int| 0 <= i < j < fs.len() ==> path_lt(#[trigger] fs[i].path@, #[trigger] fs[j].path@)
}

/// Some row has path `k`.
pub open spec fn has_path(fs: Seq<ChangedFile>, k: Seq<char>) -> bool {
    exists|i: int| 0 <= i < fs.len() && #[trigger] fs[i].path@ == k
}

pub proof fn lemma_lt_irreflexive(a: Seq<char>)
    ensures
        !path_lt(a, a),
    decreases a.len(),
{
    if a.len() > 0 {
        lemma_lt_irreflexive(a.drop_first());
    }
}

pub proof fn lemma_lt_total(a: Seq<char>, b: Seq<char>)
    ensures
        a == b || path_lt(a, b) || path_lt(b, a),
    decreases a.len(),
{
    if a.len() > 0 && b.len() > 0 && a[0] == b[0] {
        lemma_lt_total(a.drop_first(), b.drop_first());
        if a.drop_first() == b.drop_first() {
            assert(a =~= seq![a[0]] + a.drop_first());
            assert(b =~= seq![b[0]] + b.drop_first());
        }
    }
    if a.len() == 0 && b.len() == 0 {
        assert(a =~= b);
    }
}

pub proof fn lemma_lt_transitive(a: Seq<char>, b: Seq<char>, c: Seq<char>)
    requires
        path_lt(a, b),
        path_lt(b, c),
    ensures
        path_lt(a, c),
    decreases a.len(),
{
    if a.len() > 0 && b.len() > 0 && c.len() > 0 && a[0] == b[0] && b[0] == c[0] {
        lemma_lt_transitive(a.drop_first(), b.drop_first(), c.drop_first());
    }
}

/// Whether `a` comes strictly before `b`.
pub fn chars_lt(a: &Vec<char>, b: &Vec<char>) -> (r: bool)
    ensures
        r == path_lt(a@, b@),
{
    let mut i: usize = 0;
    assert(a@.subrange(0, a.len() as int) =~= a@);
    assert(b@.subrange(0, b.len() as int) =~= b@);
    loop
        invariant
            i <= a.len(),
            i <= b.len(),
            path_lt(a@, b@) == path_lt(
                a@.subrange(i as int, a.len() as int),
                b@.subrange(i as int, b.len() as int),
            ),
        decreases a.len() - i,
    {
        if i == a.len() {
            return i < b.len();
        }
        if i == b.len() {
            return false;
        }
        if a[i] != b[i] {
            return a[i] < b[i];
        }
        assert(a@.subrange(i as int, a.len() as int).drop_first() =~= a@.subrange(
            i + 1,
            a.len() as int,
        ));
        assert(b@.subrange(i as int, b.len() as int).drop_first() =~= b@.subrange(
            i + 1,
            b.len() as int,
        ));
        i = i + 1;
    }
}

/// Where `key` stands among the sorted rows: the index of the row with that
/// path (and `true`), or the index at which such a row would be inserted.
pub fn locate(files: &Vec<ChangedFile>, key: &Vec<char>) -> (r: (usize, bool))
    requires
        sorted_by_path(files@),
    ensures
        r.0 <= files.len(),
        forall|i: int| 0 <= i < r.0 ==> path_lt(#[trigger] files@[i].path@, key@),
        r.1 ==> r.0 < files.len() && files@[r.0 as int].path@ == key@,
        !r.1 ==> forall|i: int| r.0 <= i < files.len() ==> path_lt(key@, #[trigger] files@[i].path@),
        r.1 == has_path(files@, key@),
{
    let mut j: usize = 0;
    while j < files.len()
        invariant
            j <= files.len(),
            sorted_by_path(files@),
            forall|i: int| 0 <= i < j ==> path_lt(#[trigger] files@[i].path@, key@),
        decreases files.len() - j,
    {
        let p = chars_of(files[j].path.as_str());
        if !chars_lt(&p, key) {
            proof {
                lemma_lt_total(p@, key@);
            }
            if !chars_lt(key, &p) {
                return (j, true);
            }
            assert forall|i: int| j <= i < files.len() implies path_lt(key@, #[trigger] files@[i].path@) by {
                if i > j {
                    lemma_lt_transitive(key@, files@[j as int].path@, files@[i].path@);
                }
            }
            assert forall|i: int| 0 <= i < files.len() implies files@[i].path@ != key@ by {
                if i >= j {
                    lemma_lt_irreflexive(key@);
                } else {
                    lemma_lt_irreflexive(key@);
                }
            }
            return (j, false);
        }
        j = j + 1;
    }
    assert forall|i: int| 0 <= i < files.len() implies files@[i].path@ != key@ by {
        lemma_lt_irreflexive(key@);
    }
    (j, false)
}

} // verus!

//! Single-line classification: noise lines and cosmetic differences between two lines.
use vstd::prelude::*;
use crate::text::{
    chars_of, has_prefix, push_stripped, range_starts_with, same_chars, same_range, strip_white,
    trim, trim_bounds, trim_end, trim_start, trailing_white_start,
};

verus! {

/// What `str::to_lowercase` returns for the characters `s`.
pub uninterp spec fn lower_of(s: Seq<char>) -> Seq<char>;

/// Relies on `str::to_lowercase`: the result depends on the characters alone.
#[verifier::external_body]
fn lowercase(s: &str) -> (r: String)
    ensures
        r@ == lower_of(s@),
{
    s.to_lowercase()
}

/// Relies on `String`'s `FromIterator<char>`: the string holds the characters in order.
#[verifier::external_body]
pub(crate) fn string_from_chars(v: &Vec<char>) -> (r: String)
    ensures
        r@ == v@,
{
    v.iter().collect()
}

/// A line that is blank, or whose trimmed text opens with a comment or doc marker.
pub open spec fn is_noise(line: Seq<char>) -> bool {
    let t = trim(line);
    ||| t.len() == 0
    ||| has_prefix(t, "//"@)
    ||| has_prefix(t, "#"@)
    ||| has_prefix(t, "--"@)
    ||| has_prefix(t, ";"@)
    ||| has_prefix(t, "*"@)
    ||| has_prefix(t, "/*"@)
    ||| has_prefix(t, "*/"@)
    ||| has_prefix(t, "'"@)
    ||| has_prefix(t, "\"\"\""@)
    ||| has_prefix(t, "'''"@)
    ||| has_prefix(t, "<!--"@)
    ||| has_prefix(t, "-->"@)
    ||| has_prefix(t, "rem "@)
    ||| has_prefix(lower_of(t), "rem "@)
}

pub open spec fn whitespace_only(a: Seq<char>, b: Seq<char>) -> bool {
    strip_white(a) == strip_white(b)
}

pub open spec fn indentation_only(a: Seq<char>, b: Seq<char>) -> bool {
    trim_start(a) == trim_start(b) && a != b
}

pub open spec fn trailing_only(a: Seq<char>, b: Seq<char>) -> bool {
    trim_end(a) == trim_end(b) && a != b
}

pub open spec fn case_only(a: Seq<char>, b: Seq<char>) -> bool {
    lower_of(a) == lower_of(b) && a != b
}

/// Whether a line is noise: blank, or a comment or doc marker line.
pub fn is_comment_line(line: &str) -> (r: bool)
    ensures
        r == is_noise(line@),
{
    let v = chars_of(line);
    let (lo, hi) = trim_bounds(&v);
    if lo == hi {
        return true;
    }
    if range_starts_with(&v, lo, hi, "//") || range_starts_with(&v, lo, hi, "#")
        || range_starts_with(&v, lo, hi, "--") || range_starts_with(&v, lo, hi, ";")
        || range_starts_with(&v, lo, hi, "*") || range_starts_with(&v, lo, hi, "/*")
        || range_starts_with(&v, lo, hi, "*/") || range_starts_with(&v, lo, hi, "'")
        || range_starts_with(&v, lo, hi, "\"\"\"") || range_starts_with(&v, lo, hi, "'''")
        || range_starts_with(&v, lo, hi, "<!--") || range_starts_with(&v, lo, hi, "-->")
        || range_starts_with(&v, lo, hi, "rem ") {
        return true;
    }
    let lowered = lowercase(line.substring_char(lo, hi));
    let lv = chars_of(lowered.as_str());
    let r = range_starts_with(&lv, 0, lv.len(), "rem ");
    assert(lv@.subrange(0, lv.len() as int) =~= lv@);
    r
}

/// Whether two lines are equal once every whitespace character is removed.
pub fn is_whitespace_only_change(old: &str, new: &str) -> (r: bool)
    ensures
        r == whitespace_only(old@, new@),
{
    let mut a: Vec<char> = Vec::new();
    push_stripped(&mut a, old);
    let mut b: Vec<char> = Vec::new();
    push_stripped(&mut b, new);
    assert(a@ =~= strip_white(old@));
    assert(b@ =~= strip_white(new@));
    same_chars(&a, &b)
}

/// Whether two different lines are equal once leading whitespace is removed.
pub fn is_indentation_only_change(old: &str, new: &str) -> (r: bool)
    ensures
        r == indentation_only(old@, new@),
{
    let a = chars_of(old);
    let b = chars_of(new);
    let (alo, _) = trim_bounds(&a);
    let (blo, _) = trim_bounds(&b);
    same_range(&a, alo, a.len(), &b, blo, b.len()) && !same_chars(&a, &b)
}

/// Whether two different lines are equal once trailing whitespace is removed.
pub fn is_trailing_whitespace_change(old: &str, new: &str) -> (r: bool)
    ensures
        r == trailing_only(old@, new@),
{
    let a = chars_of(old);
    let b = chars_of(new);
    let ahi = trailing_white_start(&a, 0);
    let bhi = trailing_white_start(&b, 0);
    assert(a@.subrange(0, a.len() as int) =~= a@);
    assert(b@.subrange(0, b.len() as int) =~= b@);
    same_range(&a, 0, ahi, &b, 0, bhi) && !same_chars(&a, &b)
}

/// Whether two different lines are equal once lowercased.
pub fn is_case_only_change(old: &str, new: &str) -> (r: bool)
    ensures
        r == case_only(old@, new@),
{
    let lo = lowercase(old);
    let ln = lowercase(new);
    let a = chars_of(old);
    let b = chars_of(new);
    lo == ln && !same_chars(&a, &b)
}

/// The line with every whitespace character removed.
pub fn normalize_content(s: &str) -> (r: String)
    ensures
        r@ == strip_white(s@),
{
    let mut v: Vec<char> = Vec::new();
    push_stripped(&mut v, s);
    assert(v@ =~= strip_white(s@));
    string_from_chars(&v)
}

} // verus!

//! A diff for a file that version control does not know: all of it is new.
use vstd::prelude::*;
use crate::hunk::{analyze_hunk_cosmetic, hunk_cosmetic};
use crate::line::string_from_chars;
use crate::model::{DiffHunk, DiffLine, LineType, views};
use crate::text::chars_of;

verus! {

/// How many leading bytes are searched for a zero byte.
pub const BINARY_SNIFF_LEN: usize = 8000;

/// Content with a zero byte among its first `BINARY_SNIFF_LEN` bytes is binary.
pub open spec fn looks_binary(b: Seq<u8>) -> bool {
    exists|i: int| 0 <= i < b.len() && i < BINARY_SNIFF_LEN && #[trigger] b[i] == 0
}

/// What `String::from_utf8_lossy` makes of the bytes `b`.
pub uninterp spec fn lossy_text(b: Seq<u8>) -> Seq<char>;

/// Relies on `String::from_utf8_lossy`: the text depends on the bytes alone.
#[verifier::external_body]
fn decode_lossy(b: &[u8]) -> (r: String)
    ensures
        r@ == lossy_text(b@),
{
    String::from_utf8_lossy(b).into_owned()
}

/// `x` without one final carriage return.
pub open spec fn strip_cr(x: Seq<char>) -> Seq<char> {
    if x.len() > 0 && x.last() == '\r' {
        x.drop_last()
    } else {
        x
    }
}

/// The finished lines of `s` and the unfinished rest.
pub open spec fn line_split(s: Seq<char>) -> (Seq<Seq<char>>, Seq<char>)
    decreases s.len(),
{
    if s.len() == 0 {
        (Seq::empty(), Seq::empty())
    } else {
        let (done, cur) = line_split(s.drop_last());
        if s.last() == '\n' {
            (done.push(strip_cr(cur)), Seq::empty())
        } else {
            (done, cur.push(s.last()))
        }
    }
}

/// The lines of `s`: ended by `\n` or `\r\n`, the last one's ending optional.
pub open spec fn text_lines(s: Seq<char>) -> Seq<Seq<char>> {
    let (done, cur) = line_split(s);
    if cur.len() == 0 {
        done
    } else {
        done.push(cur)
    }
}

/// Whether the content is binary.
pub fn is_binary_content(content: &[u8]) -> (r: bool)
    ensures
        r == looks_binary(content@),
{
    let mut i: usize = 0;
    while i < content.len() && i < BINARY_SNIFF_LEN
        invariant
            i <= content.len(),
            i <= BINARY_SNIFF_LEN,
            forall|k: int| 0 <= k < i ==> #[trigger] content@[k] != 0,
        decreases content.len() - i,
    {
        if content[i] == 0 {
            return true;
        }
        i = i + 1;
    }
    false
}

fn drop_cr(cur: &mut Vec<char>)
    ensures
        final(cur)@ == strip_cr(old(cur)@),
{
    if cur.len() > 0 && cur[cur.len() - 1] == '\r' {
        cur.pop();
    }
}

/// The lines of `s`, as `str::lines` splits them.
pub fn split_lines(s: &str) -> (r: Vec<String>)
    ensures
        views(r@) == text_lines(s@),
{
    let v = chars_of(s);
    let mut done: Vec<String> = Vec::new();
    let mut cur: Vec<char> = Vec::new();
    let mut i: usize = 0;
    while i < v.len()
        invariant
            i <= v.len(),
            v@ == s@,
            (views(done@), cur@) == line_split(v@.take(i as int)),
        decreases v.len() - i,
    {
        assert(v@.take(i + 1).drop_last() =~= v@.take(i as int));
        if v[i] == '\n' {
            drop_cr(&mut cur);
            done.push(string_from_chars(&cur));
            cur = Vec::new();
            assert(views(done@) =~= line_split(v@.take(i + 1)).0);
            assert(cur@ =~= line_split(v@.take(i + 1)).1);
        } else {
            cur.push(v[i]);
        }
        i = i + 1;
    }
    assert(v@.take(v.len() as int) =~= v@);
    if cur.len() > 0 {
        done.push(string_from_chars(&cur));
        assert(views(done@) =~= text_lines(s@));
    }
    done
}

/// Whether `l` is the `i`-th line of a whole-file addition whose text is `text`.
pub open spec fn is_new_file_line(l: DiffLine, text: Seq<Seq<char>>, i: int) -> bool {
    &&& l.content@ == text[i].push('\n')
    &&& l.line_type == LineType::Add
    &&& l.old_lineno is None
    &&& l.new_lineno == Some((i + 1) as u32)
}

/// The hunks of a whole-file addition of `content`: none for binary content or
/// content without lines, else one hunk that adds every line, numbered from 1.
pub open spec fn untracked_diff(content: Seq<u8>, hunks: Seq<DiffHunk>) -> bool {
    let text = text_lines(lossy_text(content));
    if looks_binary(content) || text.len() == 0 {
        hunks.len() == 0
    } else {
        &&& hunks.len() == 1
        &&& hunks[0].old_start == 0
        &&& hunks[0].old_lines == 0
        &&& hunks[0].new_start == 1
        &&& hunks[0].new_lines == text.len() as u32
        &&& hunks[0].lines.len() == text.len()
        &&& forall|i: int|
            0 <= i < text.len() ==> #[trigger] is_new_file_line(hunks[0].lines@[i], text, i)
        &&& hunks[0].is_cosmetic == hunk_cosmetic(hunks[0].lines@)
    }
}

/// The diff of an untracked file's content: nothing for binary content, else one
/// hunk that adds every line, numbered from 1; the flag says whether it is binary.
pub fn untracked_hunks(content: &[u8]) -> (r: (Vec<DiffHunk>, bool))
    ensures
        r.1 == looks_binary(content@),
        untracked_diff(content@, r.0@),
{
    if is_binary_content(content) {
        return (Vec::new(), true);
    }
    let text = decode_lossy(content);
    let split = split_lines(text.as_str());
    let ghost tl = text_lines(lossy_text(content@));
    let mut lines: Vec<DiffLine> = Vec::new();
    let mut i: usize = 0;
    while i < split.len()
        invariant
            i <= split.len(),
            views(split@) == tl,
            lines.len() == i,
            forall|k: int| 0 <= k < i ==> #[trigger] is_new_file_line(lines@[k], tl, k),
        decreases split.len() - i,
    {
        let mut c = split[i].clone();
        c.append("\n");
        proof {
            reveal_strlit("\n");
            assert(c@ =~= tl[i as int].push('\n'));
        }
        lines.push(
            DiffLine {
                content: c,
                line_type: LineType::Add,
                old_lineno: None,
                new_lineno: Some((i + 1) as u32),
            },
        );
        assert(is_new_file_line(lines@[i as int], tl, i as int));
        i = i + 1;
    }
    if lines.len() == 0 {
        return (Vec::new(), false);
    }
    let is_cosmetic = analyze_hunk_cosmetic(lines.as_slice());
    let n = lines.len() as u32;
    let hunk = DiffHunk { old_start: 0, old_lines: 0, new_start: 1, new_lines: n, lines, is_cosmetic };
    let mut hunks: Vec<DiffHunk> = Vec::new();
    hunks.push(hunk);
    (hunks, false)
}

} // verus!

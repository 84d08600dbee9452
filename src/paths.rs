//! Paths as written with `'/'` separators: a file's name and stem.
use vstd::prelude::*;
use crate::text::{chars_of, string_of_range};

verus! {

pub const HTML_EXT: &'static str = ".html";

/// The index of the last `c` in `s`.
pub open spec fn last_pos(s: Seq<char>, c: char) -> Option<int>
    decreases s.len(),
{
    if s.len() == 0 {
        None
    } else if s.last() == c {
        Some(s.len() - 1)
    } else {
        last_pos(s.drop_last(), c)
    }
}

/// The last component of `p`: what follows its last `'/'`.
pub open spec fn file_name(p: Seq<char>) -> Seq<char> {
    match last_pos(p, '/') {
        Some(i) => p.skip(i + 1),
        None => p,
    }
}

/// The file name of `p` without its extension; a name whose only `'.'` leads
/// it has none.
pub open spec fn file_stem(p: Seq<char>) -> Seq<char> {
    let n = file_name(p);
    match last_pos(n, '.') {
        Some(d) => if d > 0 {
            n.take(d)
        } else {
            n
        },
        None => n,
    }
}

/// The index of the last `c` in `v[from..to]`, counted from `from`.
pub fn find_last(v: &Vec<char>, from: usize, to: usize, c: char) -> (r: Option<usize>)
    requires
        from <= to <= v@.len(),
    ensures
        r matches Some(i) ==> from + i < to && last_pos(v@.subrange(from as int, to as int), c)
            == Some(i as int),
        r is None ==> last_pos(v@.subrange(from as int, to as int), c) is None,
{
    let mut j = to;
    while j > from
        invariant
            from <= j <= to <= v@.len(),
            last_pos(v@.subrange(from as int, to as int), c) == last_pos(
                v@.subrange(from as int, j as int),
                c,
            ),
        decreases j - from,
    {
        assert(v@.subrange(from as int, j as int).drop_last() =~= v@.subrange(
            from as int,
            j - 1,
        ));
        if v[j - 1] == c {
            return Some(j - 1 - from);
        }
        j = j - 1;
    }
    None
}

/// The start of the file name of `v` within `v`.
pub fn file_name_start(v: &Vec<char>) -> (a: usize)
    ensures
        a <= v@.len(),
        v@.skip(a as int) == file_name(v@),
{
    assert(v@.subrange(0, v@.len() as int) =~= v@);
    match find_last(v, 0, v.len(), '/') {
        Some(i) => i + 1,
        None => 0,
    }
}

/// The bounds of the stem of `v` within `v`.
pub fn file_stem_range(v: &Vec<char>) -> (r: (usize, usize))
    ensures
        r.0 <= r.1 <= v@.len(),
        v@.subrange(r.0 as int, r.1 as int) == file_stem(v@),
{
    let a = file_name_start(v);
    match find_last(v, a, v.len(), '.') {
        Some(d) => {
            if d > 0 {
                (a, a + d)
            } else {
                (a, v.len())
            }
        },
        None => (a, v.len()),
    }
}

/// The stem of the file that `p` names.
pub fn file_stem_of(p: &str) -> (r: String)
    ensures
        r@ == file_stem(p@),
{
    let v = chars_of(p);
    let (a, b) = file_stem_range(&v);
    string_of_range(&v, a, b)
}

/// The file name of the page generated from the post at `md_file`: its stem
/// with `.html` appended.
pub open spec fn page_name(md_file: Seq<char>) -> Seq<char> {
    file_stem(md_file) + HTML_EXT@
}

pub fn page_name_of(md_file: &str) -> (r: String)
    ensures
        r@ == page_name(md_file@),
{
    file_stem_of(md_file).concat(HTML_EXT)
}

} // verus!

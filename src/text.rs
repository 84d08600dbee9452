//! Character-level text operations, each stated over `Seq<char>`.
use vstd::prelude::*;

verus! {

/// The Unicode `White_Space` characters, which `char::is_whitespace` accepts.
pub open spec fn is_space(c: char) -> bool {
    let u = c as u32;
    (9 <= u <= 13) || u == 32 || u == 0x85 || u == 0xa0 || u == 0x1680 || (0x2000 <= u <= 0x200a)
        || u == 0x2028 || u == 0x2029 || u == 0x202f || u == 0x205f || u == 0x3000
}

pub fn is_space_char(c: char) -> (r: bool)
    ensures
        r == is_space(c),
{
    let u = c as u32;
    (9 <= u && u <= 13) || u == 32 || u == 0x85 || u == 0xa0 || u == 0x1680 || (0x2000 <= u && u
        <= 0x200a) || u == 0x2028 || u == 0x2029 || u == 0x202f || u == 0x205f || u == 0x3000
}

/// The characters of `s`, in order.
pub fn chars_of(s: &str) -> (r: Vec<char>)
    ensures
        r@ == s@,
{
    let mut r: Vec<char> = Vec::new();
    for c in it: s.chars()
        invariant
            it.seq() == s@,
            r@ == s@.take(it.index() as int),
    {
        r.push(c);
    }
    r
}

/// Relies on `String::push`: appends one character at the end.
#[verifier::external_body]
pub(crate) fn push_char(s: &mut String, c: char)
    ensures
        final(s)@ == old(s)@.push(c),
{
    s.push(c)
}

/// Appends `v[from..to]` to `out`.
pub fn push_range(out: &mut String, v: &Vec<char>, from: usize, to: usize)
    requires
        from <= to <= v@.len(),
    ensures
        final(out)@ == old(out)@ + v@.subrange(from as int, to as int),
{
    let mut i = from;
    while i < to
        invariant
            from <= i <= to <= v@.len(),
            out@ == old(out)@ + v@.subrange(from as int, i as int),
        decreases to - i,
    {
        push_char(out, v[i]);
        i = i + 1;
    }
}

/// A copy of `v[from..to]` as a string.
pub fn string_of_range(v: &Vec<char>, from: usize, to: usize) -> (r: String)
    requires
        from <= to <= v@.len(),
    ensures
        r@ == v@.subrange(from as int, to as int),
{
    let mut r = String::new();
    push_range(&mut r, v, from, to);
    r
}

/// The views of a sequence of strings.
pub open spec fn views(v: Seq<String>) -> Seq<Seq<char>> {
    v.map_values(|x: String| x@)
}

/// A line as `str::lines` yields it: the `'\r'` of a `"\r\n"` ending removed.
pub open spec fn strip_cr(l: Seq<char>) -> Seq<char> {
    if l.len() > 0 && l.last() == '\r' {
        l.drop_last()
    } else {
        l
    }
}

/// Reading `s` left to right: the lines already ended by a `'\n'`, and the
/// characters seen since the last `'\n'`.
pub open spec fn lines_scan(s: Seq<char>) -> (Seq<Seq<char>>, Seq<char>)
    decreases s.len(),
{
    if s.len() == 0 {
        (seq![], seq![])
    } else {
        let (done, cur) = lines_scan(s.drop_last());
        if s.last() == '\n' {
            (done.push(strip_cr(cur)), seq![])
        } else {
            (done, cur.push(s.last()))
        }
    }
}

/// The lines of `s`, split at `"\n"` or `"\r\n"`; a final line ending is optional.
pub open spec fn lines(s: Seq<char>) -> Seq<Seq<char>> {
    let (done, cur) = lines_scan(s);
    if cur.len() == 0 {
        done
    } else {
        done.push(cur)
    }
}

/// The lines of `v`, as `str::lines` gives them.
pub fn split_lines(v: &Vec<char>) -> (r: Vec<String>)
    ensures
        views(r@) == lines(v@),
{
    let mut r: Vec<String> = Vec::new();
    let mut start: usize = 0;
    let mut i: usize = 0;
    while i < v.len()
        invariant
            start <= i <= v@.len(),
            lines_scan(v@.take(i as int)) == (views(r@), v@.subrange(start as int, i as int)),
        decreases v@.len() - i,
    {
        assert(v@.take(i + 1).drop_last() =~= v@.take(i as int));
        if v[i] == '\n' {
            let mut end = i;
            if end > start && v[end - 1] == '\r' {
                end = end - 1;
            }
            let line = string_of_range(v, start, end);
            proof {
                let cur = v@.subrange(start as int, i as int);
                assert(strip_cr(cur) =~= v@.subrange(start as int, end as int));
            }
            r.push(line);
            start = i + 1;
        } else {
            assert(v@.subrange(start as int, i + 1) =~= v@.subrange(start as int, i as int).push(
                v@[i as int],
            ));
        }
        i = i + 1;
    }
    assert(v@.take(i as int) =~= v@);
    if start < i {
        let last = string_of_range(v, start, i);
        r.push(last);
    }
    r
}

/// A line that holds only whitespace.
pub open spec fn is_blank(l: Seq<char>) -> bool {
    forall|i: int| 0 <= i < l.len() ==> is_space(#[trigger] l[i])
}

pub fn is_blank_line(l: &str) -> (r: bool)
    ensures
        r == is_blank(l@),
{
    let v = chars_of(l);
    let mut i: usize = 0;
    while i < v.len()
        invariant
            i <= v@.len(),
            v@ == l@,
            forall|j: int| 0 <= j < i ==> is_space(#[trigger] v@[j]),
        decreases v@.len() - i,
    {
        if !is_space_char(v[i]) {
            return false;
        }
        i = i + 1;
    }
    true
}

/// `ls` without its leading blank lines.
pub open spec fn skip_blank(ls: Seq<Seq<char>>) -> Seq<Seq<char>>
    decreases ls.len(),
{
    if ls.len() > 0 && is_blank(ls[0]) {
        skip_blank(ls.drop_first())
    } else {
        ls
    }
}

/// The index of the first line of `ls[from..]` that is not blank.
pub fn first_non_blank(ls: &Vec<String>, from: usize) -> (k: usize)
    requires
        from <= ls@.len(),
    ensures
        from <= k <= ls@.len(),
        skip_blank(views(ls@).skip(from as int)) == views(ls@).skip(k as int),
{
    let mut k = from;
    while k < ls.len() && is_blank_line(ls[k].as_str())
        invariant
            from <= k <= ls@.len(),
            skip_blank(views(ls@).skip(from as int)) == skip_blank(views(ls@).skip(k as int)),
        decreases ls@.len() - k,
    {
        assert(views(ls@).skip(k as int).drop_first() =~= views(ls@).skip(k + 1));
        k = k + 1;
    }
    k
}

/// The lines `ls` joined with `'\n'` between them.
pub open spec fn join_lines(ls: Seq<Seq<char>>) -> Seq<char>
    decreases ls.len(),
{
    if ls.len() == 0 {
        seq![]
    } else if ls.len() == 1 {
        ls[0]
    } else {
        join_lines(ls.drop_last()).push('\n') + ls.last()
    }
}

/// The lines `ls[from..]` joined with `'\n'` between them.
pub fn join_from(ls: &Vec<String>, from: usize) -> (r: String)
    requires
        from <= ls@.len(),
    ensures
        r@ == join_lines(views(ls@).skip(from as int)),
{
    let mut r = String::new();
    let mut k = from;
    while k < ls.len()
        invariant
            from <= k <= ls@.len(),
            r@ == join_lines(views(ls@).subrange(from as int, k as int)),
        decreases ls@.len() - k,
    {
        let ghost done = views(ls@).subrange(from as int, k + 1);
        assert(done.drop_last() =~= views(ls@).subrange(from as int, k as int));
        if k > from {
            push_char(&mut r, '\n');
        }
        r.append(ls[k].as_str());
        k = k + 1;
    }
    r
}

/// The number of whitespace-separated words, as `str::split_whitespace` counts them.
pub open spec fn word_count(s: Seq<char>) -> nat
    decreases s.len(),
{
    if s.len() == 0 {
        0
    } else {
        let n = s.len() - 1;
        word_count(s.drop_last()) + if !is_space(s[n]) && (n == 0 || is_space(s[n - 1])) {
            1nat
        } else {
            0nat
        }
    }
}

pub fn count_words(v: &Vec<char>) -> (r: usize)
    ensures
        r == word_count(v@),
{
    let mut r: usize = 0;
    let mut i: usize = 0;
    while i < v.len()
        invariant
            i <= v@.len(),
            r == word_count(v@.take(i as int)),
            r <= i,
        decreases v@.len() - i,
    {
        let ghost t = v@.take(i + 1);
        assert(t.drop_last() =~= v@.take(i as int));
        if !is_space_char(v[i]) && (i == 0 || is_space_char(v[i - 1])) {
            r = r + 1;
        }
        i = i + 1;
    }
    assert(v@.take(i as int) =~= v@);
    r
}

/// `s` without its leading whitespace.
pub open spec fn trim_start(s: Seq<char>) -> Seq<char>
    decreases s.len(),
{
    if s.len() > 0 && is_space(s[0]) {
        trim_start(s.drop_first())
    } else {
        s
    }
}

/// `s` without its trailing whitespace.
pub open spec fn trim_end(s: Seq<char>) -> Seq<char>
    decreases s.len(),
{
    if s.len() > 0 && is_space(s.last()) {
        trim_end(s.drop_last())
    } else {
        s
    }
}

/// `s` without leading and trailing whitespace, as `str::trim` gives it.
pub open spec fn trim(s: Seq<char>) -> Seq<char> {
    trim_end(trim_start(s))
}

/// The bounds of `trim(v[from..to])` within `v`.
pub fn trim_range(v: &Vec<char>, from: usize, to: usize) -> (r: (usize, usize))
    requires
        from <= to <= v@.len(),
    ensures
        from <= r.0 <= r.1 <= to,
        v@.subrange(r.0 as int, r.1 as int) == trim(v@.subrange(from as int, to as int)),
{
    let mut a = from;
    while a < to && is_space_char(v[a])
        invariant
            from <= a <= to <= v@.len(),
            trim_start(v@.subrange(from as int, to as int)) == trim_start(
                v@.subrange(a as int, to as int),
            ),
        decreases to - a,
    {
        assert(v@.subrange(a as int, to as int).drop_first() =~= v@.subrange(a + 1, to as int));
        a = a + 1;
    }
    let mut b = to;
    while b > a && is_space_char(v[b - 1])
        invariant
            from <= a <= b <= to <= v@.len(),
            trim_start(v@.subrange(from as int, to as int)) == v@.subrange(a as int, to as int),
            trim(v@.subrange(from as int, to as int)) == trim_end(v@.subrange(a as int, b as int)),
        decreases b - a,
    {
        assert(v@.subrange(a as int, b as int).drop_last() =~= v@.subrange(a as int, b - 1));
        b = b - 1;
    }
    (a, b)
}

/// Whether `s` begins with `p`.
pub open spec fn starts_with(s: Seq<char>, p: Seq<char>) -> bool {
    p.len() <= s.len() && s.take(p.len() as int) == p
}

/// Whether `v[at..to]` begins with `p`.
pub fn starts_with_at(v: &Vec<char>, at: usize, to: usize, p: &Vec<char>) -> (r: bool)
    requires
        at <= to <= v@.len(),
    ensures
        r == starts_with(v@.subrange(at as int, to as int), p@),
{
    let ghost s = v@.subrange(at as int, to as int);
    if p.len() > to - at {
        return false;
    }
    let mut j: usize = 0;
    while j < p.len()
        invariant
            j <= p@.len() <= to - at,
            at <= to <= v@.len(),
            s == v@.subrange(at as int, to as int),
            forall|k: int| 0 <= k < j ==> v@[at + k] == p@[k],
        decreases p@.len() - j,
    {
        if v[at + j] != p[j] {
            return false;
        }
        j = j + 1;
    }
    assert(s.take(p@.len() as int) =~= p@);
    true
}

/// `s` without a single leading `p`, as `str::strip_prefix` leaves it.
pub open spec fn strip_once(s: Seq<char>, p: Seq<char>) -> Seq<char> {
    if starts_with(s, p) {
        s.skip(p.len() as int)
    } else {
        s
    }
}

/// `s` without a single leading `p`.
pub fn strip_once_str(s: &str, p: &str) -> (r: String)
    ensures
        r@ == strip_once(s@, p@),
{
    let v = chars_of(s);
    let pv = chars_of(p);
    assert(v@.subrange(0, v@.len() as int) =~= v@);
    if starts_with_at(&v, 0, v.len(), &pv) {
        string_of_range(&v, pv.len(), v.len())
    } else {
        String::from_str(s)
    }
}

/// `s` with every leading copy of `p` removed, as `str::trim_start_matches` gives it.
pub open spec fn strip_prefixes(s: Seq<char>, p: Seq<char>) -> Seq<char>
    decreases s.len(),
{
    if p.len() > 0 && starts_with(s, p) {
        strip_prefixes(s.skip(p.len() as int), p)
    } else {
        s
    }
}

/// `s` with every trailing copy of `p` removed, as `str::trim_end_matches` gives it.
pub open spec fn strip_suffixes(s: Seq<char>, p: Seq<char>) -> Seq<char>
    decreases s.len(),
{
    if p.len() > 0 && p.len() <= s.len() && s.skip(s.len() - p.len()) == p {
        strip_suffixes(s.take(s.len() - p.len()), p)
    } else {
        s
    }
}

/// The start of `strip_prefixes(v[from..to], p)` within `v`.
pub fn strip_prefixes_range(v: &Vec<char>, from: usize, to: usize, p: &Vec<char>) -> (a: usize)
    requires
        from <= to <= v@.len(),
    ensures
        from <= a <= to,
        v@.subrange(a as int, to as int) == strip_prefixes(
            v@.subrange(from as int, to as int),
            p@,
        ),
{
    let mut a = from;
    while p.len() > 0 && starts_with_at(v, a, to, p)
        invariant
            from <= a <= to <= v@.len(),
            strip_prefixes(v@.subrange(from as int, to as int), p@) == strip_prefixes(
                v@.subrange(a as int, to as int),
                p@,
            ),
        decreases to - a,
    {
        assert(v@.subrange(a as int, to as int).skip(p@.len() as int) =~= v@.subrange(
            a + p@.len(),
            to as int,
        ));
        a = a + p.len();
    }
    a
}

/// Whether `v[from..to]` ends with `p`.
pub fn ends_with_at(v: &Vec<char>, from: usize, to: usize, p: &Vec<char>) -> (r: bool)
    requires
        from <= to <= v@.len(),
    ensures
        r == {
            let s = v@.subrange(from as int, to as int);
            p@.len() <= s.len() && s.skip(s.len() - p@.len()) == p@
        },
{
    if p.len() > to - from {
        return false;
    }
    let at = to - p.len();
    let r = starts_with_at(v, at, to, p);
    assert(v@.subrange(from as int, to as int).skip(at - from) =~= v@.subrange(at as int, to as int));
    assert(v@.subrange(at as int, to as int).take(p@.len() as int) =~= v@.subrange(
        at as int,
        to as int,
    ));
    r
}

/// The end of `strip_suffixes(v[from..to], p)` within `v`.
pub fn strip_suffixes_range(v: &Vec<char>, from: usize, to: usize, p: &Vec<char>) -> (b: usize)
    requires
        from <= to <= v@.len(),
    ensures
        from <= b <= to,
        v@.subrange(from as int, b as int) == strip_suffixes(
            v@.subrange(from as int, to as int),
            p@,
        ),
{
    let mut b = to;
    while p.len() > 0 && ends_with_at(v, from, b, p)
        invariant
            from <= b <= to <= v@.len(),
            strip_suffixes(v@.subrange(from as int, to as int), p@) == strip_suffixes(
                v@.subrange(from as int, b as int),
                p@,
            ),
        decreases b - from,
    {
        assert(v@.subrange(from as int, b as int).take(b - from - p@.len()) =~= v@.subrange(
            from as int,
            b - p@.len(),
        ));
        b = b - p.len();
    }
    b
}

/// The decimal digit `d`.
pub open spec fn digit(d: nat) -> char {
    if d == 0 {
        '0'
    } else if d == 1 {
        '1'
    } else if d == 2 {
        '2'
    } else if d == 3 {
        '3'
    } else if d == 4 {
        '4'
    } else if d == 5 {
        '5'
    } else if d == 6 {
        '6'
    } else if d == 7 {
        '7'
    } else if d == 8 {
        '8'
    } else {
        '9'
    }
}

/// `n` written in decimal, without leading zeros.
pub open spec fn decimal(n: nat) -> Seq<char>
    decreases n,
{
    if n < 10 {
        seq![digit(n)]
    } else {
        decimal(n / 10).push(digit(n % 10))
    }
}

fn digit_char(d: u64) -> (c: char)
    requires
        d < 10,
    ensures
        c == digit(d as nat),
{
    match d {
        0 => '0',
        1 => '1',
        2 => '2',
        3 => '3',
        4 => '4',
        5 => '5',
        6 => '6',
        7 => '7',
        8 => '8',
        _ => '9',
    }
}

/// Appends `n` in decimal to `out`.
pub fn push_decimal(out: &mut String, n: u64)
    ensures
        final(out)@ == old(out)@ + decimal(n as nat),
    decreases n,
{
    if n >= 10 {
        push_decimal(out, n / 10);
    }
    push_char(out, digit_char(n % 10));
}

/// The pieces `parts` written one after another.
pub open spec fn concat(parts: Seq<Seq<char>>) -> Seq<char>
    decreases parts.len(),
{
    if parts.len() == 0 {
        seq![]
    } else {
        concat(parts.drop_last()) + parts.last()
    }
}

/// Writing one more piece appends it.
pub proof fn lemma_concat_push(parts: Seq<Seq<char>>, piece: Seq<char>)
    ensures
        concat(parts.push(piece)) == concat(parts) + piece,
        concat(Seq::<Seq<char>>::empty()) == Seq::<char>::empty(),
{
    assert(parts.push(piece).drop_last() =~= parts);
}

/// Writing `parts` writes the piece `parts[k]` somewhere.
pub proof fn lemma_concat_holds(parts: Seq<Seq<char>>, k: int)
    requires
        0 <= k < parts.len(),
    ensures
        exists|before: Seq<char>, after: Seq<char>| concat(parts) == before + parts[k] + after,
{
    lemma_concat_split(parts, k + 1);
    assert(parts.take(k + 1).drop_last() =~= parts.take(k));
    assert(concat(parts) == concat(parts.take(k)) + parts[k] + concat(parts.skip(k + 1)));
}

/// Writing `parts` is writing its first `k` pieces, then the rest.
pub proof fn lemma_concat_split(parts: Seq<Seq<char>>, k: int)
    requires
        0 <= k <= parts.len(),
    ensures
        concat(parts) == concat(parts.take(k)) + concat(parts.skip(k)),
    decreases parts.len(),
{
    if k == parts.len() {
        assert(parts.take(k) =~= parts);
    } else {
        let rest = parts.drop_last();
        lemma_concat_split(rest, k);
        assert(rest.take(k) =~= parts.take(k));
        assert(parts.skip(k).drop_last() =~= rest.skip(k));
        assert(concat(parts.take(k)) + concat(rest.skip(k)) + parts.last() =~= concat(parts.take(k))
            + (concat(rest.skip(k)) + parts.last()));
    }
}

/// The views of a sequence of string slices.
pub open spec fn str_views(v: Seq<&str>) -> Seq<Seq<char>> {
    v.map_values(|x: &str| x@)
}

/// The pieces `parts` written one after another, as one string.
pub fn concat_strs(parts: &Vec<&str>) -> (r: String)
    ensures
        r@ == concat(str_views(parts@)),
{
    let mut r = String::new();
    let mut k: usize = 0;
    while k < parts.len()
        invariant
            k <= parts@.len(),
            r@ == concat(str_views(parts@.take(k as int))),
        decreases parts@.len() - k,
    {
        assert(str_views(parts@.take(k + 1)).drop_last() =~= str_views(parts@.take(k as int)));
        r.append(parts[k]);
        k = k + 1;
    }
    assert(parts@.take(k as int) =~= parts@);
    r
}

} // verus!

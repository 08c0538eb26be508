//! Character-level string operations with exact specifications.

use vstd::prelude::*;

verus! {

broadcast use vstd::string::group_string_axioms;

/// The characters of `s`, in order.
pub fn chars_of(s: &str) -> (v: Vec<char>)
    ensures
        v@ == s@,
{
    let mut v: Vec<char> = Vec::new();
    for c in it: s.chars()
        invariant
            v@ == it.seq().take(it.index() as int),
            it.seq() == s@,
    {
        v.push(c);
    }
    v
}

/// `p` occurs in `s` starting at index `i`.
pub open spec fn matches_at(s: Seq<char>, p: Seq<char>, i: int) -> bool {
    0 <= i && i + p.len() <= s.len() && s.subrange(i, i + p.len()) == p
}

/// The first index at or after `i` where `p` occurs in `s`.
pub open spec fn find_from(s: Seq<char>, p: Seq<char>, i: int) -> Option<int>
    decreases s.len() + 1 - i,
{
    if i < 0 || i + p.len() > s.len() {
        None
    } else if matches_at(s, p, i) {
        Some(i)
    } else {
        find_from(s, p, i + 1)
    }
}

/// The first index where `p` occurs in `s`.
pub open spec fn find_first(s: Seq<char>, p: Seq<char>) -> Option<int> {
    find_from(s, p, 0)
}

/// An executable index read as a mathematical one.
pub open spec fn as_index(r: Option<usize>) -> Option<int> {
    match r {
        Some(k) => Some(k as int),
        None => None,
    }
}

/// What `find_from` returns: the least match at or after `i`, or none at all.
pub proof fn lemma_find_from(s: Seq<char>, p: Seq<char>, i: int)
    requires
        0 <= i,
    ensures
        find_from(s, p, i) matches Some(k) ==> i <= k && matches_at(s, p, k) && forall|j: int|
            i <= j < k ==> !#[trigger] matches_at(s, p, j),
        find_from(s, p, i) is None ==> forall|j: int| i <= j ==> !#[trigger] matches_at(s, p, j),
    decreases s.len() + 1 - i,
{
    if i + p.len() > s.len() {
    } else if matches_at(s, p, i) {
    } else {
        lemma_find_from(s, p, i + 1);
        assert forall|j: int| i <= j && j < i + 1 implies !#[trigger] matches_at(s, p, j) by {
            assert(j == i);
        }
    }
}

/// Whether `p` occurs in `h` at `i`.
fn matches_here(h: &Vec<char>, p: &Vec<char>, i: usize) -> (r: bool)
    requires
        i + p.len() <= h.len(),
    ensures
        r == matches_at(h@, p@, i as int),
{
    let m = p.len();
    let mut j: usize = 0;
    while j < m
        invariant
            j <= m,
            m == p.len(),
            i + m <= h.len(),
            forall|k: int| 0 <= k < j ==> h@[i + k] == p@[k],
        decreases m - j,
    {
        if h[i + j] != p[j] {
            assert(h@.subrange(i as int, i + m)[j as int] != p@[j as int]);
            return false;
        }
        j = j + 1;
    }
    assert(h@.subrange(i as int, i + m) =~= p@);
    true
}

/// The first occurrence of `p` in `h` at or after `from`.
pub fn find_chars(h: &Vec<char>, p: &Vec<char>, from: usize) -> (r: Option<usize>)
    ensures
        as_index(r) == find_from(h@, p@, from as int),
{
    if from > h.len() || p.len() > h.len() - from {
        return None;
    }
    if p.len() == 0 {
        assert(h@.subrange(from as int, from as int) =~= p@);
        return Some(from);
    }
    let mut i = from;
    while i <= h.len() - p.len()
        invariant
            from <= i <= h.len() - p.len() + 1,
            1 <= p.len(),
            p.len() <= h.len(),
            find_from(h@, p@, from as int) == find_from(h@, p@, i as int),
        decreases h.len() - i,
    {
        if matches_here(h, p, i) {
            return Some(i);
        }
        i = i + 1;
    }
    None
}

/// The first occurrence of `pat` in `text`, as a character index.
pub fn find(text: &str, pat: &str) -> (r: Option<usize>)
    ensures
        as_index(r) == find_first(text@, pat@),
{
    let t = chars_of(text);
    let p = chars_of(pat);
    find_chars(&t, &p, 0)
}

/// Whether `pat` occurs in `text`.
pub fn contains(text: &str, pat: &str) -> (r: bool)
    ensures
        r == find_first(text@, pat@) is Some,
{
    find(text, pat).is_some()
}

/// Whether `text` and `other` hold the same characters.
pub fn str_eq(text: &str, other: &str) -> (r: bool)
    ensures
        r == (text@ == other@),
{
    text.to_owned() == other.to_owned()
}

/// Whether `c` has the Unicode `White_Space` property, as `char::is_whitespace` decides.
pub open spec fn is_white_space(c: char) -> bool {
    let u = c as u32;
    ||| u == 0x20
    ||| (0x09 <= u && u <= 0x0d)
    ||| u == 0x85
    ||| u == 0xa0
    ||| u == 0x1680
    ||| (0x2000 <= u && u <= 0x200a)
    ||| u == 0x2028
    ||| u == 0x2029
    ||| u == 0x202f
    ||| u == 0x205f
    ||| u == 0x3000
}

/// Executable form of `is_white_space`.
pub fn white_space(c: char) -> (r: bool)
    ensures
        r == is_white_space(c),
{
    let u = c as u32;
    u == 0x20 || (0x09 <= u && u <= 0x0d) || u == 0x85 || u == 0xa0 || u == 0x1680 || (0x2000 <= u
        && u <= 0x200a) || u == 0x2028 || u == 0x2029 || u == 0x202f || u == 0x205f || u == 0x3000
}

/// `s` without its leading white space.
pub open spec fn trim_start(s: Seq<char>) -> Seq<char>
    decreases s.len(),
{
    if s.len() > 0 && is_white_space(s[0]) {
        trim_start(s.drop_first())
    } else {
        s
    }
}

/// `s` without its trailing white space.
pub open spec fn trim_end(s: Seq<char>) -> Seq<char>
    decreases s.len(),
{
    if s.len() > 0 && is_white_space(s.last()) {
        trim_end(s.drop_last())
    } else {
        s
    }
}

/// `s` without leading and trailing white space, as `str::trim` gives it.
pub open spec fn trim_spec(s: Seq<char>) -> Seq<char> {
    trim_end(trim_start(s))
}

/// What `trim_end` leaves is a prefix of `s` that, when not empty, does not end in white space.
pub proof fn lemma_trim_end(s: Seq<char>)
    ensures
        trim_end(s).len() <= s.len(),
        trim_end(s) == s.subrange(0, trim_end(s).len() as int),
        trim_end(s).len() > 0 ==> !is_white_space(trim_end(s).last()),
    decreases s.len(),
{
    if s.len() > 0 && is_white_space(s.last()) {
        lemma_trim_end(s.drop_last());
        assert(s.drop_last().subrange(0, trim_end(s).len() as int) =~= s.subrange(
            0,
            trim_end(s).len() as int,
        ));
    } else {
        assert(s.subrange(0, s.len() as int) =~= s);
    }
}

/// What `trim_start` leaves does not start with white space.
pub proof fn lemma_trim_start(s: Seq<char>)
    ensures
        trim_start(s).len() > 0 ==> !is_white_space(trim_start(s)[0]),
    decreases s.len(),
{
    if s.len() > 0 && is_white_space(s[0]) {
        lemma_trim_start(s.drop_first());
    }
}

/// Trimmed text neither starts nor ends with white space.
pub proof fn lemma_trimmed_ends(s: Seq<char>)
    ensures
        trim_spec(s).len() > 0 ==> !is_white_space(trim_spec(s)[0]) && !is_white_space(
            trim_spec(s).last(),
        ),
{
    lemma_trim_start(s);
    lemma_trim_end(trim_start(s));
    if trim_spec(s).len() > 0 {
        assert(trim_spec(s)[0] == trim_start(s)[0]);
    }
}

/// Text that neither starts nor ends with white space is its own trim.
pub proof fn lemma_trim_of_trimmed(s: Seq<char>)
    requires
        s.len() > 0 ==> !is_white_space(s[0]) && !is_white_space(s.last()),
    ensures
        trim_spec(s) == s,
{
}

/// The bounds of the trimmed part of `v`.
fn trim_bounds(v: &Vec<char>) -> (r: (usize, usize))
    ensures
        r.0 <= r.1 <= v.len(),
        v@.subrange(r.0 as int, r.1 as int) == trim_spec(v@),
{
    let n = v.len();
    let mut i: usize = 0;
    assert(v@.subrange(0, n as int) =~= v@);
    while i < n && white_space(v[i])
        invariant
            i <= n,
            n == v.len(),
            trim_start(v@) == trim_start(v@.subrange(i as int, n as int)),
        decreases n - i,
    {
        assert(v@.subrange(i as int, n as int).drop_first() =~= v@.subrange(i + 1, n as int));
        i = i + 1;
    }
    let mut j: usize = n;
    while j > i && white_space(v[j - 1])
        invariant
            i <= j <= n,
            n == v.len(),
            trim_start(v@) == v@.subrange(i as int, n as int),
            trim_end(v@.subrange(i as int, n as int)) == trim_end(v@.subrange(i as int, j as int)),
        decreases j,
    {
        assert(v@.subrange(i as int, j as int).drop_last() =~= v@.subrange(i as int, j - 1));
        j = j - 1;
    }
    (i, j)
}

/// `s` without leading and trailing white space.
pub fn trim(s: &str) -> (r: &str)
    ensures
        r@ == trim_spec(s@),
{
    let v = chars_of(s);
    let (a, b) = trim_bounds(&v);
    s.substring_char(a, b)
}

/// `l` without one trailing carriage return.
pub open spec fn strip_cr(l: Seq<char>) -> Seq<char> {
    if l.len() > 0 && l.last() == '\r' {
        l.drop_last()
    } else {
        l
    }
}

/// The lines of `s` that start at or after index `i`, as `str::lines` splits them:
/// split at each line feed, drop a carriage return just before a line feed, and
/// yield no empty line after a final line feed.
pub open spec fn lines_from(s: Seq<char>, i: int) -> Seq<Seq<char>>
    decreases s.len() - i,
{
    if i < 0 || i >= s.len() {
        Seq::empty()
    } else {
        proof {
            lemma_find_from(s, seq!['\n'], i);
        }
        match find_from(s, seq!['\n'], i) {
            None => seq![s.subrange(i, s.len() as int)],
            Some(k) => seq![strip_cr(s.subrange(i, k))] + lines_from(s, k + 1),
        }
    }
}

/// The lines of `s`.
pub open spec fn lines_of(s: Seq<char>) -> Seq<Seq<char>> {
    lines_from(s, 0)
}

/// The characters of each string in `v`.
pub open spec fn views_of(v: Seq<&str>) -> Seq<Seq<char>> {
    v.map_values(|x: &str| x@)
}

/// The lines of `s`, as `str::lines` yields them.
pub fn lines<'a>(s: &'a str) -> (r: Vec<&'a str>)
    ensures
        views_of(r@) == lines_of(s@),
{
    let v = chars_of(s);
    let n = v.len();
    let newline: Vec<char> = vec!['\n'];
    assert(newline@ =~= seq!['\n']);
    let mut out: Vec<&'a str> = Vec::new();
    let mut i: usize = 0;
    assert(views_of(out@) + lines_from(s@, 0) =~= lines_of(s@));
    while i < n
        invariant
            i <= n,
            n == v.len(),
            v@ == s@,
            newline@ == seq!['\n'],
            views_of(out@) + lines_from(s@, i as int) == lines_of(s@),
        decreases n - i,
    {
        proof {
            lemma_find_from(v@, newline@, i as int);
        }
        let found = find_chars(&v, &newline, i);
        let stop: usize = match found {
            Some(k) => k,
            None => n,
        };
        let mut end = stop;
        if found.is_some() && end > i && v[end - 1] == '\r' {
            end = end - 1;
            assert(v@.subrange(i as int, stop as int).drop_last() =~= v@.subrange(
                i as int,
                end as int,
            ));
        }
        let line = s.substring_char(i, end);
        let ghost before = out@;
        out.push(line);
        assert(views_of(out@) =~= views_of(before) + seq![line@]);
        match found {
            Some(k) => {
                assert(views_of(before) + lines_from(s@, i as int) =~= views_of(out@)
                    + lines_from(s@, k + 1));
                i = k + 1;
            },
            None => {
                assert(lines_from(s@, n as int) =~= Seq::<Seq<char>>::empty());
                assert(views_of(before) + lines_from(s@, i as int) =~= views_of(out@)
                    + lines_from(s@, n as int));
                i = n;
            },
        }
    }
    assert(lines_from(s@, n as int) =~= Seq::<Seq<char>>::empty());
    assert(views_of(out@) =~= lines_of(s@));
    out
}

/// `s` split at the first occurrence of `c`, as `str::split_once` does it.
pub open spec fn split_once_spec(s: Seq<char>, c: char) -> Option<(Seq<char>, Seq<char>)> {
    match find_first(s, seq![c]) {
        None => None,
        Some(k) => Some((s.subrange(0, k), s.subrange(k + 1, s.len() as int))),
    }
}

/// `s` split at the first occurrence of `c`.
pub fn split_once<'a>(s: &'a str, c: char) -> (r: Option<(&'a str, &'a str)>)
    ensures
        match r {
            Some((a, b)) => split_once_spec(s@, c) == Some((a@, b@)),
            None => split_once_spec(s@, c) is None,
        },
{
    let v = chars_of(s);
    let needle: Vec<char> = vec![c];
    assert(needle@ =~= seq![c]);
    proof {
        lemma_find_from(v@, needle@, 0);
    }
    match find_chars(&v, &needle, 0) {
        Some(k) => {
            assert(matches_at(v@, needle@, k as int) && needle@.len() == 1);
            assert(k < v.len());
            Some((s.substring_char(0, k), s.substring_char(k + 1, v.len())))
        },
        None => None,
    }
}

/// `c` with an ASCII capital letter turned into its small letter, as a code point.
pub open spec fn lower_code(c: char) -> u32 {
    if 0x41 <= c as u32 && c as u32 <= 0x5a {
        (c as u32 + 32) as u32
    } else {
        c as u32
    }
}

/// `s`, with its ASCII letters made small, equals `lower`.
pub open spec fn ascii_lower_is(s: Seq<char>, lower: Seq<char>) -> bool {
    s.len() == lower.len() && forall|i: int| 0 <= i < s.len() ==> lower_code(#[trigger] s[i]) == lower[i] as u32
}

/// Whether `s`, with its ASCII letters made small, equals `lower`.
pub fn ascii_lower_eq(s: &Vec<char>, lower: &str) -> (r: bool)
    ensures
        r == ascii_lower_is(s@, lower@),
{
    let l = chars_of(lower);
    if s.len() != l.len() {
        return false;
    }
    let mut i: usize = 0;
    while i < s.len()
        invariant
            i <= s.len(),
            s.len() == l.len(),
            l@ == lower@,
            forall|k: int| 0 <= k < i ==> lower_code(#[trigger] s@[k]) == l@[k] as u32,
        decreases s.len() - i,
    {
        let c = s[i];
        let u = c as u32;
        let code: u32 = if 0x41 <= u && u <= 0x5a {
            u + 32
        } else {
            u
        };
        if code != l[i] as u32 {
            return false;
        }
        i = i + 1;
    }
    true
}

} // verus!

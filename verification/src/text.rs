//! Character-sequence primitives: whitespace, trimming, searching, lines.
//!
//! Every operation is stated over `Seq<char>` and implemented over `&[char]`.
//! Positions are character positions.

use vstd::prelude::*;
use vstd::slice::slice_subrange;

verus! {

/// The characters with the Unicode `White_Space` property.
pub open spec fn is_space(c: char) -> bool {
    let n = c as u32;
    ||| 0x09 <= n <= 0x0D
    ||| n == 0x20
    ||| n == 0x85
    ||| n == 0xA0
    ||| n == 0x1680
    ||| 0x2000 <= n <= 0x200A
    ||| n == 0x2028
    ||| n == 0x2029
    ||| n == 0x202F
    ||| n == 0x205F
    ||| n == 0x3000
}

/// Executable test for [`is_space`].
pub fn char_is_space(c: char) -> (r: bool)
    ensures
        r == is_space(c),
{
    let n: u32 = c as u32;
    (0x09 <= n && n <= 0x0D) || n == 0x20 || n == 0x85 || n == 0xA0 || n == 0x1680 || (0x2000 <= n
        && n <= 0x200A) || n == 0x2028 || n == 0x2029 || n == 0x202F || n == 0x205F || n == 0x3000
}

/// The first position at or after `i` that holds no whitespace.
pub open spec fn skip_spaces(s: Seq<char>, i: int) -> int
    decreases s.len() - i,
{
    if 0 <= i < s.len() && is_space(s[i]) {
        skip_spaces(s, i + 1)
    } else {
        i
    }
}

/// The last position at or before `j` that no whitespace precedes.
pub open spec fn skip_spaces_back(s: Seq<char>, j: int) -> int
    decreases j,
{
    if 0 < j <= s.len() && is_space(s[j - 1]) {
        skip_spaces_back(s, j - 1)
    } else {
        j
    }
}

/// Number of leading whitespace characters.
pub open spec fn indent_of(s: Seq<char>) -> int {
    skip_spaces(s, 0)
}

/// `s` without its leading whitespace.
pub open spec fn trim_start_of(s: Seq<char>) -> Seq<char> {
    s.subrange(skip_spaces(s, 0), s.len() as int)
}

/// `s` without its trailing whitespace.
pub open spec fn trim_end_of(s: Seq<char>) -> Seq<char> {
    s.subrange(0, skip_spaces_back(s, s.len() as int))
}

/// `s` without leading and trailing whitespace.
pub open spec fn trim_of(s: Seq<char>) -> Seq<char> {
    trim_end_of(trim_start_of(s))
}

/// Whether `s` holds nothing but whitespace.
pub open spec fn is_blank(s: Seq<char>) -> bool {
    trim_of(s).len() == 0
}

/// Counts the leading whitespace characters of `s`.
pub fn indent(s: &[char]) -> (n: usize)
    ensures
        n == indent_of(s@),
        n <= s@.len(),
{
    let mut i: usize = 0;
    while i < s.len() && char_is_space(s[i])
        invariant
            i <= s.len(),
            skip_spaces(s@, 0) == skip_spaces(s@, i as int),
        decreases s.len() - i,
    {
        i += 1;
    }
    i
}

/// The first position at or after `from` that holds no whitespace.
pub fn skip_space_run(s: &[char], from: usize) -> (n: usize)
    requires
        from <= s@.len(),
    ensures
        n == skip_spaces(s@, from as int),
        from <= n <= s@.len(),
{
    let mut i: usize = from;
    while i < s.len() && char_is_space(s[i])
        invariant
            from <= i <= s.len(),
            skip_spaces(s@, from as int) == skip_spaces(s@, i as int),
        decreases s.len() - i,
    {
        i += 1;
    }
    i
}

/// `s` without its leading whitespace.
pub fn trim_start(s: &[char]) -> (r: &[char])
    ensures
        r@ == trim_start_of(s@),
{
    let i = indent(s);
    slice_subrange(s, i, s.len())
}

/// `s` without its trailing whitespace.
pub fn trim_end(s: &[char]) -> (r: &[char])
    ensures
        r@ == trim_end_of(s@),
{
    let mut j: usize = s.len();
    while j > 0 && char_is_space(s[j - 1])
        invariant
            j <= s.len(),
            skip_spaces_back(s@, s@.len() as int) == skip_spaces_back(s@, j as int),
        decreases j,
    {
        j -= 1;
    }
    slice_subrange(s, 0, j)
}

/// `s` without leading and trailing whitespace.
pub fn trim(s: &[char]) -> (r: &[char])
    ensures
        r@ == trim_of(s@),
{
    trim_end(trim_start(s))
}

/// Whether `s` holds no `-`.
pub open spec fn has_no_dash(s: Seq<char>) -> bool {
    forall|i: int| 0 <= i < s.len() ==> s[i] != '-'
}

/// Whether `p` stands in `s` at position `i`.
pub open spec fn occurs_at(s: Seq<char>, p: Seq<char>, i: int) -> bool {
    0 <= i && i + p.len() <= s.len() && s.subrange(i, i + p.len()) == p
}

/// The first position at or after `i` where `p` stands in `s`.
pub open spec fn find_from(s: Seq<char>, p: Seq<char>, i: int) -> Option<int>
    decreases s.len() - i + 1,
{
    if i < 0 || i + p.len() > s.len() {
        None
    } else if occurs_at(s, p, i) {
        Some(i)
    } else {
        find_from(s, p, i + 1)
    }
}

/// The first position where `p` stands in `s`.
pub open spec fn find_of(s: Seq<char>, p: Seq<char>) -> Option<int> {
    find_from(s, p, 0)
}

/// Whether `p` stands somewhere in `s`.
pub open spec fn contains_of(s: Seq<char>, p: Seq<char>) -> bool {
    find_of(s, p) is Some
}

/// A position as a mathematical integer.
pub open spec fn pos_of(r: Option<usize>) -> Option<int> {
    match r {
        Some(i) => Some(i as int),
        None => None,
    }
}

/// What `find_from` finds is an occurrence at or after the start.
pub proof fn lemma_find_from_bounds(s: Seq<char>, p: Seq<char>, i: int)
    ensures
        find_from(s, p, i) matches Some(k) ==> i <= k && occurs_at(s, p, k),
    decreases s.len() - i + 1,
{
    if i < 0 || i + p.len() > s.len() {
    } else if occurs_at(s, p, i) {
    } else {
        lemma_find_from_bounds(s, p, i + 1);
    }
}

/// `find_from` finds whatever occurrence there is.
proof fn lemma_find_from_complete(s: Seq<char>, p: Seq<char>, i: int, k: int)
    requires
        0 <= i <= k,
        occurs_at(s, p, k),
    ensures
        find_from(s, p, i) matches Some(j) && j <= k,
    decreases k - i,
{
    if !occurs_at(s, p, i) {
        lemma_find_from_complete(s, p, i + 1, k);
    }
}

/// What is found is the first occurrence: `p` stands at the position found
/// and at no earlier position, and nothing is found only where `p` stands
/// nowhere.
pub proof fn find_is_first_occurrence(s: Seq<char>, p: Seq<char>)
    ensures
        match find_of(s, p) {
            Some(k) => occurs_at(s, p, k) && forall|j: int| 0 <= j < k ==> !occurs_at(s, p, j),
            None => forall|j: int| !occurs_at(s, p, j),
        },
{
    lemma_find_from_bounds(s, p, 0);
    assert forall|j: int| occurs_at(s, p, j) implies (find_of(s, p) matches Some(k) && k <= j) by {
        lemma_find_from_complete(s, p, 0, j);
    }
}

/// Whether `p` stands in `s` at position `i`.
pub fn matches_at(s: &[char], p: &[char], i: usize) -> (r: bool)
    ensures
        r == occurs_at(s@, p@, i as int),
{
    if p.len() > s.len() || i > s.len() - p.len() {
        return false;
    }
    let mut k: usize = 0;
    while k < p.len()
        invariant
            k <= p.len(),
            i + p.len() <= s.len(),
            forall|j: int| 0 <= j < k ==> s@[i + j] == p@[j],
        decreases p.len() - k,
    {
        if s[i + k] != p[k] {
            assert(s@.subrange(i as int, i + p@.len())[k as int] == s@[i + k]);
            return false;
        }
        k += 1;
    }
    assert(s@.subrange(i as int, i + p@.len()) =~= p@);
    true
}

/// The first position at or after `start` where `p` stands in `s`.
pub fn find_at(s: &[char], p: &[char], start: usize) -> (r: Option<usize>)
    ensures
        pos_of(r) == find_from(s@, p@, start as int),
{
    if p.len() > s.len() || start > s.len() - p.len() {
        return None;
    }
    let last: usize = s.len() - p.len();
    let mut i: usize = start;
    loop
        invariant
            last == s.len() - p.len(),
            start <= i <= last,
            find_from(s@, p@, start as int) == find_from(s@, p@, i as int),
        decreases last - i,
    {
        if matches_at(s, p, i) {
            return Some(i);
        }
        if i == last {
            assert(find_from(s@, p@, i + 1) is None);
            return None;
        }
        i += 1;
    }
}

/// The first position where `p` stands in `s`.
pub fn find(s: &[char], p: &[char]) -> (r: Option<usize>)
    ensures
        pos_of(r) == find_of(s@, p@),
{
    find_at(s, p, 0)
}

/// Whether `p` stands somewhere in `s`.
pub fn contains(s: &[char], p: &[char]) -> (r: bool)
    ensures
        r == contains_of(s@, p@),
{
    find_at(s, p, 0).is_some()
}

/// Whether `s` begins with `p`.
pub fn starts_with(s: &[char], p: &[char]) -> (r: bool)
    ensures
        r == p@.is_prefix_of(s@),
{
    matches_at(s, p, 0)
}

/// Whether `s` ends with `p`.
pub fn ends_with(s: &[char], p: &[char]) -> (r: bool)
    ensures
        r == p@.is_suffix_of(s@),
{
    if p.len() > s.len() {
        return false;
    }
    matches_at(s, p, s.len() - p.len())
}

/// Whether `a` and `b` hold the same characters.
pub fn same(a: &[char], b: &[char]) -> (r: bool)
    ensures
        r == (a@ == b@),
{
    if a.len() != b.len() {
        return false;
    }
    let r = matches_at(a, b, 0);
    assert(a@.subrange(0, a@.len() as int) =~= a@);
    r
}

/// The characters of a string slice, in order.
pub fn chars_of(s: &str) -> (v: Vec<char>)
    ensures
        v@ == s@,
{
    let mut v: Vec<char> = Vec::new();
    for c in it: s.chars()
        invariant
            v@ == it.seq().take(it.index() as int),
    {
        v.push(c);
    }
    v
}

/// `String::from_iter` over a slice of characters: the string made of exactly
/// those characters, in order.
#[verifier::external_body]
pub(crate) fn string_of(v: &[char]) -> (s: String)
    ensures
        s@ == v@,
{
    String::from_iter(v.iter())
}

/// Appends the characters of `s` to `out`.
pub fn push_chars(out: &mut Vec<char>, s: &[char])
    ensures
        final(out)@ == old(out)@ + s@,
{
    let mut k: usize = 0;
    while k < s.len()
        invariant
            k <= s.len(),
            out@ == old(out)@ + s@.subrange(0, k as int),
        decreases s.len() - k,
    {
        out.push(s[k]);
        assert(s@.subrange(0, k + 1) =~= s@.subrange(0, k as int).push(s@[k as int]));
        k += 1;
    }
    assert(s@.subrange(0, s@.len() as int) =~= s@);
}

/// A line without the carriage return that ended it, if one did.
pub open spec fn strip_cr(l: Seq<char>) -> Seq<char> {
    if l.len() > 0 && l.last() == '\r' {
        l.drop_last()
    } else {
        l
    }
}

/// The lines of `s` from the line that starts at `start`, having scanned up
/// to `i`.
pub open spec fn lines_scan(s: Seq<char>, start: int, i: int) -> Seq<Seq<char>>
    decreases s.len() - i,
{
    if i < 0 || i >= s.len() {
        if 0 <= start < s.len() {
            seq![s.subrange(start, s.len() as int)]
        } else {
            Seq::empty()
        }
    } else if s[i] == '\n' {
        seq![strip_cr(s.subrange(start, i))] + lines_scan(s, i + 1, i + 1)
    } else {
        lines_scan(s, start, i + 1)
    }
}

/// The lines of `s`: the pieces between line feeds, each without the carriage
/// return that may precede its line feed. A final line feed opens no further
/// line.
pub open spec fn lines_of(s: Seq<char>) -> Seq<Seq<char>> {
    lines_scan(s, 0, 0)
}

/// The contents of a list of lines.
pub open spec fn line_views(ls: Seq<&[char]>) -> Seq<Seq<char>> {
    ls.map_values(|l: &[char]| l@)
}

/// The lines of `s`, each a slice of it.
pub fn split_lines<'a>(s: &'a [char]) -> (out: Vec<&'a [char]>)
    ensures
        line_views(out@) == lines_of(s@),
{
    let mut out: Vec<&'a [char]> = Vec::new();
    let mut start: usize = 0;
    let mut i: usize = 0;
    while i < s.len()
        invariant
            start <= i <= s.len(),
            line_views(out@) + lines_scan(s@, start as int, i as int) == lines_of(s@),
        decreases s.len() - i,
    {
        if s[i] == '\n' {
            let mut e: usize = i;
            if e > start && s[e - 1] == '\r' {
                e -= 1;
            }
            let line = slice_subrange(s, start, e);
            let ghost before = line_views(out@);
            out.push(line);
            proof {
                let piece = s@.subrange(start as int, i as int);
                assert(line@ =~= strip_cr(piece));
                assert(line_views(out@) =~= before.push(line@));
                assert(before.push(line@) + lines_scan(s@, i + 1, i + 1) =~= before + (seq![
                    line@,
                ] + lines_scan(s@, i + 1, i + 1)));
            }
            start = i + 1;
        }
        i += 1;
    }
    if start < s.len() {
        let line = slice_subrange(s, start, s.len());
        let ghost before = line_views(out@);
        out.push(line);
        proof {
            assert(line_views(out@) =~= before.push(line@));
            assert(before.push(line@) =~= before + seq![line@]);
        }
    } else {
        assert(line_views(out@) + Seq::<Seq<char>>::empty() =~= line_views(out@));
    }
    out
}

/// The lines joined by single line feeds.
pub open spec fn join_of(ls: Seq<Seq<char>>) -> Seq<char>
    decreases ls.len(),
{
    if ls.len() == 0 {
        Seq::empty()
    } else if ls.len() == 1 {
        ls[0]
    } else {
        join_of(ls.drop_last()) + seq!['\n'] + ls.last()
    }
}

/// Joins the lines `from..to` of `ls` by single line feeds.
pub fn join_lines(ls: &[&[char]], from: usize, to: usize) -> (out: Vec<char>)
    requires
        from <= to <= ls@.len(),
    ensures
        out@ == join_of(line_views(ls@).subrange(from as int, to as int)),
{
    let mut out: Vec<char> = Vec::new();
    let mut k: usize = from;
    while k < to
        invariant
            from <= k <= to <= ls@.len(),
            out@ == join_of(line_views(ls@).subrange(from as int, k as int)),
        decreases to - k,
    {
        let ghost prev = line_views(ls@).subrange(from as int, k as int);
        let ghost next = line_views(ls@).subrange(from as int, k + 1);
        proof {
            assert(next.drop_last() =~= prev);
            assert(next.last() == ls@[k as int]@);
        }
        if k > from {
            out.push('\n');
        }
        push_chars(&mut out, ls[k]);
        proof {
            if k > from {
                assert(out@ =~= join_of(prev) + seq!['\n'] + ls@[k as int]@);
            } else {
                assert(prev.len() == 0);
                assert(out@ =~= ls@[k as int]@);
            }
        }
        k += 1;
    }
    out
}

} // verus!

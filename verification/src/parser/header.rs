//! The grammar of operator header lines.
//!
//! Four forms are known, tried in this order:
//! `DATA_STREAM_SINK_OPERATOR(dest_id=<int>)`,
//! `LOCAL_EXCHANGE_[SINK_]OPERATOR(<TYPE>)(id=<int>)`,
//! `NAME (id=<int>. nereids_id=<int>. ...)` and
//! `NAME(nereids_id=<int>)(id=<int>)`, the `nereids_id` part optional.

use crate::numbers::{
    char_is_digit, digits_end, i32_of, is_digit, lemma_digits_end, parse_i32, scan_digits,
};
use crate::text::{
    chars_of, contains, contains_of, find, find_of, lemma_find_from_bounds, matches_at, occurs_at,
    pos_of, skip_space_run, skip_spaces, string_of, trim, trim_of,
};
use vstd::prelude::*;
use vstd::slice::slice_subrange;

verus! {

/// What a header line says of its operator.
pub struct HeaderView {
    pub name: Seq<char>,
    pub id: i32,
    pub nereids_id: Option<i32>,
    pub dest_id: Option<i32>,
    pub exchange_type: Option<Seq<char>>,
    pub table_name: Option<Seq<char>>,
}

/// The header of an operator, as read from its line.
pub struct Header {
    pub name: String,
    pub id: i32,
    pub nereids_id: Option<i32>,
    pub dest_id: Option<i32>,
    pub exchange_type: Option<String>,
    pub table_name: Option<String>,
}

impl DeepView for Header {
    type V = HeaderView;

    open spec fn deep_view(&self) -> HeaderView {
        HeaderView {
            name: self.name@,
            id: self.id,
            nereids_id: self.nereids_id,
            dest_id: self.dest_id,
            exchange_type: self.exchange_type.deep_view(),
            table_name: self.table_name.deep_view(),
        }
    }
}

/// Where `w` ends if it stands at `p`.
pub open spec fn after_word(t: Seq<char>, p: int, w: Seq<char>) -> Option<int> {
    if occurs_at(t, w, p) {
        Some(p + w.len())
    } else {
        None
    }
}

/// Where the run of one or more digits that starts at `p` ends.
pub open spec fn after_digits(t: Seq<char>, p: int) -> Option<int> {
    if 0 <= p < t.len() && is_digit(t[p]) {
        Some(digits_end(t, p))
    } else {
        None
    }
}

/// Where the integer that starts at `p` ends: an optional `-`, then digits.
pub open spec fn after_int(t: Seq<char>, p: int) -> Option<int> {
    if 0 <= p < t.len() && t[p] == '-' {
        after_digits(t, p + 1)
    } else {
        after_digits(t, p)
    }
}

/// The `i32` that `d` writes, or 0 where it writes none.
pub open spec fn i32_or_zero(d: Seq<char>) -> i32 {
    match i32_of(d) {
        Some(v) => v,
        None => 0,
    }
}

/// Whether `c` is one of the letters `A` to `Z`.
pub open spec fn is_upper(c: char) -> bool {
    0x41 <= c as u32 <= 0x5A
}

/// A character of an operator name: an upper-case letter, a digit, `_`.
pub open spec fn is_name_char(c: char) -> bool {
    is_upper(c) || is_digit(c) || c == '_'
}

/// The first position at or after `i` that holds no name character.
pub open spec fn name_end(t: Seq<char>, i: int) -> int
    decreases t.len() - i,
{
    if 0 <= i < t.len() && is_name_char(t[i]) {
        name_end(t, i + 1)
    } else {
        i
    }
}

/// The first position at or after `i` that holds neither an upper-case
/// letter nor `_`.
pub open spec fn type_end(t: Seq<char>, i: int) -> int
    decreases t.len() - i,
{
    if 0 <= i < t.len() && (is_upper(t[i]) || t[i] == '_') {
        type_end(t, i + 1)
    } else {
        i
    }
}

/// The table that a header names: what stands between `table name = ` and
/// the next `)`, or the end, trimmed.
pub open spec fn table_name_of(t: Seq<char>) -> Option<Seq<char>> {
    match find_of(t, "table name = "@) {
        Some(p) => {
            let rest = t.subrange(p + "table name = "@.len(), t.len() as int);
            match find_of(rest, ")"@) {
                Some(e) => Some(trim_of(rest.subrange(0, e))),
                None => Some(trim_of(rest)),
            }
        },
        None => None,
    }
}

/// The destination of the data-stream sink whose header starts at `p`.
pub open spec fn sink_at(t: Seq<char>, p: int) -> Option<i32> {
    let a = p + "DATA_STREAM_SINK_OPERATOR(dest_id="@.len();
    if occurs_at(t, "DATA_STREAM_SINK_OPERATOR(dest_id="@, p) && after_digits(t, a) is Some
        && after_digits(t, a).unwrap() < t.len() && t[after_digits(t, a).unwrap()] == ')' {
        Some(i32_or_zero(t.subrange(a, after_digits(t, a).unwrap())))
    } else {
        None
    }
}

/// The first data-stream sink header at or after `p`.
pub open spec fn sink_from(t: Seq<char>, p: int) -> Option<i32>
    decreases t.len() - p,
{
    if p < 0 || p >= t.len() {
        None
    } else if sink_at(t, p) is Some {
        sink_at(t, p)
    } else {
        sink_from(t, p + 1)
    }
}

/// The exchange type and the id of the local exchange whose header starts
/// at `p`.
pub open spec fn local_at(t: Seq<char>, p: int) -> Option<(Seq<char>, i32)> {
    let a = p + "LOCAL_EXCHANGE_"@.len();
    let b = if occurs_at(t, "SINK_"@, a) {
        a + "SINK_"@.len()
    } else {
        a
    };
    let c = b + "OPERATOR("@.len();
    let d = type_end(t, c);
    let e = d + ")(id="@.len();
    if occurs_at(t, "LOCAL_EXCHANGE_"@, p) && occurs_at(t, "OPERATOR("@, b) && d > c && occurs_at(
        t,
        ")(id="@,
        d,
    ) && after_int(t, e) is Some && after_int(t, e).unwrap() < t.len() && t[after_int(
        t,
        e,
    ).unwrap()] == ')' {
        Some((t.subrange(c, d), i32_or_zero(t.subrange(e, after_int(t, e).unwrap()))))
    } else {
        None
    }
}

/// The first local exchange header at or after `p`.
pub open spec fn local_from(t: Seq<char>, p: int) -> Option<(Seq<char>, i32)>
    decreases t.len() - p,
{
    if p < 0 || p >= t.len() {
        None
    } else if local_at(t, p) is Some {
        local_at(t, p)
    } else {
        local_from(t, p + 1)
    }
}

/// The rest of a dotted header from its `(id=` at `w`: the id, and the
/// nereids id where `nereids_id=<digits>` follows the id, a point and
/// whitespace being optional between them.
pub open spec fn dotted_tail(t: Seq<char>, w: int) -> Option<(i32, Option<i32>)> {
    let a = w + "(id="@.len();
    if occurs_at(t, "(id="@, w) && after_int(t, a) is Some {
        let f = after_int(t, a).unwrap();
        let g = if 0 <= f < t.len() && t[f] == '.' {
            f + 1
        } else {
            f
        };
        let h = skip_spaces(t, g);
        let k = h + "nereids_id="@.len();
        let nereids = if occurs_at(t, "nereids_id="@, h) && after_digits(t, k) is Some {
            i32_of(t.subrange(k, after_digits(t, k).unwrap()))
        } else {
            None
        };
        Some((i32_or_zero(t.subrange(a, f)), nereids))
    } else {
        None
    }
}

/// The rest of a standard header from `w`: an optional
/// `(nereids_id=<digits>)`, optional whitespace, then `(id=<int>`.
pub open spec fn standard_tail(t: Seq<char>, w: int) -> Option<(i32, Option<i32>)> {
    let k = w + "(nereids_id="@.len();
    let tagged = occurs_at(t, "(nereids_id="@, w) && after_digits(t, k) is Some && after_digits(
        t,
        k,
    ).unwrap() < t.len() && t[after_digits(t, k).unwrap()] == ')';
    let nereids = if tagged {
        i32_of(t.subrange(k, after_digits(t, k).unwrap()))
    } else {
        None
    };
    let w2 = if tagged {
        skip_spaces(t, after_digits(t, k).unwrap() + 1)
    } else {
        w
    };
    let a = w2 + "(id="@.len();
    if occurs_at(t, "(id="@, w2) && after_int(t, a) is Some {
        Some((i32_or_zero(t.subrange(a, after_int(t, a).unwrap())), nereids))
    } else {
        None
    }
}

/// A header that begins with the operator's name: dotted where whitespace
/// separates the name from `(id=`, else standard.
pub open spec fn named_header(t: Seq<char>) -> Option<HeaderView> {
    let e = name_end(t, 0);
    let w = skip_spaces(t, e);
    if t.len() > 0 && is_upper(t[0]) {
        let tail = if w > e && dotted_tail(t, w) is Some {
            dotted_tail(t, w)
        } else {
            standard_tail(t, w)
        };
        match tail {
            Some((id, nereids_id)) => Some(
                HeaderView {
                    name: t.subrange(0, e),
                    id,
                    nereids_id,
                    dest_id: None,
                    exchange_type: None,
                    table_name: table_name_of(t),
                },
            ),
            None => None,
        }
    } else {
        None
    }
}

/// `t` without the colons at its end.
pub open spec fn without_colons(t: Seq<char>, j: int) -> int
    decreases j,
{
    if 0 < j <= t.len() && t[j - 1] == ':' {
        without_colons(t, j - 1)
    } else {
        j
    }
}

/// The text of a header line: trimmed, and without the colons at its end.
pub open spec fn header_text(line: Seq<char>) -> Seq<char> {
    let t = trim_of(line);
    t.subrange(0, without_colons(t, t.len() as int))
}

/// What the header text `t` says, by the first of the four forms that it
/// has.
pub open spec fn header_of_text(t: Seq<char>) -> Option<HeaderView> {
    if sink_from(t, 0) is Some {
        Some(
            HeaderView {
                name: "DATA_STREAM_SINK_OPERATOR"@,
                id: -1i32,
                nereids_id: None,
                dest_id: sink_from(t, 0),
                exchange_type: None,
                table_name: None,
            },
        )
    } else if local_from(t, 0) is Some {
        let (kind, id) = local_from(t, 0).unwrap();
        Some(
            HeaderView {
                name: if contains_of(t, "SINK"@) {
                    "LOCAL_EXCHANGE_SINK_OPERATOR"@
                } else {
                    "LOCAL_EXCHANGE_OPERATOR"@
                },
                id,
                nereids_id: None,
                dest_id: None,
                exchange_type: Some(kind),
                table_name: None,
            },
        )
    } else {
        named_header(t)
    }
}

/// What a header line says of its operator, if it is one.
pub open spec fn header_of(line: Seq<char>) -> Option<HeaderView> {
    header_of_text(header_text(line))
}

/// Where `w` ends if it stands at `p`.
pub fn word_end(t: &[char], p: usize, w: &[char]) -> (r: Option<usize>)
    ensures
        pos_of(r) == after_word(t@, p as int, w@),
        r matches Some(e) ==> p <= e <= t@.len(),
{
    if matches_at(t, w, p) {
        let n: usize = t.len();
        assert(p + w.len() <= n);
        Some(p + w.len())
    } else {
        None
    }
}

/// Where the run of one or more digits that starts at `p` ends.
pub fn digits_after(t: &[char], p: usize) -> (r: Option<usize>)
    ensures
        pos_of(r) == after_digits(t@, p as int),
        r matches Some(e) ==> p < e <= t@.len(),
{
    if p < t.len() && char_is_digit(t[p]) {
        proof {
            lemma_digits_end(t@, p + 1);
        }
        Some(scan_digits(t, p))
    } else {
        None
    }
}

/// Where the integer that starts at `p` ends.
fn int_after(t: &[char], p: usize) -> (r: Option<usize>)
    ensures
        pos_of(r) == after_int(t@, p as int),
        r matches Some(e) ==> p < e <= t@.len(),
{
    if p < t.len() && t[p] == '-' {
        digits_after(t, p + 1)
    } else {
        digits_after(t, p)
    }
}

/// The `i32` that stands in `t` from `a` to `b`, or 0.
fn i32_between(t: &[char], a: usize, b: usize) -> (r: i32)
    requires
        a <= b <= t@.len(),
    ensures
        r == i32_or_zero(t@.subrange(a as int, b as int)),
{
    match parse_i32(slice_subrange(t, a, b)) {
        Some(v) => v,
        None => 0,
    }
}

fn char_is_upper(c: char) -> (r: bool)
    ensures
        r == is_upper(c),
{
    let n: u32 = c as u32;
    0x41 <= n && n <= 0x5A
}

fn scan_name(t: &[char], i: usize) -> (e: usize)
    requires
        i <= t@.len(),
    ensures
        e == name_end(t@, i as int),
        i <= e <= t@.len(),
{
    let mut e: usize = i;
    while e < t.len() && (char_is_upper(t[e]) || char_is_digit(t[e]) || t[e] == '_')
        invariant
            i <= e <= t.len(),
            name_end(t@, i as int) == name_end(t@, e as int),
        decreases t.len() - e,
    {
        e += 1;
    }
    e
}

fn scan_type(t: &[char], i: usize) -> (e: usize)
    requires
        i <= t@.len(),
    ensures
        e == type_end(t@, i as int),
        i <= e <= t@.len(),
{
    let mut e: usize = i;
    while e < t.len() && (char_is_upper(t[e]) || t[e] == '_')
        invariant
            i <= e <= t.len(),
            type_end(t@, i as int) == type_end(t@, e as int),
        decreases t.len() - e,
    {
        e += 1;
    }
    e
}

/// The table that a header names.
fn table_name(t: &[char]) -> (r: Option<String>)
    ensures
        r.deep_view() == table_name_of(t@),
{
    let key = chars_of("table name = ");
    let close = chars_of(")");
    proof {
        lemma_find_from_bounds(t@, "table name = "@, 0);
    }
    match find(t, key.as_slice()) {
        Some(p) => {
            assert(occurs_at(t@, "table name = "@, p as int));
            let n: usize = t.len();
            let rest = slice_subrange(t, p + key.len(), n);
            proof {
                lemma_find_from_bounds(rest@, ")"@, 0);
            }
            match find(rest, close.as_slice()) {
                Some(e) => Some(string_of(trim(slice_subrange(rest, 0, e)))),
                None => Some(string_of(trim(rest))),
            }
        },
        None => None,
    }
}

/// The first data-stream sink header in `t`.
fn find_sink(t: &[char]) -> (r: Option<i32>)
    ensures
        r == sink_from(t@, 0),
{
    let word = chars_of("DATA_STREAM_SINK_OPERATOR(dest_id=");
    let mut p: usize = 0;
    while p < t.len()
        invariant
            p <= t.len(),
            word@ == "DATA_STREAM_SINK_OPERATOR(dest_id="@,
            sink_from(t@, 0) == sink_from(t@, p as int),
        decreases t.len() - p,
    {
        match word_end(t, p, word.as_slice()) {
            Some(a) => match digits_after(t, a) {
                Some(e) => {
                    if e < t.len() && t[e] == ')' {
                        return Some(i32_between(t, a, e));
                    }
                },
                None => {},
            },
            None => {},
        }
        p += 1;
    }
    None
}

/// The local exchange header that starts at `p`.
fn local_here(t: &[char], p: usize) -> (r: Option<(String, i32)>)
    requires
        p < t@.len(),
    ensures
        r is Some == local_at(t@, p as int) is Some,
        r matches Some((kind, id)) ==> local_at(t@, p as int) == Some((kind@, id)),
{
    let head = chars_of("LOCAL_EXCHANGE_");
    let sink = chars_of("SINK_");
    let oper = chars_of("OPERATOR(");
    let mid = chars_of(")(id=");
    let a: usize = match word_end(t, p, head.as_slice()) {
        Some(a) => a,
        None => {
            return None;
        },
    };
    let b: usize = match word_end(t, a, sink.as_slice()) {
        Some(b) => b,
        None => a,
    };
    let c: usize = match word_end(t, b, oper.as_slice()) {
        Some(c) => c,
        None => {
            return None;
        },
    };
    let d: usize = scan_type(t, c);
    if d <= c {
        return None;
    }
    let e: usize = match word_end(t, d, mid.as_slice()) {
        Some(e) => e,
        None => {
            return None;
        },
    };
    let f: usize = match int_after(t, e) {
        Some(f) => f,
        None => {
            return None;
        },
    };
    if f >= t.len() || t[f] != ')' {
        return None;
    }
    Some((string_of(slice_subrange(t, c, d)), i32_between(t, e, f)))
}

/// The first local exchange header in `t`.
fn find_local(t: &[char]) -> (r: Option<(String, i32)>)
    ensures
        r is Some == local_from(t@, 0) is Some,
        r matches Some((kind, id)) ==> local_from(t@, 0) == Some((kind@, id)),
{
    let mut p: usize = 0;
    while p < t.len()
        invariant
            p <= t.len(),
            local_from(t@, 0) == local_from(t@, p as int),
        decreases t.len() - p,
    {
        let here = local_here(t, p);
        if here.is_some() {
            return here;
        }
        p += 1;
    }
    None
}

/// The rest of a dotted header from `w`.
fn dotted_rest(t: &[char], w: usize) -> (r: Option<(i32, Option<i32>)>)
    requires
        w <= t@.len(),
    ensures
        r == dotted_tail(t@, w as int),
{
    let open = chars_of("(id=");
    let tag = chars_of("nereids_id=");
    let a: usize = match word_end(t, w, open.as_slice()) {
        Some(a) => a,
        None => {
            return None;
        },
    };
    let f: usize = match int_after(t, a) {
        Some(f) => f,
        None => {
            return None;
        },
    };
    let g: usize = if f < t.len() && t[f] == '.' {
        f + 1
    } else {
        f
    };
    let h: usize = skip_space_run(t, g);
    let nereids: Option<i32> = match word_end(t, h, tag.as_slice()) {
        Some(k) => match digits_after(t, k) {
            Some(m) => parse_i32(slice_subrange(t, k, m)),
            None => None,
        },
        None => None,
    };
    Some((i32_between(t, a, f), nereids))
}

/// The rest of a standard header from `w`.
fn standard_rest(t: &[char], w: usize) -> (r: Option<(i32, Option<i32>)>)
    requires
        w <= t@.len(),
    ensures
        r == standard_tail(t@, w as int),
{
    let open = chars_of("(id=");
    let tag = chars_of("(nereids_id=");
    let mut nereids: Option<i32> = None;
    let mut w2: usize = w;
    match word_end(t, w, tag.as_slice()) {
        Some(k) => match digits_after(t, k) {
            Some(m) => {
                if m < t.len() && t[m] == ')' {
                    nereids = parse_i32(slice_subrange(t, k, m));
                    w2 = skip_space_run(t, m + 1);
                }
            },
            None => {},
        },
        None => {},
    }
    let a: usize = match word_end(t, w2, open.as_slice()) {
        Some(a) => a,
        None => {
            return None;
        },
    };
    match int_after(t, a) {
        Some(f) => Some((i32_between(t, a, f), nereids)),
        None => None,
    }
}

/// A header that begins with the operator's name.
fn named(t: &[char]) -> (r: Option<Header>)
    ensures
        r.deep_view() == named_header(t@),
{
    if t.len() == 0 || !char_is_upper(t[0]) {
        return None;
    }
    let e: usize = scan_name(t, 0);
    let w: usize = skip_space_run(t, e);
    let dotted: Option<(i32, Option<i32>)> = if w > e {
        dotted_rest(t, w)
    } else {
        None
    };
    let tail: Option<(i32, Option<i32>)> = if dotted.is_some() {
        dotted
    } else {
        standard_rest(t, w)
    };
    match tail {
        Some((id, nereids_id)) => Some(
            Header {
                name: string_of(slice_subrange(t, 0, e)),
                id,
                nereids_id,
                dest_id: None,
                exchange_type: None,
                table_name: table_name(t),
            },
        ),
        None => None,
    }
}

/// The header text of a line.
pub fn header_chars(line: &[char]) -> (r: &[char])
    ensures
        r@ == header_text(line@),
{
    let t = trim(line);
    let mut j: usize = t.len();
    while j > 0 && t[j - 1] == ':'
        invariant
            j <= t.len(),
            without_colons(t@, t@.len() as int) == without_colons(t@, j as int),
        decreases j,
    {
        j -= 1;
    }
    slice_subrange(t, 0, j)
}

/// Reads an operator header from the characters of its line.
pub fn read_header(line: &[char]) -> (r: Option<Header>)
    ensures
        r.deep_view() == header_of(line@),
{
    let t = header_chars(line);
    match find_sink(t) {
        Some(dest) => {
            return Some(
                Header {
                    name: "DATA_STREAM_SINK_OPERATOR".to_owned(),
                    id: -1,
                    nereids_id: None,
                    dest_id: Some(dest),
                    exchange_type: None,
                    table_name: None,
                },
            );
        },
        None => {},
    }
    match find_local(t) {
        Some((kind, id)) => {
            let word = chars_of("SINK");
            let name: String = if contains(t, word.as_slice()) {
                "LOCAL_EXCHANGE_SINK_OPERATOR".to_owned()
            } else {
                "LOCAL_EXCHANGE_OPERATOR".to_owned()
            };
            return Some(
                Header {
                    name,
                    id,
                    nereids_id: None,
                    dest_id: None,
                    exchange_type: Some(kind),
                    table_name: None,
                },
            );
        },
        None => {},
    }
    named(t)
}

} // verus!

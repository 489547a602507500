//! Decoders for the scalar encodings of a profile: durations, byte sizes,
//! row counts, and `sum/avg/max/min` aggregates.

use crate::numbers::{
    all_digits, char_is_digit, clamp_i64, clamp_u64, decimal_of, digits_end, i64_of, is_digit,
    lemma_digits_end, parse_i64, read_decimal, read_digits, scale_to_i64, scale_to_u64,
    scaled_of, scan_digits, value_of,
};
use crate::text::{
    char_is_space, chars_of, ends_with, find, find_of, is_space, lemma_find_from_bounds,
    matches_at, occurs_at, same, skip_space_run, skip_spaces, string_of, trim, trim_of,
};
use vstd::prelude::*;
use vstd::slice::slice_subrange;

verus! {

/// Nanoseconds in a microsecond.
pub const NS_PER_US: u64 = 1_000;

/// Nanoseconds in a millisecond.
pub const NS_PER_MS: u64 = 1_000_000;

/// Nanoseconds in a second.
pub const NS_PER_SEC: u64 = 1_000_000_000;

/// `t` without any repetitions of `suffix` at its end.
pub open spec fn without_suffix(t: Seq<char>, suffix: Seq<char>) -> Seq<char>
    decreases t.len(),
{
    if suffix.len() > 0 && suffix.is_suffix_of(t) {
        without_suffix(t.subrange(0, t.len() - suffix.len()), suffix)
    } else {
        t
    }
}

/// The number that `digits` writes, or 0 where it is too large for an `i64`.
pub open spec fn small_value(digits: Seq<char>) -> int {
    if value_of(digits) <= i64::MAX {
        value_of(digits) as int
    } else {
        0
    }
}

/// The compound duration `<digits>sec<digits>ms` that starts at `p`: its
/// seconds and milliseconds.
pub open spec fn compound_at(t: Seq<char>, p: int) -> Option<(int, int)> {
    let e = digits_end(t, p);
    let q = e + 3;
    let f = digits_end(t, q);
    if 0 <= p < t.len() && is_digit(t[p]) && occurs_at(t, "sec"@, e) && q < t.len() && is_digit(
        t[q],
    ) && occurs_at(t, "ms"@, f) {
        Some((small_value(t.subrange(p, e)), small_value(t.subrange(q, f))))
    } else {
        None
    }
}

/// The first compound duration that starts at or after `p`.
pub open spec fn compound_from(t: Seq<char>, p: int) -> Option<(int, int)>
    decreases t.len() - p,
{
    if p < 0 || p >= t.len() {
        None
    } else if compound_at(t, p) is Some {
        compound_at(t, p)
    } else {
        compound_from(t, p + 1)
    }
}

/// The decimal numeral `t` in units of `unit`, cut toward zero, as the
/// nearest `i64`.
pub open spec fn scaled_i64(t: Seq<char>, unit: nat) -> Option<i64> {
    match decimal_of(t) {
        Some(d) => Some(clamp_i64(scaled_of(d, unit))),
        None => None,
    }
}

/// The duration that `s` writes, in nanoseconds.
///
/// Blank text, `N/A` and `0` are 0. A compound `<digits>sec<digits>ms`
/// anywhere in the text decides. Otherwise the text is a decimal numeral
/// followed by `ns`, `us`, `ms` or `s`, or a bare numeral of nanoseconds.
pub open spec fn time_ns_of(s: Seq<char>) -> Option<i64> {
    let t = trim_of(s);
    if t.len() == 0 || t == "N/A"@ || t == "0"@ {
        Some(0i64)
    } else if compound_from(t, 0) is Some {
        let (secs, ms) = compound_from(t, 0).unwrap();
        Some(clamp_i64(secs * NS_PER_SEC + ms * NS_PER_MS))
    } else if "ns"@.is_suffix_of(t) {
        scaled_i64(trim_of(without_suffix(t, "ns"@)), 1)
    } else if "us"@.is_suffix_of(t) {
        scaled_i64(trim_of(without_suffix(t, "us"@)), NS_PER_US as nat)
    } else if "ms"@.is_suffix_of(t) {
        scaled_i64(trim_of(without_suffix(t, "ms"@)), NS_PER_MS as nat)
    } else if "s"@.is_suffix_of(t) {
        scaled_i64(trim_of(without_suffix(t, "s"@)), NS_PER_SEC as nat)
    } else {
        scaled_i64(t, 1)
    }
}

/// Removes every repetition of `suffix` from the end of `t`.
pub fn strip_suffix_all<'a>(t: &'a [char], suffix: &[char]) -> (r: &'a [char])
    ensures
        r@ == without_suffix(t@, suffix@),
{
    if suffix.len() == 0 {
        return t;
    }
    let mut end: usize = t.len();
    assert(t@.subrange(0, end as int) =~= t@);
    loop
        invariant
            suffix.len() > 0,
            end <= t.len(),
            without_suffix(t@, suffix@) == without_suffix(t@.subrange(0, end as int), suffix@),
        decreases end,
    {
        let cur = slice_subrange(t, 0, end);
        if !ends_with(cur, suffix) {
            return cur;
        }
        proof {
            assert(cur@.subrange(0, cur@.len() - suffix@.len()) =~= t@.subrange(
                0,
                end - suffix@.len(),
            ));
        }
        end = end - suffix.len();
    }
}

/// The value of a run of digits, 0 where it is too large for an `i64`.
fn small_digits(t: &[char], from: usize, to: usize) -> (r: u64)
    requires
        from <= to <= t@.len(),
        all_digits(t@.subrange(from as int, to as int)),
    ensures
        r == small_value(t@.subrange(from as int, to as int)),
        r <= i64::MAX,
{
    match read_digits(slice_subrange(t, from, to)) {
        Some(v) => if v > 0x7fff_ffff_ffff_ffff {
            0
        } else {
            v as u64
        },
        None => 0,
    }
}

/// The compound duration that starts at `p`, if one does.
fn compound_here(t: &[char], p: usize, sec: &[char], ms: &[char]) -> (r: Option<(u64, u64)>)
    requires
        p < t@.len(),
        sec@ == "sec"@,
        ms@ == "ms"@,
    ensures
        r is Some == compound_at(t@, p as int) is Some,
        r matches Some((a, b)) ==> compound_at(t@, p as int) == Some((a as int, b as int)) && a
            <= i64::MAX && b <= i64::MAX,
{
    proof {
        reveal_strlit("sec");
        reveal_strlit("ms");
    }
    if !char_is_digit(t[p]) {
        return None;
    }
    let e: usize = scan_digits(t, p);
    if !matches_at(t, sec, e) {
        return None;
    }
    let q: usize = e + 3;
    if q >= t.len() || !char_is_digit(t[q]) {
        return None;
    }
    let f: usize = scan_digits(t, q);
    if !matches_at(t, ms, f) {
        return None;
    }
    proof {
        lemma_digits_end(t@, p as int);
        lemma_digits_end(t@, q as int);
    }
    Some((small_digits(t, p, e), small_digits(t, q, f)))
}

/// The first compound duration in `t`.
fn find_compound(t: &[char]) -> (r: Option<(u64, u64)>)
    ensures
        r is Some == compound_from(t@, 0) is Some,
        r matches Some((a, b)) ==> compound_from(t@, 0) == Some((a as int, b as int)) && a
            <= i64::MAX && b <= i64::MAX,
{
    let sec = chars_of("sec");
    let ms = chars_of("ms");
    let mut p: usize = 0;
    while p < t.len()
        invariant
            p <= t.len(),
            sec@ == "sec"@,
            ms@ == "ms"@,
            compound_from(t@, 0) == compound_from(t@, p as int),
        decreases t.len() - p,
    {
        let here = compound_here(t, p, sec.as_slice(), ms.as_slice());
        if here.is_some() {
            return here;
        }
        p += 1;
    }
    None
}

/// Reads `t` as a decimal numeral in units of `unit`.
pub fn scale_text(t: &[char], unit: u64) -> (r: Option<i64>)
    requires
        1 <= unit,
    ensures
        r == scaled_i64(t@, unit as nat),
{
    match read_decimal(t) {
        Some(parts) => Some(scale_to_i64(&parts, unit)),
        None => None,
    }
}

/// Decodes a duration from the characters of its text.
pub fn time_ns(s: &[char]) -> (r: Option<i64>)
    ensures
        r == time_ns_of(s@),
{
    let t = trim(s);
    let na = chars_of("N/A");
    let zero = chars_of("0");
    if t.len() == 0 || same(t, na.as_slice()) || same(t, zero.as_slice()) {
        return Some(0);
    }
    match find_compound(t) {
        Some((secs, ms)) => {
            let total: u128 = (secs as u128) * (NS_PER_SEC as u128) + (ms as u128) * (
            NS_PER_MS as u128);
            return Some(
                if total > 0x7fff_ffff_ffff_ffff {
                    i64::MAX
                } else {
                    total as i64
                },
            );
        },
        None => {},
    }
    let ns = chars_of("ns");
    let us = chars_of("us");
    let ms = chars_of("ms");
    let sec = chars_of("s");
    if ends_with(t, ns.as_slice()) {
        scale_text(trim(strip_suffix_all(t, ns.as_slice())), 1)
    } else if ends_with(t, us.as_slice()) {
        scale_text(trim(strip_suffix_all(t, us.as_slice())), NS_PER_US)
    } else if ends_with(t, ms.as_slice()) {
        scale_text(trim(strip_suffix_all(t, ms.as_slice())), NS_PER_MS)
    } else if ends_with(t, sec.as_slice()) {
        scale_text(trim(strip_suffix_all(t, sec.as_slice())), NS_PER_SEC)
    } else {
        scale_text(t, 1)
    }
}

/// Where the numeral that starts at `p` ends: a run of digits, then
/// optionally a point and another run of digits.
pub open spec fn number_end(t: Seq<char>, p: int) -> int {
    let e = digits_end(t, p);
    if 0 <= e && e + 1 < t.len() && t[e] == '.' && is_digit(t[e + 1]) {
        digits_end(t, e + 1)
    } else {
        e
    }
}

/// The byte unit that stands at `q` (`B`, `KB`, `MB`, `GB`, `TB`), as a
/// number of bytes.
pub open spec fn byte_unit_at(t: Seq<char>, q: int) -> Option<nat> {
    if q < 0 || q >= t.len() {
        None
    } else if t[q] == 'B' {
        Some(1)
    } else if q + 1 < t.len() && t[q + 1] == 'B' {
        if t[q] == 'K' {
            Some(0x400)
        } else if t[q] == 'M' {
            Some(0x10_0000)
        } else if t[q] == 'G' {
            Some(0x4000_0000)
        } else if t[q] == 'T' {
            Some(0x100_0000_0000)
        } else {
            None
        }
    } else {
        None
    }
}

/// The size that starts at `p`: a numeral, optional whitespace, a byte unit.
pub open spec fn memory_at(t: Seq<char>, p: int) -> Option<(Seq<char>, nat)> {
    let e = number_end(t, p);
    let q = skip_spaces(t, e);
    if 0 <= p < t.len() && is_digit(t[p]) && byte_unit_at(t, q) is Some {
        Some((t.subrange(p, e), byte_unit_at(t, q).unwrap()))
    } else {
        None
    }
}

/// The first size that starts at or after `p`.
pub open spec fn memory_from(t: Seq<char>, p: int) -> Option<(Seq<char>, nat)>
    decreases t.len() - p,
{
    if p < 0 || p >= t.len() {
        None
    } else if memory_at(t, p) is Some {
        memory_at(t, p)
    } else {
        memory_from(t, p + 1)
    }
}

/// The numeral `num` in units of `unit`, cut toward zero, as the nearest
/// `u64`; 0 where `num` is no numeral.
pub open spec fn scaled_u64(num: Seq<char>, unit: nat) -> u64 {
    match decimal_of(num) {
        Some(d) => clamp_u64(scaled_of(d, unit)),
        None => 0,
    }
}

/// The size that `s` writes, in bytes, on a base of 1024.
///
/// Blank text, `N/A` and `0.00` are 0. Otherwise the first numeral that a
/// byte unit follows decides; without one there is no size.
pub open spec fn bytes_of(s: Seq<char>) -> Option<u64> {
    let t = trim_of(s);
    if t.len() == 0 || t == "N/A"@ || t == "0.00"@ {
        Some(0u64)
    } else {
        match memory_from(t, 0) {
            Some((num, unit)) => Some(scaled_u64(num, unit)),
            None => None,
        }
    }
}

/// The magnitude letter that stands at `q` (`K`, `M`, `B`), as a factor.
pub open spec fn count_unit_at(t: Seq<char>, q: int) -> nat {
    if 0 <= q < t.len() && t[q] == 'K' {
        1_000
    } else if 0 <= q < t.len() && t[q] == 'M' {
        1_000_000
    } else if 0 <= q < t.len() && t[q] == 'B' {
        1_000_000_000
    } else {
        1
    }
}

/// The first position at or after `p` that holds a digit, or the length.
pub open spec fn first_digit(t: Seq<char>, p: int) -> int
    decreases t.len() - p,
{
    if 0 <= p < t.len() && !is_digit(t[p]) {
        first_digit(t, p + 1)
    } else {
        p
    }
}

/// The integer between the first `(` and the first `)` of `t`.
pub open spec fn exact_count(t: Seq<char>) -> Option<i64> {
    match (find_of(t, "("@), find_of(t, ")"@)) {
        (Some(a), Some(b)) => if a < b {
            i64_of(t.subrange(a + 1, b))
        } else {
            None
        },
        _ => None,
    }
}

/// The numeral `num` times `unit`, cut toward zero, as the nearest `i64`; 0
/// where `num` is no numeral.
pub open spec fn scaled_or_zero(num: Seq<char>, unit: nat) -> i64 {
    match decimal_of(num) {
        Some(d) => clamp_i64(scaled_of(d, unit)),
        None => 0,
    }
}

/// The count that `s` writes.
///
/// Blank text and `N/A` are 0. An exact integer in parentheses decides.
/// Otherwise the first numeral counts, times the magnitude letter that
/// follows it; without a digit there is no count.
pub open spec fn count_of(s: Seq<char>) -> Option<i64> {
    let t = trim_of(s);
    if t.len() == 0 || t == "N/A"@ {
        Some(0i64)
    } else if exact_count(t) is Some {
        exact_count(t)
    } else {
        let p = first_digit(t, 0);
        let e = number_end(t, p);
        let q = skip_spaces(t, e);
        if p < t.len() {
            Some(scaled_or_zero(t.subrange(p, e), count_unit_at(t, q)))
        } else {
            None
        }
    }
}

/// The end of the numeral that starts at `p`.
fn scan_number(t: &[char], p: usize) -> (e: usize)
    requires
        p <= t@.len(),
    ensures
        e == number_end(t@, p as int),
        p <= e <= t@.len(),
{
    let e: usize = scan_digits(t, p);
    if e < t.len() && t.len() - e > 1 && t[e] == '.' && char_is_digit(t[e + 1]) {
        scan_digits(t, e + 1)
    } else {
        e
    }
}

/// The byte unit at `q`.
fn byte_unit(t: &[char], q: usize) -> (r: Option<u64>)
    ensures
        r is Some == byte_unit_at(t@, q as int) is Some,
        r matches Some(u) ==> byte_unit_at(t@, q as int) == Some(u as nat) && u >= 1,
{
    if q >= t.len() {
        None
    } else if t[q] == 'B' {
        Some(1)
    } else if t.len() - q > 1 && t[q + 1] == 'B' {
        if t[q] == 'K' {
            Some(0x400)
        } else if t[q] == 'M' {
            Some(0x10_0000)
        } else if t[q] == 'G' {
            Some(0x4000_0000)
        } else if t[q] == 'T' {
            Some(0x100_0000_0000)
        } else {
            None
        }
    } else {
        None
    }
}

/// Decodes a byte size from the characters of its text.
pub fn memory_bytes(s: &[char]) -> (r: Option<u64>)
    ensures
        r == bytes_of(s@),
{
    let t = trim(s);
    let na = chars_of("N/A");
    let zero = chars_of("0.00");
    if t.len() == 0 || same(t, na.as_slice()) || same(t, zero.as_slice()) {
        return Some(0);
    }
    let mut p: usize = 0;
    while p < t.len()
        invariant
            p <= t.len(),
            t@ == trim_of(s@),
            t@.len() != 0 && t@ != "N/A"@ && t@ != "0.00"@,
            memory_from(t@, 0) == memory_from(t@, p as int),
        decreases t.len() - p,
    {
        if char_is_digit(t[p]) {
            let e: usize = scan_number(t, p);
            let q: usize = skip_space_run(t, e);
            match byte_unit(t, q) {
                Some(unit) => {
                    let num = slice_subrange(t, p, e);
                    let bytes: u64 = match read_decimal(num) {
                        Some(parts) => scale_to_u64(&parts, unit),
                        None => 0,
                    };
                    proof {
                        assert(memory_at(t@, p as int) == Some((num@, unit as nat)));
                        assert(bytes == scaled_u64(num@, unit as nat));
                    }
                    return Some(bytes);
                },
                None => {},
            }
        }
        p += 1;
    }
    None
}

/// The exact count in parentheses, if `t` holds one.
fn exact_in_parens(t: &[char]) -> (r: Option<i64>)
    ensures
        r == exact_count(t@),
{
    let open = chars_of("(");
    let close = chars_of(")");
    let a = find(t, open.as_slice());
    let b = find(t, close.as_slice());
    proof {
        lemma_find_from_bounds(t@, "("@, 0);
        lemma_find_from_bounds(t@, ")"@, 0);
    }
    match (a, b) {
        (Some(a), Some(b)) => if a < b {
            parse_i64(slice_subrange(t, a + 1, b))
        } else {
            None
        },
        _ => None,
    }
}

/// Decodes a count from the characters of its text.
pub fn count(s: &[char]) -> (r: Option<i64>)
    ensures
        r == count_of(s@),
{
    let t = trim(s);
    let na = chars_of("N/A");
    if t.len() == 0 || same(t, na.as_slice()) {
        return Some(0);
    }
    let exact = exact_in_parens(t);
    if exact.is_some() {
        return exact;
    }
    let mut p: usize = 0;
    while p < t.len() && !char_is_digit(t[p])
        invariant
            p <= t.len(),
            first_digit(t@, 0) == first_digit(t@, p as int),
        decreases t.len() - p,
    {
        p += 1;
    }
    if p >= t.len() {
        return None;
    }
    let e: usize = scan_number(t, p);
    let q: usize = skip_space_run(t, e);
    let unit: u64 = if q < t.len() && t[q] == 'K' {
        1_000
    } else if q < t.len() && t[q] == 'M' {
        1_000_000
    } else if q < t.len() && t[q] == 'B' {
        1_000_000_000
    } else {
        1
    };
    Some(
        match read_decimal(slice_subrange(t, p, e)) {
            Some(parts) => scale_to_i64(&parts, unit),
            None => 0,
        },
    )
}

/// A multi-statistic metric: the statistics that its text names, and the
/// text itself.
#[derive(Debug)]
pub struct AggregatedValue {
    pub sum: Option<i64>,
    pub avg: Option<i64>,
    pub max: Option<i64>,
    pub min: Option<i64>,
    pub raw: String,
}

/// An aggregate as mathematical values.
pub struct AggregatedView {
    pub sum: Option<i64>,
    pub avg: Option<i64>,
    pub max: Option<i64>,
    pub min: Option<i64>,
    pub raw: Seq<char>,
}

impl DeepView for AggregatedValue {
    type V = AggregatedView;

    open spec fn deep_view(&self) -> AggregatedView {
        AggregatedView { sum: self.sum, avg: self.avg, max: self.max, min: self.min, raw: self.raw@ }
    }
}

impl Default for AggregatedValue {
    fn default() -> (r: Self)
        ensures
            r.deep_view() == (AggregatedView {
                sum: None,
                avg: None,
                max: None,
                min: None,
                raw: Seq::empty(),
            }),
    {
        AggregatedValue { sum: None, avg: None, max: None, min: None, raw: String::new() }
    }
}

/// One of the four statistics of an aggregate.
#[derive(Debug, Clone, Copy, PartialEq, Eq, Structural)]
pub enum Statistic {
    Sum,
    Avg,
    Max,
    Min,
}

/// A statistic's value: a duration where the text is one, else a count.
pub open spec fn stat_of(v: Seq<char>) -> Option<i64> {
    match time_ns_of(v) {
        Some(x) => Some(x),
        None => count_of(v),
    }
}

/// The label (`sum`, `avg`, `max`, `min`) that stands at `q`.
pub open spec fn label_at(s: Seq<char>, q: int) -> Option<Statistic> {
    if occurs_at(s, "sum"@, q) {
        Some(Statistic::Sum)
    } else if occurs_at(s, "avg"@, q) {
        Some(Statistic::Avg)
    } else if occurs_at(s, "max"@, q) {
        Some(Statistic::Max)
    } else if occurs_at(s, "min"@, q) {
        Some(Statistic::Min)
    } else {
        None
    }
}

/// The first position at or after `i` that holds a comma, or the length.
pub open spec fn comma_end(s: Seq<char>, i: int) -> int
    decreases s.len() - i,
{
    if 0 <= i < s.len() && s[i] != ',' {
        comma_end(s, i + 1)
    } else {
        i
    }
}

/// A labelled value at `q`: a label, whitespace, and text up to the next
/// comma. Gives the label, the trimmed text, and where the text ends.
pub open spec fn stat_at(s: Seq<char>, q: int) -> Option<(Statistic, Seq<char>, int)> {
    let c = comma_end(s, q + 4);
    if label_at(s, q) is Some && q + 4 < s.len() && is_space(s[q + 3]) && c > q + 4 {
        Some((label_at(s, q).unwrap(), trim_of(s.subrange(q + 4, c)), c))
    } else {
        None
    }
}

/// `acc` with the statistic `which` set to `v`.
pub open spec fn with_stat(acc: AggregatedView, which: Statistic, v: Option<i64>) -> AggregatedView {
    match which {
        Statistic::Sum => AggregatedView { sum: v, ..acc },
        Statistic::Avg => AggregatedView { avg: v, ..acc },
        Statistic::Max => AggregatedView { max: v, ..acc },
        Statistic::Min => AggregatedView { min: v, ..acc },
    }
}

/// Collects the labelled values of `s` from `q` on, none starting before
/// `resume`, into `acc`. A later value of a label replaces an earlier one.
pub open spec fn agg_scan(s: Seq<char>, q: int, resume: int, acc: AggregatedView) -> AggregatedView
    decreases s.len() - q,
{
    if q < 0 || q >= s.len() {
        acc
    } else if q < resume {
        agg_scan(s, q + 1, resume, acc)
    } else {
        match stat_at(s, q) {
            Some((which, text, end)) => agg_scan(
                s,
                q + 1,
                end,
                with_stat(acc, which, stat_of(text)),
            ),
            None => agg_scan(s, q + 1, resume, acc),
        }
    }
}

/// The aggregate that `s` writes: each `<label> <value>` pair between
/// commas sets its statistic; statistics that `s` does not name are unset.
pub open spec fn aggregated_of(s: Seq<char>) -> AggregatedView {
    agg_scan(s, 0, 0, AggregatedView { sum: None, avg: None, max: None, min: None, raw: s })
}

/// The representative value of a metric: what follows the first `avg ` up
/// to the next comma, else the whole text; trimmed either way.
pub open spec fn first_value_of(s: Seq<char>) -> Seq<char> {
    let t = trim_of(s);
    match find_of(t, "avg "@) {
        Some(p) => {
            let rest = t.subrange(p + 4, t.len() as int);
            match find_of(rest, ","@) {
                Some(e) => trim_of(rest.subrange(0, e)),
                None => trim_of(rest),
            }
        },
        None => t,
    }
}

/// Scanning skips to `resume`.
proof fn lemma_agg_scan_skip(s: Seq<char>, q: int, resume: int, acc: AggregatedView)
    requires
        0 <= q <= resume <= s.len(),
    ensures
        agg_scan(s, q, resume, acc) == agg_scan(s, resume, resume, acc),
    decreases resume - q,
{
    if q < resume {
        lemma_agg_scan_skip(s, q + 1, resume, acc);
    }
}

/// Once past `resume`, its value no longer matters.
proof fn lemma_agg_scan_resume(s: Seq<char>, q: int, a: int, b: int, acc: AggregatedView)
    requires
        a <= q,
        b <= q,
    ensures
        agg_scan(s, q, a, acc) == agg_scan(s, q, b, acc),
    decreases s.len() - q,
{
    if 0 <= q < s.len() {
        match stat_at(s, q) {
            Some((which, text, end)) => {},
            None => {
                lemma_agg_scan_resume(s, q + 1, a, b, acc);
            },
        }
    }
}

/// The end of the text that runs from `i` to the next comma.
fn scan_to_comma(s: &[char], i: usize) -> (c: usize)
    requires
        i <= s@.len(),
    ensures
        c == comma_end(s@, i as int),
        i <= c <= s@.len(),
{
    let mut c: usize = i;
    while c < s.len() && s[c] != ','
        invariant
            i <= c <= s.len(),
            comma_end(s@, i as int) == comma_end(s@, c as int),
        decreases s.len() - c,
    {
        c += 1;
    }
    c
}

/// The words that label the statistics.
struct Labels {
    sum: Vec<char>,
    avg: Vec<char>,
    max: Vec<char>,
    min: Vec<char>,
}

impl Labels {
    spec fn wf(self) -> bool {
        &&& self.sum@ == "sum"@
        &&& self.avg@ == "avg"@
        &&& self.max@ == "max"@
        &&& self.min@ == "min"@
    }

    fn new() -> (r: Labels)
        ensures
            r.wf(),
    {
        Labels {
            sum: chars_of("sum"),
            avg: chars_of("avg"),
            max: chars_of("max"),
            min: chars_of("min"),
        }
    }
}

/// The labelled value at `q`, if one stands there.
fn stat_here<'a>(s: &'a [char], q: usize, labels: &Labels) -> (r: Option<
    (Statistic, &'a [char], usize),
>)
    requires
        q < s@.len(),
        labels.wf(),
    ensures
        r is Some == stat_at(s@, q as int) is Some,
        r matches Some((which, text, end)) ==> stat_at(s@, q as int) == Some(
            (which, text@, end as int),
        ) && q < end <= s@.len(),
{
    let which = if matches_at(s, labels.sum.as_slice(), q) {
        Statistic::Sum
    } else if matches_at(s, labels.avg.as_slice(), q) {
        Statistic::Avg
    } else if matches_at(s, labels.max.as_slice(), q) {
        Statistic::Max
    } else if matches_at(s, labels.min.as_slice(), q) {
        Statistic::Min
    } else {
        return None;
    };
    proof {
        reveal_strlit("sum");
        reveal_strlit("avg");
        reveal_strlit("max");
        reveal_strlit("min");
    }
    if s.len() - q <= 4 || !char_is_space(s[q + 3]) {
        return None;
    }
    let c: usize = scan_to_comma(s, q + 4);
    if c <= q + 4 {
        return None;
    }
    Some((which, trim(slice_subrange(s, q + 4, c)), c))
}

/// A statistic's value from the characters of its text.
fn stat_value(text: &[char]) -> (r: Option<i64>)
    ensures
        r == stat_of(text@),
{
    match time_ns(text) {
        Some(x) => Some(x),
        None => count(text),
    }
}

/// The representative value of a metric, from the characters of its text.
pub fn first_value(s: &[char]) -> (r: Vec<char>)
    ensures
        r@ == first_value_of(s@),
{
    let t = trim(s);
    let avg = chars_of("avg ");
    let comma = chars_of(",");
    proof {
        reveal_strlit("avg ");
        lemma_find_from_bounds(t@, "avg "@, 0);
    }
    let picked: &[char] = match find(t, avg.as_slice()) {
        Some(p) => {
            assert(find_of(t@, "avg "@) == Some(p as int));
            assert(occurs_at(t@, "avg "@, p as int));
            assert("avg "@.len() == 4);
            let n: usize = t.len();
            assert(p + 4 <= n);
            let rest = slice_subrange(t, p + 4, t.len());
            proof {
                lemma_find_from_bounds(rest@, ","@, 0);
            }
            match find(rest, comma.as_slice()) {
                Some(e) => trim(slice_subrange(rest, 0, e)),
                None => trim(rest),
            }
        },
        None => t,
    };
    vstd::slice::slice_to_vec(picked)
}

/// Namespace of the value decoders.
pub struct ValueParser;

impl ValueParser {
    /// Decodes a duration to nanoseconds.
    pub fn parse_time_to_ns(time_str: &str) -> (r: Option<i64>)
        ensures
            r == time_ns_of(time_str@),
    {
        let cs = chars_of(time_str);
        time_ns(cs.as_slice())
    }

    /// Decodes a byte size to bytes.
    pub fn parse_memory_to_bytes(mem_str: &str) -> (r: Option<u64>)
        ensures
            r == bytes_of(mem_str@),
    {
        let cs = chars_of(mem_str);
        memory_bytes(cs.as_slice())
    }

    /// Decodes a row count.
    pub fn parse_count(count_str: &str) -> (r: Option<i64>)
        ensures
            r == count_of(count_str@),
    {
        let cs = chars_of(count_str);
        count(cs.as_slice())
    }

    /// Decodes a `sum/avg/max/min` aggregate and keeps its text.
    pub fn parse_aggregated(value_str: &str) -> (r: AggregatedValue)
        ensures
            r.deep_view() == aggregated_of(value_str@),
    {
        let cs = chars_of(value_str);
        let s = cs.as_slice();
        let labels = Labels::new();
        let mut result = AggregatedValue {
            sum: None,
            avg: None,
            max: None,
            min: None,
            raw: string_of(s),
        };
        let mut q: usize = 0;
        while q < s.len()
            invariant
                q <= s.len(),
                s@ == value_str@,
                labels.wf(),
                agg_scan(s@, q as int, q as int, result.deep_view()) == aggregated_of(s@),
            decreases s.len() - q,
        {
            match stat_here(s, q, &labels) {
                Some((which, text, end)) => {
                    let v = stat_value(text);
                    proof {
                        let next = with_stat(result.deep_view(), which, v);
                        lemma_agg_scan_skip(s@, q + 1, end as int, next);
                    }
                    match which {
                        Statistic::Sum => {
                            result.sum = v;
                        },
                        Statistic::Avg => {
                            result.avg = v;
                        },
                        Statistic::Max => {
                            result.max = v;
                        },
                        Statistic::Min => {
                            result.min = v;
                        },
                    }
                    q = end;
                },
                None => {
                    proof {
                        lemma_agg_scan_resume(s@, q + 1, q as int, q + 1, result.deep_view());
                    }
                    q += 1;
                },
            }
        }
        result
    }

    /// The representative value of a metric: what follows the first `avg `
    /// up to the next comma, else the whole text; trimmed either way.
    pub fn extract_first_value(value_str: &str) -> (r: Option<String>)
        ensures
            r.deep_view() == Some(first_value_of(value_str@)),
    {
        let cs = chars_of(value_str);
        let v = first_value(cs.as_slice());
        Some(string_of(v.as_slice()))
    }
}

} // verus!

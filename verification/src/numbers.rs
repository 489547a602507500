//! Decimal numerals: digits, integers as Rust reads and writes them, and
//! decimal fractions scaled to an integer unit.

use vstd::prelude::*;
use vstd::slice::slice_subrange;

verus! {

/// Whether `c` is one of the digits `0` to `9`.
pub open spec fn is_digit(c: char) -> bool {
    0x30 <= c as u32 <= 0x39
}

/// The number that the digit `c` stands for.
pub open spec fn digit_of(c: char) -> int {
    c as u32 - 0x30
}

/// Whether `c` is one of the digits `0` to `9`.
pub fn char_is_digit(c: char) -> (r: bool)
    ensures
        r == is_digit(c),
{
    let n: u32 = c as u32;
    0x30 <= n && n <= 0x39
}

/// The number that the digit `c` stands for.
pub fn digit_value(c: char) -> (d: u8)
    requires
        is_digit(c),
    ensures
        d == digit_of(c),
        d <= 9,
{
    let n: u32 = c as u32;
    (n - 0x30) as u8
}

/// Whether every character of `s` is a decimal digit.
pub open spec fn all_digits(s: Seq<char>) -> bool {
    forall|i: int| 0 <= i < s.len() ==> is_digit(#[trigger] s[i])
}

/// The first position at or after `i` that holds no digit.
pub open spec fn digits_end(s: Seq<char>, i: int) -> int
    decreases s.len() - i,
{
    if 0 <= i < s.len() && is_digit(s[i]) {
        digits_end(s, i + 1)
    } else {
        i
    }
}

/// A run of digits ends within the text, holds digits only, and is followed by none.
pub proof fn lemma_digits_end(s: Seq<char>, i: int)
    requires
        0 <= i <= s.len(),
    ensures
        i <= digits_end(s, i) <= s.len(),
        all_digits(s.subrange(i, digits_end(s, i))),
        digits_end(s, i) < s.len() ==> !is_digit(s[digits_end(s, i)]),
    decreases s.len() - i,
{
    if i < s.len() && is_digit(s[i]) {
        lemma_digits_end(s, i + 1);
        let e = digits_end(s, i);
        assert forall|k: int| 0 <= k < e - i implies is_digit(#[trigger] s.subrange(i, e)[k]) by {
            if k > 0 {
                assert(s.subrange(i, e)[k] == s.subrange(i + 1, e)[k - 1]);
            }
        }
    }
}

/// The end of the run of digits that starts at `i`.
pub fn scan_digits(s: &[char], i: usize) -> (e: usize)
    requires
        i <= s@.len(),
    ensures
        e == digits_end(s@, i as int),
        i <= e <= s@.len(),
{
    let mut e: usize = i;
    while e < s.len() && char_is_digit(s[e])
        invariant
            i <= e <= s.len(),
            digits_end(s@, i as int) == digits_end(s@, e as int),
        decreases s.len() - e,
    {
        e += 1;
    }
    e
}

/// The number that a string of decimal digits writes.
pub open spec fn value_of(s: Seq<char>) -> nat
    decreases s.len(),
{
    if s.len() == 0 {
        0
    } else {
        (value_of(s.drop_last()) * 10 + digit_of(s.last())) as nat
    }
}

/// The integer that `s` writes, as Rust's integer parser reads it: an
/// optional `+` or `-`, then one or more decimal digits, nothing else.
pub open spec fn signed_of(s: Seq<char>) -> Option<int> {
    if s.len() == 0 {
        None
    } else {
        let body = if s[0] == '-' || s[0] == '+' {
            s.drop_first()
        } else {
            s
        };
        if body.len() == 0 || !all_digits(body) {
            None
        } else if s[0] == '-' {
            Some(-(value_of(body) as int))
        } else {
            Some(value_of(body) as int)
        }
    }
}

/// `signed_of` where the integer fits in an `i64`.
pub open spec fn i64_of(s: Seq<char>) -> Option<i64> {
    match signed_of(s) {
        Some(v) => if i64::MIN <= v <= i64::MAX {
            Some(v as i64)
        } else {
            None
        },
        None => None,
    }
}

/// `signed_of` where the integer fits in an `i32`.
pub open spec fn i32_of(s: Seq<char>) -> Option<i32> {
    match signed_of(s) {
        Some(v) => if i32::MIN <= v <= i32::MAX {
            Some(v as i32)
        } else {
            None
        },
        None => None,
    }
}

/// Largest magnitude that the digit readers keep exactly; anything above is
/// held as this bound.
pub const WHOLE_CAP: u128 = 0x1_0000_0000_0000_0000;

/// `v`, or `WHOLE_CAP` where `v` is greater.
pub open spec fn capped(v: nat) -> nat {
    if v <= WHOLE_CAP {
        v
    } else {
        WHOLE_CAP as nat
    }
}

/// Reads a string of digits; `None` where a character is no digit.
pub fn read_digits(s: &[char]) -> (r: Option<u128>)
    ensures
        r is Some == all_digits(s@),
        r matches Some(v) ==> v == capped(value_of(s@)),
{
    let mut acc: u128 = 0;
    let mut k: usize = 0;
    while k < s.len()
        invariant
            k <= s.len(),
            all_digits(s@.take(k as int)),
            acc == capped(value_of(s@.take(k as int))),
        decreases s.len() - k,
    {
        if !char_is_digit(s[k]) {
            return None;
        }
        let d: u128 = digit_value(s[k]) as u128;
        proof {
            assert(s@.take(k + 1).drop_last() =~= s@.take(k as int));
            assert(s@.take(k + 1).last() == s@[k as int]);
            assert forall|i: int| 0 <= i < k + 1 implies is_digit(#[trigger] s@.take(k + 1)[i]) by {
                if i < k {
                    assert(s@.take(k + 1)[i] == s@.take(k as int)[i]);
                }
            }
        }
        acc = acc * 10 + d;
        if acc > WHOLE_CAP {
            acc = WHOLE_CAP;
        }
        k += 1;
    }
    assert(s@.take(s@.len() as int) =~= s@);
    Some(acc)
}

/// Reads a signed integer; `None` where `s` writes none.
pub fn read_signed(s: &[char]) -> (r: Option<(bool, u128)>)
    ensures
        r is Some == signed_of(s@) is Some,
        r matches Some((neg, v)) ==> {
            &&& neg == (s@[0] == '-')
            &&& signed_of(s@).unwrap() == if neg {
                -(value_of(s@.drop_first()) as int)
            } else if s@[0] == '+' {
                value_of(s@.drop_first()) as int
            } else {
                value_of(s@) as int
            }
            &&& v == capped(
                if s@[0] == '-' || s@[0] == '+' {
                    value_of(s@.drop_first())
                } else {
                    value_of(s@)
                },
            )
        },
{
    if s.len() == 0 {
        return None;
    }
    let neg: bool = s[0] == '-';
    let signed: bool = neg || s[0] == '+';
    let body: &[char] = if signed {
        slice_subrange(s, 1, s.len())
    } else {
        s
    };
    proof {
        if signed {
            assert(body@ =~= s@.drop_first());
        }
    }
    if body.len() == 0 {
        return None;
    }
    match read_digits(body) {
        Some(v) => Some((neg, v)),
        None => None,
    }
}

/// Reads an `i64`; `None` where `s` writes none.
pub fn parse_i64(s: &[char]) -> (r: Option<i64>)
    ensures
        r == i64_of(s@),
{
    match read_signed(s) {
        Some((neg, v)) => {
            if neg {
                if v > 0x8000_0000_0000_0000 {
                    None
                } else if v == 0x8000_0000_0000_0000 {
                    Some(i64::MIN)
                } else {
                    Some(-(v as i64))
                }
            } else if v > 0x7fff_ffff_ffff_ffff {
                None
            } else {
                Some(v as i64)
            }
        },
        None => None,
    }
}

/// Reads an `i32`; `None` where `s` writes none.
pub fn parse_i32(s: &[char]) -> (r: Option<i32>)
    ensures
        r == i32_of(s@),
{
    match read_signed(s) {
        Some((neg, v)) => {
            if neg {
                if v > 0x8000_0000 {
                    None
                } else if v == 0x8000_0000 {
                    Some(i32::MIN)
                } else {
                    Some(-(v as i32))
                }
            } else if v > 0x7fff_ffff {
                None
            } else {
                Some(v as i32)
            }
        },
        None => None,
    }
}

/// The digit that stands for `d`.
pub open spec fn digit_char(d: int) -> char {
    (0x30 + d) as u8 as char
}

/// The decimal digits of `n`, most significant first, without leading zeros.
pub open spec fn nat_repr(n: nat) -> Seq<char>
    decreases n,
{
    if n < 10 {
        seq![digit_char(n as int)]
    } else {
        nat_repr(n / 10).push(digit_char((n % 10) as int))
    }
}

/// The decimal numeral of `n`, as Rust prints an integer.
pub open spec fn int_repr(n: int) -> Seq<char> {
    if n < 0 {
        seq!['-'] + nat_repr((-n) as nat)
    } else {
        nat_repr(n as nat)
    }
}

/// A numeral of a natural number is made of digits, and writes the number.
pub proof fn nat_repr_writes_the_number(n: nat)
    ensures
        nat_repr(n).len() >= 1,
        all_digits(nat_repr(n)),
        value_of(nat_repr(n)) == n,
    decreases n,
{
    if n < 10 {
        let s = nat_repr(n);
        assert(s.drop_last() =~= Seq::<char>::empty());
        assert(value_of(s.drop_last()) == 0);
    } else {
        nat_repr_writes_the_number(n / 10);
        let s = nat_repr(n);
        let t = nat_repr(n / 10);
        assert(s.drop_last() =~= t);
        assert(s.last() == digit_char((n % 10) as int));
        assert forall|i: int| 0 <= i < s.len() implies is_digit(#[trigger] s[i]) by {
            if i < t.len() {
                assert(s[i] == t[i]);
            }
        }
    }
}

/// Different numbers have different numerals.
pub proof fn int_repr_is_injective(a: int, b: int)
    requires
        int_repr(a) == int_repr(b),
    ensures
        a == b,
{
    let ma: nat = if a < 0 {
        (-a) as nat
    } else {
        a as nat
    };
    let mb: nat = if b < 0 {
        (-b) as nat
    } else {
        b as nat
    };
    nat_repr_writes_the_number(ma);
    nat_repr_writes_the_number(mb);
    assert(is_digit(nat_repr(ma)[0]));
    assert(is_digit(nat_repr(mb)[0]));
    if a < 0 {
        assert(int_repr(a)[0] == '-');
        assert(b < 0);
        assert(nat_repr(ma) =~= int_repr(a).subrange(1, int_repr(a).len() as int));
        assert(nat_repr(mb) =~= int_repr(b).subrange(1, int_repr(b).len() as int));
    } else {
        assert(int_repr(a)[0] == nat_repr(ma)[0]);
        assert(b >= 0);
    }
    assert(value_of(nat_repr(ma)) == value_of(nat_repr(mb)));
}

/// Appends the decimal digits of `n`.
pub fn push_nat(out: &mut Vec<char>, n: u128)
    ensures
        final(out)@ == old(out)@ + nat_repr(n as nat),
    decreases n,
{
    if n >= 10 {
        push_nat(out, n / 10);
    }
    let d: u8 = (n % 10) as u8;
    out.push((0x30 + d) as char);
    assert(out@ =~= old(out)@ + nat_repr(n as nat));
}

/// Appends the decimal numeral of `n`.
pub fn push_int(out: &mut Vec<char>, n: i64)
    ensures
        final(out)@ == old(out)@ + int_repr(n as int),
{
    if n < 0 {
        out.push('-');
        let m: u128 = if n == i64::MIN {
            0x8000_0000_0000_0000
        } else {
            (-n) as u128
        };
        push_nat(out, m);
        assert(out@ =~= old(out)@ + int_repr(n as int));
    } else {
        push_nat(out, n as u128);
    }
}

/// The decimal numeral of `n`.
pub fn int_chars(n: i64) -> (out: Vec<char>)
    ensures
        out@ == int_repr(n as int),
{
    let mut out: Vec<char> = Vec::new();
    push_int(&mut out, n);
    assert(Seq::<char>::empty() + int_repr(n as int) =~= int_repr(n as int));
    out
}

/// The decimal numeral of `n`.
pub fn nat_chars(n: u128) -> (out: Vec<char>)
    ensures
        out@ == nat_repr(n as nat),
{
    let mut out: Vec<char> = Vec::new();
    push_nat(&mut out, n);
    assert(Seq::<char>::empty() + nat_repr(n as nat) =~= nat_repr(n as nat));
    out
}

/// `num / den` in units of `1 / scale`, rounded to the nearest unit, a half
/// upward.
pub open spec fn rounded_ratio(num: nat, den: nat, scale: nat) -> nat {
    (2 * num * scale + den) / (2 * den)
}

/// The numeral with one decimal of a number given in tenths.
pub open spec fn tenths_repr(q: nat) -> Seq<char> {
    nat_repr(q / 10) + seq!['.', digit_char((q % 10) as int)]
}

/// The numeral with two decimals of a number given in hundredths.
pub open spec fn hundredths_repr(q: nat) -> Seq<char> {
    nat_repr(q / 100) + seq!['.', digit_char((q / 10 % 10) as int), digit_char((q % 10) as int)]
}

/// Greatest numerator that `ratio_units` takes.
pub const RATIO_MAX: u128 = 0x1_0000_0000_0000_0000_0000;

/// `num / den` in tenths (`hundredths` unset) or hundredths, rounded.
pub fn ratio_units(num: u128, den: u128, hundredths: bool) -> (q: u128)
    requires
        den > 0,
        num <= RATIO_MAX,
    ensures
        q == rounded_ratio(
            num as nat,
            den as nat,
            if hundredths {
                100
            } else {
                10
            },
        ),
{
    let scale: u128 = if hundredths {
        100
    } else {
        10
    };
    let doubled: u128 = 2 * num * scale;
    if den > 0x1_0000_0000_0000_0000_0000_0000_0000 {
        assert((doubled + den) / (2 * den) == 0) by (nonlinear_arith)
            requires
                0 <= doubled < den,
        ;
        0
    } else {
        (doubled + den) / (2 * den)
    }
}

/// Appends the numeral with one decimal of `q` tenths.
pub fn push_tenths(out: &mut Vec<char>, q: u128)
    ensures
        final(out)@ == old(out)@ + tenths_repr(q as nat),
{
    push_nat(out, q / 10);
    out.push('.');
    out.push((0x30 + (q % 10) as u8) as char);
    assert(out@ =~= old(out)@ + tenths_repr(q as nat));
}

/// Appends the numeral with two decimals of `q` hundredths.
pub fn push_hundredths(out: &mut Vec<char>, q: u128)
    ensures
        final(out)@ == old(out)@ + hundredths_repr(q as nat),
{
    push_nat(out, q / 100);
    out.push('.');
    out.push((0x30 + (q / 10 % 10) as u8) as char);
    out.push((0x30 + (q % 10) as u8) as char);
    assert(out@ =~= old(out)@ + hundredths_repr(q as nat));
}

/// The nearest `i64` to `v`.
pub open spec fn clamp_i64(v: int) -> i64 {
    if v < i64::MIN {
        i64::MIN
    } else if v > i64::MAX {
        i64::MAX
    } else {
        v as i64
    }
}

/// The nearest `u64` to `v`.
pub open spec fn clamp_u64(v: int) -> u64 {
    if v < 0 {
        0
    } else if v > u64::MAX {
        u64::MAX
    } else {
        v as u64
    }
}

/// A decimal numeral: its sign, the number before the point, and the
/// digits after the point as they stand.
pub struct Decimal {
    pub negative: bool,
    /// The number written before the point.
    pub whole: nat,
    /// The digits after the point.
    pub frac: Seq<char>,
}

/// What `s` writes as a decimal numeral: an optional sign, digits, and
/// optionally a point and more digits, with a digit on at least one side.
/// Nothing else is a numeral: not one with an exponent (`1e3`), nor the
/// words `inf`, `infinity` and `nan`.
pub open spec fn decimal_of(s: Seq<char>) -> Option<Decimal> {
    if s.len() == 0 {
        None
    } else {
        let body = if s[0] == '-' || s[0] == '+' {
            s.drop_first()
        } else {
            s
        };
        let e = digits_end(body, 0);
        let whole = value_of(body.subrange(0, e));
        if e == body.len() {
            if e == 0 {
                None
            } else {
                Some(Decimal { negative: s[0] == '-', whole, frac: Seq::empty() })
            }
        } else if body[e] != '.' {
            None
        } else {
            let f = body.subrange(e + 1, body.len() as int);
            if !all_digits(f) || (e == 0 && f.len() == 0) {
                None
            } else {
                Some(Decimal { negative: s[0] == '-', whole, frac: f })
            }
        }
    }
}

/// The power of ten with the exponent `k`.
pub open spec fn pow10(k: nat) -> nat
    decreases k,
{
    if k == 0 {
        1
    } else {
        10 * pow10((k - 1) as nat)
    }
}

/// The fraction that the digits `f` write after a point, times `unit`, cut
/// to an integer: `value_of(f) * unit / 10^len`.
pub open spec fn frac_scaled(f: Seq<char>, unit: nat) -> nat {
    (value_of(f) * unit) / pow10(f.len())
}

/// `frac_scaled` of the digits of `f` from `k` on, one digit at a time and
/// the last digit first, so that no step leaves the range of `unit`.
pub open spec fn frac_floor(f: Seq<char>, unit: nat, k: int) -> nat
    decreases f.len() - k,
{
    if k < 0 || k >= f.len() {
        0
    } else {
        ((digit_of(f[k]) * unit + frac_floor(f, unit, k + 1)) / 10) as nat
    }
}

/// The magnitude of `d` times `unit`, cut to an integer.
pub open spec fn magnitude_of(d: Decimal, unit: nat) -> nat {
    d.whole * unit + frac_scaled(d.frac, unit)
}

/// `d` times `unit`, cut toward zero to an integer.
pub open spec fn scaled_of(d: Decimal, unit: nat) -> int {
    if d.negative {
        -(magnitude_of(d, unit) as int)
    } else {
        magnitude_of(d, unit) as int
    }
}

/// The powers of ten are positive.
proof fn lemma_pow10_positive(k: nat)
    ensures
        pow10(k) >= 1,
    decreases k,
{
    if k > 0 {
        lemma_pow10_positive((k - 1) as nat);
    }
}

/// A string of digits writes its first digit times the power of ten of
/// its place, and the rest.
proof fn lemma_value_of_first(s: Seq<char>)
    requires
        s.len() >= 1,
        all_digits(s),
    ensures
        value_of(s) == digit_of(s[0]) * pow10((s.len() - 1) as nat) + value_of(s.drop_first()),
    decreases s.len(),
{
    let init = s.drop_last();
    let rest = s.drop_first();
    assert(is_digit(s[0]));
    assert(is_digit(s.last()));
    if s.len() == 1 {
        assert(init =~= Seq::<char>::empty());
        assert(rest =~= Seq::<char>::empty());
        assert(value_of(init) == 0);
        assert(value_of(rest) == 0);
        assert(pow10(0) == 1);
        assert(value_of(s) == digit_of(s[0]));
        assert(digit_of(s[0]) * pow10(0) == digit_of(s[0])) by (nonlinear_arith)
            requires
                pow10(0) == 1,
        ;
    } else {
        assert forall|i: int| 0 <= i < init.len() implies is_digit(#[trigger] init[i]) by {
            assert(init[i] == s[i]);
        }
        lemma_value_of_first(init);
        assert(init.drop_first() =~= rest.drop_last());
        assert(rest.last() == s.last());
        assert(init[0] == s[0]);
        let p = pow10((s.len() - 2) as nat);
        let d = digit_of(s[0]);
        let w = value_of(init.drop_first());
        assert(pow10((s.len() - 1) as nat) == 10 * p);
        assert(value_of(init) == d * p + w);
        assert(value_of(rest) == w * 10 + digit_of(s.last()));
        assert(value_of(s) == value_of(init) * 10 + digit_of(s.last()));
        assert((d * p + w) * 10 == d * (10 * p) + w * 10) by (nonlinear_arith);
    }
}

/// Taking the digits one at a time gives the fraction times the unit, cut
/// to an integer.
proof fn lemma_frac_floor(f: Seq<char>, unit: nat, k: int)
    requires
        all_digits(f),
        0 <= k <= f.len(),
    ensures
        frac_floor(f, unit, k) == frac_scaled(f.subrange(k, f.len() as int), unit),
        frac_floor(f, unit, k) <= unit,
    decreases f.len() - k,
{
    let n = f.len() as int;
    let s = f.subrange(k, n);
    if k == n {
        assert(s =~= Seq::<char>::empty());
        assert(value_of(s) == 0);
        assert(pow10(0) == 1);
        assert(0 * unit == 0);
    } else {
        lemma_frac_floor(f, unit, k + 1);
        let rest = f.subrange(k + 1, n);
        assert(s.drop_first() =~= rest);
        assert(s[0] == f[k]);
        assert(is_digit(f[k]));
        assert forall|i: int| 0 <= i < s.len() implies is_digit(#[trigger] s[i]) by {
            assert(s[i] == f[k + i]);
        }
        lemma_value_of_first(s);
        let p = pow10(rest.len());
        lemma_pow10_positive(rest.len());
        let d = digit_of(f[k]);
        let v = value_of(rest);
        let x: int = (v * unit) as int;
        let j: int = d * (unit as int);
        assert(pow10(s.len()) == 10 * p);
        assert(value_of(s) * unit == x + j * p) by (nonlinear_arith)
            requires
                value_of(s) == d * p + v,
                x == v * unit,
                j == d * unit,
        ;
        assert(0 <= x) by (nonlinear_arith)
            requires
                x == v * unit,
                v >= 0,
                unit >= 0,
        ;
        assert(0 <= j <= 9 * unit) by (nonlinear_arith)
            requires
                j == d * unit,
                0 <= d <= 9,
                unit >= 0,
        ;
        vstd::arithmetic::div_mod::lemma_hoist_over_denominator(x, j, p);
        assert(0 <= x + j * p) by (nonlinear_arith)
            requires
                0 <= x,
                0 <= j,
                p >= 1,
        ;
        vstd::arithmetic::div_mod::lemma_div_denominator(x + j * p, p as int, 10);
        assert(p * 10 == 10 * p);
    }
}

/// Taking the digits of a fraction one at a time, the last first, gives
/// the fraction times the unit, cut to an integer; the result does not
/// exceed the unit.
pub proof fn digit_steps_give_the_scaled_fraction(f: Seq<char>, unit: nat)
    requires
        all_digits(f),
    ensures
        frac_floor(f, unit, 0) == frac_scaled(f, unit),
        frac_scaled(f, unit) <= unit,
{
    lemma_frac_floor(f, unit, 0);
    assert(f.subrange(0, f.len() as int) =~= f);
}

/// A decimal numeral as read: its sign, its whole part held to `WHOLE_CAP`,
/// and the digits after its point.
pub struct DecimalParts<'a> {
    pub negative: bool,
    pub whole: u128,
    pub frac: &'a [char],
}

impl<'a> DecimalParts<'a> {
    /// Whether the parts are those of the numeral `d`.
    pub open spec fn stands_for(self, d: Decimal) -> bool {
        &&& self.negative == d.negative
        &&& self.whole == capped(d.whole)
        &&& self.frac@ == d.frac
        &&& all_digits(d.frac)
    }
}

/// Reads a decimal numeral; `None` where `s` writes none.
pub fn read_decimal<'a>(s: &'a [char]) -> (r: Option<DecimalParts<'a>>)
    ensures
        r is Some == decimal_of(s@) is Some,
        r matches Some(p) ==> p.stands_for(decimal_of(s@).unwrap()),
{
    if s.len() == 0 {
        return None;
    }
    let negative: bool = s[0] == '-';
    let signed: bool = negative || s[0] == '+';
    let body: &[char] = if signed {
        slice_subrange(s, 1, s.len())
    } else {
        s
    };
    proof {
        if signed {
            assert(body@ =~= s@.drop_first());
        }
        lemma_digits_end(body@, 0);
    }
    let e: usize = scan_digits(body, 0);
    let whole: u128 = match read_digits(slice_subrange(body, 0, e)) {
        Some(v) => v,
        None => {
            return None;
        },
    };
    if e == body.len() {
        if e == 0 {
            return None;
        }
        let none: &[char] = slice_subrange(body, e, e);
        assert(none@ =~= Seq::<char>::empty());
        return Some(DecimalParts { negative, whole, frac: none });
    }
    if body[e] != '.' {
        return None;
    }
    let f: &[char] = slice_subrange(body, e + 1, body.len());
    if read_digits(f).is_none() {
        return None;
    }
    if e == 0 && f.len() == 0 {
        return None;
    }
    Some(DecimalParts { negative, whole, frac: f })
}

/// The fraction that the digits `f` write after a point, times `unit`, cut
/// to an integer.
pub fn scale_fraction(f: &[char], unit: u64) -> (r: u64)
    requires
        all_digits(f@),
    ensures
        r == frac_scaled(f@, unit as nat),
        r <= unit,
{
    let u: u128 = unit as u128;
    let mut acc: u128 = 0;
    let mut k: usize = f.len();
    while k > 0
        invariant
            k <= f.len(),
            all_digits(f@),
            u == unit,
            acc == frac_floor(f@, unit as nat, k as int),
            acc <= u,
        decreases k,
    {
        k -= 1;
        let d: u128 = digit_value(f[k]) as u128;
        assert(d * u <= 9 * u) by (nonlinear_arith)
            requires
                d <= 9,
                u >= 0,
        ;
        acc = (d * u + acc) / 10;
    }
    proof {
        digit_steps_give_the_scaled_fraction(f@, unit as nat);
    }
    acc as u64
}

/// The magnitude of `p` times `unit`, cut to an integer: that of the
/// numeral where its whole part is held exactly, else no less than
/// `WHOLE_CAP`, as that of the numeral is.
fn scale_magnitude(p: &DecimalParts, unit: u64) -> (m: u128)
    requires
        1 <= unit,
        p.whole <= WHOLE_CAP,
        all_digits(p.frac@),
    ensures
        forall|d: Decimal| #[trigger]
            p.stands_for(d) ==> if d.whole <= WHOLE_CAP {
                m == magnitude_of(d, unit as nat)
            } else {
                m >= WHOLE_CAP && magnitude_of(d, unit as nat) >= WHOLE_CAP
            },
{
    let u: u128 = unit as u128;
    assert(p.whole * u <= WHOLE_CAP * 0xffff_ffff_ffff_ffff) by (nonlinear_arith)
        requires
            p.whole <= WHOLE_CAP,
            u <= 0xffff_ffff_ffff_ffff,
    ;
    let part: u128 = scale_fraction(p.frac, unit) as u128;
    let magnitude: u128 = p.whole * u + part;
    proof {
        assert forall|d: Decimal| #[trigger] p.stands_for(d) implies if d.whole <= WHOLE_CAP {
            magnitude == magnitude_of(d, unit as nat)
        } else {
            magnitude >= WHOLE_CAP && magnitude_of(d, unit as nat) >= WHOLE_CAP
        } by {
            if d.whole > WHOLE_CAP {
                assert(d.whole * (unit as nat) >= WHOLE_CAP) by (nonlinear_arith)
                    requires
                        d.whole > WHOLE_CAP,
                        unit >= 1,
                ;
                assert(p.whole * u >= WHOLE_CAP) by (nonlinear_arith)
                    requires
                        p.whole == WHOLE_CAP,
                        u >= 1,
                ;
            }
        }
    }
    magnitude
}

/// `p` times `unit`, cut toward zero and brought to the nearest `i64`.
pub fn scale_to_i64(p: &DecimalParts, unit: u64) -> (r: i64)
    requires
        1 <= unit,
        p.whole <= WHOLE_CAP,
        all_digits(p.frac@),
    ensures
        forall|d: Decimal| p.stands_for(d) ==> r == clamp_i64(#[trigger] scaled_of(d, unit as nat)),
{
    let magnitude = scale_magnitude(p, unit);
    if p.negative {
        if magnitude >= 0x8000_0000_0000_0000 {
            i64::MIN
        } else {
            -(magnitude as i64)
        }
    } else if magnitude > 0x7fff_ffff_ffff_ffff {
        i64::MAX
    } else {
        magnitude as i64
    }
}

/// `p` times `unit`, cut toward zero and brought to the nearest `u64`.
pub fn scale_to_u64(p: &DecimalParts, unit: u64) -> (r: u64)
    requires
        1 <= unit,
        p.whole <= WHOLE_CAP,
        all_digits(p.frac@),
    ensures
        forall|d: Decimal| p.stands_for(d) ==> r == clamp_u64(#[trigger] scaled_of(d, unit as nat)),
{
    let magnitude = scale_magnitude(p, unit);
    if p.negative {
        0
    } else if magnitude > 0xffff_ffff_ffff_ffff {
        u64::MAX
    } else {
        magnitude as u64
    }
}

} // verus!

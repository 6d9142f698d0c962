use vstd::prelude::*;

use crate::dted::{digit, is_ascii_digit};
use vstd::arithmetic::div_mod::lemma_basic_div_specific_divisor;

verus! {

/// The value of a run of ASCII digits, most significant first.
pub open spec fn digits_value(s: Seq<u8>) -> int
    decreases s.len(),
{
    if s.len() == 0 {
        0
    } else {
        digits_value(s.drop_last()) * 10 + digit(s.last())
    }
}

/// Every byte of the run is an ASCII digit.
pub open spec fn all_digits(s: Seq<u8>) -> bool {
    forall|i: int| 0 <= i < s.len() ==> is_ascii_digit(s[i])
}

pub open spec fn pow10(n: nat) -> int
    decreases n,
{
    if n == 0 {
        1
    } else {
        10 * pow10((n - 1) as nat)
    }
}

/// A digit run is worth at least ten to the number of digits that
/// follow its first non-zero digit.
pub proof fn lemma_digits_value_lower(s: Seq<u8>, i: int)
    requires
        0 <= i < s.len(),
        all_digits(s),
        s[i] != 48,
    ensures
        digits_value(s) >= pow10((s.len() - 1 - i) as nat),
    decreases s.len(),
{
    if i == s.len() - 1 {
        assert(digits_value(s) == digits_value(s.drop_last()) * 10 + digit(s.last()));
        lemma_digits_value_nonneg(s.drop_last());
        assert(digits_value(s.drop_last()) * 10 >= 0) by (nonlinear_arith)
            requires
                digits_value(s.drop_last()) >= 0,
        ;
    } else {
        let t = s.drop_last();
        assert(all_digits(t));
        lemma_digits_value_lower(t, i);
        assert(digits_value(s) == digits_value(t) * 10 + digit(s.last()));
        assert(digits_value(t) * 10 >= pow10((t.len() - 1 - i) as nat) * 10) by (nonlinear_arith)
            requires
                digits_value(t) >= pow10((t.len() - 1 - i) as nat),
        ;
    }
}

/// Digit runs are never negative.
pub proof fn lemma_digits_value_nonneg(s: Seq<u8>)
    requires
        all_digits(s),
    ensures
        digits_value(s) >= 0,
    decreases s.len(),
{
    if s.len() > 0 {
        assert(all_digits(s.drop_last()));
        lemma_digits_value_nonneg(s.drop_last());
        assert(digits_value(s.drop_last()) * 10 >= 0) by (nonlinear_arith)
            requires
                digits_value(s.drop_last()) >= 0,
        ;
    }
}

/// A digit run is worth less than ten to its length.
pub proof fn lemma_digits_value_upper(s: Seq<u8>)
    requires
        all_digits(s),
    ensures
        digits_value(s) < pow10(s.len()),
    decreases s.len(),
{
    if s.len() > 0 {
        assert(all_digits(s.drop_last()));
        lemma_digits_value_upper(s.drop_last());
        assert(digits_value(s.drop_last()) * 10 <= (pow10((s.len() - 1) as nat) - 1) * 10)
            by (nonlinear_arith)
            requires
                digits_value(s.drop_last()) <= pow10((s.len() - 1) as nat) - 1,
        ;
    }
}

/// Leading zeroes do not change a digit run's value.
pub proof fn lemma_digits_value_skip_zero(s: Seq<u8>)
    requires
        s.len() > 0,
        s[0] == 48,
    ensures
        digits_value(s) == digits_value(s.subrange(1, s.len() as int)),
    decreases s.len(),
{
    if s.len() == 1 {
        assert(s.subrange(1, 1) =~= Seq::<u8>::empty());
        assert(digits_value(s) == digits_value(s.drop_last()) * 10 + digit(s.last()));
        assert(s.drop_last() =~= Seq::<u8>::empty());
        assert(digits_value(Seq::<u8>::empty()) == 0);
        assert(digit(s.last()) == 0);
    } else {
        let t = s.drop_last();
        assert(t[0] == 48);
        lemma_digits_value_skip_zero(t);
        let u = s.subrange(1, s.len() as int);
        assert(u.drop_last() =~= t.subrange(1, t.len() as int));
        assert(u.last() == s.last());
        assert(digits_value(s) == digits_value(t) * 10 + digit(s.last()));
        assert(digits_value(u) == digits_value(u.drop_last()) * 10 + digit(u.last()));
    }
}

/// The body of a decimal literal splits at `d` into an integer part,
/// a dot, and a fraction part; one of the parts may be empty, but not
/// both.
pub open spec fn dec_split_at(b: Seq<u8>, d: int) -> bool {
    &&& b.len() >= 2
    &&& 0 <= d <= b.len() - 1
    &&& b[d] == 46
    &&& all_digits(b.subrange(0, d))
    &&& all_digits(b.subrange(d + 1, b.len() as int))
}

/// A well-formed decimal literal body: a non-empty digit run, with an
/// optional dot-separated fraction run.
pub open spec fn dec_body_ok(b: Seq<u8>) -> bool {
    (b.len() >= 1 && all_digits(b)) || (exists|d: int| dec_split_at(b, d))
}

/// The integer part of the body.
pub open spec fn dec_int_part(b: Seq<u8>) -> Seq<u8> {
    if all_digits(b) {
        b
    } else {
        b.subrange(0, choose|d: int| dec_split_at(b, d))
    }
}

/// The fraction part of the body; empty without a dot.
pub open spec fn dec_frac_part(b: Seq<u8>) -> Seq<u8> {
    if all_digits(b) {
        Seq::empty()
    } else {
        b.subrange((choose|d: int| dec_split_at(b, d)) + 1, b.len() as int)
    }
}

/// The worth of a fraction run in coordinate units: its first seven
/// digits scaled so that a full seven-digit run is worth
/// `digits * COORD_SCALE / 10^7`; deeper digits are truncated away.
pub open spec fn frac_units(f: Seq<u8>) -> int {
    if f.len() >= 7 {
        digits_value(f.subrange(0, 7)) * 9
    } else {
        digits_value(f) * (crate::COORD_SCALE as int / pow10(f.len()))
    }
}

/// The sign of the literal and its body.
pub open spec fn dec_sign(s: Seq<u8>) -> int {
    if s.len() > 0 && s[0] == 45 {
        -1
    } else {
        1
    }
}

pub open spec fn dec_body(s: Seq<u8>) -> Seq<u8> {
    if s.len() > 0 && (s[0] == 43 || s[0] == 45) {
        s.subrange(1, s.len() as int)
    } else {
        s
    }
}

/// An exponent marker.
pub open spec fn is_exp_letter(c: u8) -> bool {
    c == 101 || c == 69
}

/// The digit run of an exponent part, past its optional sign.
pub open spec fn exp_digits(p: Seq<u8>) -> Seq<u8> {
    if p.len() > 0 && (p[0] == 43 || p[0] == 45) {
        p.subrange(1, p.len() as int)
    } else {
        p
    }
}

/// A well-formed exponent part: an optional sign, then at least one
/// digit.
pub open spec fn exp_ok(p: Seq<u8>) -> bool {
    exp_digits(p).len() >= 1 && all_digits(exp_digits(p))
}

/// The signed value of an exponent part.
pub open spec fn exp_val(p: Seq<u8>) -> int {
    (if p.len() > 0 && p[0] == 45 {
        -1int
    } else {
        1int
    }) * digits_value(exp_digits(p))
}

/// The worth of a plain decimal body alone, unsigned.
pub open spec fn mant_units(b: Seq<u8>) -> int {
    digits_value(dec_int_part(b)) * (crate::COORD_SCALE as int) + frac_units(dec_frac_part(b))
}

/// The body splits at `g` into a plain decimal mantissa, an exponent
/// marker, and an exponent part.  A mantissa of ten to the thirteenth
/// whole degrees or more is outside the reader's range and rejected
/// whatever the exponent.
pub open spec fn exp_split_at(b: Seq<u8>, g: int) -> bool {
    &&& 0 <= g < b.len()
    &&& is_exp_letter(b[g])
    &&& dec_body_ok(b.subrange(0, g))
    &&& exp_ok(b.subrange(g + 1, b.len() as int))
    &&& digits_value(dec_int_part(b.subrange(0, g))) < 10000000000000
}

/// `base` scaled by ten to `e`, truncated toward zero for a negative
/// exponent.
pub open spec fn exp_scaled(base: int, e: int) -> int {
    if e >= 0 {
        base * pow10(e as nat)
    } else if base >= 0 {
        base / pow10((-e) as nat)
    } else {
        -((-base) / pow10((-e) as nat))
    }
}

/// A well-formed decimal literal: an optional sign, then a plain
/// decimal body, optionally followed by an exponent part.
pub open spec fn dec_ok(s: Seq<u8>) -> bool {
    dec_body_ok(dec_body(s)) || (exists|g: int| exp_split_at(dec_body(s), g))
}

/// The coordinate-unit worth of a well-formed decimal literal,
/// regardless of magnitude: the mantissa's worth, scaled by the
/// exponent when one is present.
pub open spec fn dec_units_wide(s: Seq<u8>) -> int {
    let b = dec_body(s);
    if dec_body_ok(b) {
        dec_sign(s) * mant_units(b)
    } else {
        let g = choose|g: int| exp_split_at(b, g);
        exp_scaled(dec_sign(s) * mant_units(b.subrange(0, g)), exp_val(b.subrange(g + 1, b.len() as int)))
    }
}

/// The coordinate-unit value of a decimal literal: defined exactly
/// when the literal is well formed and its worth fits an `i64`.
pub open spec fn dec_units(s: Seq<u8>) -> Option<i64> {
    if dec_ok(s) && -i64::MAX <= dec_units_wide(s) <= i64::MAX {
        Some(dec_units_wide(s) as i64)
    } else {
        None
    }
}

/// Every byte of a plain decimal body is a digit or the dot.
proof fn lemma_body_chars(m: Seq<u8>, i: int)
    requires
        dec_body_ok(m),
        0 <= i < m.len(),
    ensures
        is_ascii_digit(m[i]) || m[i] == 46,
{
    if !all_digits(m) {
        let d = choose|d: int| dec_split_at(m, d);
        if i < d {
            assert(m.subrange(0, d)[i] == m[i]);
        } else if i > d {
            assert(m.subrange(d + 1, m.len() as int)[i - d - 1] == m[i]);
        }
    }
}

/// A byte that is neither a digit nor the dot leaves no reading of a
/// plain decimal body.
proof fn lemma_body_not_ok(m: Seq<u8>, j: int)
    requires
        0 <= j < m.len(),
        !is_ascii_digit(m[j]),
        m[j] != 46,
    ensures
        !dec_body_ok(m),
{
    if dec_body_ok(m) {
        lemma_body_chars(m, j);
    }
}

/// Two dots leave no reading of a plain decimal body.
proof fn lemma_two_dots_body(m: Seq<u8>, d1: int, d2: int)
    requires
        0 <= d1 < d2 < m.len(),
        m[d1] == 46,
        m[d2] == 46,
    ensures
        !dec_body_ok(m),
{
    assert(!all_digits(m)) by {
        assert(m[d1] == 46);
    }
    assert forall|d: int| !dec_split_at(m, d) by {
        if dec_split_at(m, d) {
            if d != d1 {
                if d1 < d {
                    assert(m.subrange(0, d)[d1] == 46);
                } else {
                    assert(m.subrange(d + 1, m.len() as int)[d1 - d - 1] == 46);
                }
            } else {
                assert(m.subrange(d + 1, m.len() as int)[d2 - d - 1] == 46);
            }
        }
    }
}

/// Scan facts of the literal: the body is the bytes past the sign, no
/// exponent marker stands before `epos`, and one stands there when
/// `epos` is inside.
pub open spec fn scan_facts(s: Seq<u8>, start: int, epos: int) -> bool {
    &&& 0 <= start <= epos <= s.len()
    &&& start <= 1
    &&& dec_body(s) == s.subrange(start, s.len() as int)
    &&& forall|p: int| start <= p < epos ==> !is_exp_letter(#[trigger] s[p])
    &&& (epos < s.len() ==> is_exp_letter(s[epos]))
}

/// When the mantissa region admits no plain reading, the literal
/// admits none at all.
proof fn lemma_mant_not_ok_kills(s: Seq<u8>, start: int, epos: int)
    requires
        scan_facts(s, start, epos),
        !dec_body_ok(s.subrange(start, epos)),
    ensures
        !dec_ok(s),
{
    let b = dec_body(s);
    let mb = s.subrange(start, epos);
    if epos == s.len() {
        assert(b =~= mb);
    } else {
        assert(b[epos - start] == s[epos]);
        lemma_body_not_ok(b, epos - start);
    }
    assert forall|g: int| !exp_split_at(b, g) by {
        if exp_split_at(b, g) {
            assert(b[g] == s[start + g]);
            assert(start + g >= epos);
            if start + g == epos {
                assert(b.subrange(0, g) =~= mb);
            } else {
                assert(b.subrange(0, g)[epos - start] == s[epos]);
                lemma_body_not_ok(b.subrange(0, g), epos - start);
            }
        }
    }
}

/// When the exponent region admits no reading, the literal admits none
/// at all.
proof fn lemma_exp_not_ok_kills(s: Seq<u8>, start: int, epos: int)
    requires
        scan_facts(s, start, epos),
        epos < s.len(),
        !exp_ok(s.subrange(epos + 1, s.len() as int)),
    ensures
        !dec_ok(s),
{
    let b = dec_body(s);
    assert(b[epos - start] == s[epos]);
    lemma_body_not_ok(b, epos - start);
    assert forall|g: int| !exp_split_at(b, g) by {
        if exp_split_at(b, g) {
            assert(b[g] == s[start + g]);
            assert(start + g >= epos);
            if start + g == epos {
                assert(b.subrange(g + 1, b.len() as int) =~= s.subrange(
                    epos + 1,
                    s.len() as int,
                ));
            } else {
                assert(b.subrange(0, g)[epos - start] == s[epos]);
                lemma_body_not_ok(b.subrange(0, g), epos - start);
            }
        }
    }
}

/// When the mantissa's whole degrees reach ten to the thirteenth, the
/// literal is outside the reader's range whatever the exponent.
proof fn lemma_mant_too_wide_kills(s: Seq<u8>, start: int, epos: int)
    requires
        scan_facts(s, start, epos),
        epos < s.len(),
        digits_value(dec_int_part(s.subrange(start, epos))) >= 10000000000000,
    ensures
        !dec_ok(s),
{
    let b = dec_body(s);
    assert(b[epos - start] == s[epos]);
    lemma_body_not_ok(b, epos - start);
    assert forall|g: int| !exp_split_at(b, g) by {
        if exp_split_at(b, g) {
            assert(b[g] == s[start + g]);
            assert(start + g >= epos);
            if start + g == epos {
                assert(b.subrange(0, g) =~= s.subrange(start, epos));
            } else {
                assert(b.subrange(0, g)[epos - start] == s[epos]);
                lemma_body_not_ok(b.subrange(0, g), epos - start);
            }
        }
    }
}

/// With a valid split at the marker found by the scan, it is the only
/// split, so the literal's worth goes through it.
proof fn lemma_exp_split_unique(s: Seq<u8>, start: int, epos: int)
    requires
        scan_facts(s, start, epos),
        epos < s.len(),
        exp_split_at(dec_body(s), epos - start),
    ensures
        !dec_body_ok(dec_body(s)),
        (choose|g: int| exp_split_at(dec_body(s), g)) == epos - start,
        dec_ok(s),
{
    let b = dec_body(s);
    assert(b[epos - start] == s[epos]);
    lemma_body_not_ok(b, epos - start);
    assert forall|g: int| exp_split_at(b, g) implies g == epos - start by {
        assert(b[g] == s[start + g]);
        assert(start + g >= epos);
        if start + g > epos {
            assert(b.subrange(0, g)[epos - start] == s[epos]);
            lemma_body_not_ok(b.subrange(0, g), epos - start);
        }
    }
    let gc = choose|g: int| exp_split_at(b, g);
    assert(exp_split_at(b, gc));
}

/// At most one index can split a body: the rest must be digits, and a
/// dot is no digit.
pub proof fn lemma_dec_split_unique(b: Seq<u8>, d1: int, d2: int)
    requires
        dec_split_at(b, d1),
        dec_split_at(b, d2),
    ensures
        d1 == d2,
{
    if d1 < d2 {
        assert(b.subrange(0, d2)[d1] == b[d1]);
    } else if d2 < d1 {
        assert(b.subrange(0, d1)[d2] == b[d2]);
    }
}

/// The coordinate-unit worth of one unit in the last place of a
/// fraction run of `p` digits.
fn frac_factor(p: usize) -> (r: i64)
    requires
        p <= 7,
    ensures
        r == crate::COORD_SCALE as int / pow10(p as nat),
        r * pow10(p as nat) == 90_000_000,
        r >= 1,
{
    let r: i64 = if p == 0 {
        90_000_000
    } else if p == 1 {
        9_000_000
    } else if p == 2 {
        900_000
    } else if p == 3 {
        90_000
    } else if p == 4 {
        9_000
    } else if p == 5 {
        900
    } else if p == 6 {
        90
    } else {
        9
    };
    proof {
        reveal_with_fuel(pow10, 9);
        assert(crate::COORD_SCALE as int == 90_000_000);
        if p == 0 {
            assert(pow10(p as nat) == 1);
            assert(r == 90_000_000 as int / 1int);
        } else if p == 1 {
            assert(pow10(p as nat) == 10);
            assert(r == 90_000_000 as int / 10int);
        } else if p == 2 {
            assert(pow10(p as nat) == 100);
            assert(r == 90_000_000 as int / 100int);
        } else if p == 3 {
            assert(pow10(p as nat) == 1000);
            assert(r == 90_000_000 as int / 1000int);
        } else if p == 4 {
            assert(pow10(p as nat) == 10000);
            assert(r == 90_000_000 as int / 10000int);
        } else if p == 5 {
            assert(pow10(p as nat) == 100000);
            assert(r == 90_000_000 as int / 100000int);
        } else if p == 6 {
            assert(pow10(p as nat) == 1000000);
            assert(r == 90_000_000 as int / 1000000int);
        } else {
            assert(pow10(p as nat) == 10000000);
            assert(r == 90_000_000 as int / 10000000int);
        }
        assert(r == crate::COORD_SCALE as int / pow10(p as nat));
        assert(r * pow10(p as nat) == 90_000_000);
    }
    r
}

proof fn lemma_pow10_pos(a: nat)
    ensures
        pow10(a) >= 1,
    decreases a,
{
    if a > 0 {
        lemma_pow10_pos((a - 1) as nat);
    }
}

proof fn lemma_pow10_increases(a: nat, b: nat)
    requires
        a <= b,
    ensures
        pow10(a) <= pow10(b),
        pow10(a) >= 1,
    decreases b,
{
    lemma_pow10_pos(a);
    if a < b {
        lemma_pow10_increases(a, (b - 1) as nat);
        lemma_pow10_pos((b - 1) as nat);
        assert(pow10(b) == 10 * pow10((b - 1) as nat));
    }
}

/// Accumulate the value of the digit run `s[from..to]`, reporting
/// nothing when the run is worth ten to the thirteenth or more.
fn digits_accumulate(s: &[u8], from: usize, to: usize) -> (r: Option<i64>)
    requires
        from <= to <= s@.len(),
        all_digits(s@.subrange(from as int, to as int)),
    ensures
        r matches Some(v) ==> v == digits_value(s@.subrange(from as int, to as int)) && 0 <= v
            < 10000000000000,
        r is None ==> digits_value(s@.subrange(from as int, to as int)) >= 10000000000000,
{
    // skip leading zeroes, which do not change the value
    let mut k: usize = from;
    while k < to && s[k] == 48
        invariant
            from <= k <= to <= s@.len(),
            all_digits(s@.subrange(from as int, to as int)),
            digits_value(s@.subrange(from as int, to as int)) == digits_value(
                s@.subrange(k as int, to as int),
            ),
        decreases to - k,
    {
        proof {
            let cur = s@.subrange(k as int, to as int);
            lemma_digits_value_skip_zero(cur);
            assert(cur.subrange(1, cur.len() as int) =~= s@.subrange(k + 1, to as int));
        }
        k = k + 1;
    }
    if to - k > 13 {
        proof {
            let run = s@.subrange(k as int, to as int);
            assert forall|i: int| 0 <= i < run.len() implies is_ascii_digit(run[i]) by {
                assert(run[i] == s@.subrange(from as int, to as int)[k - from + i]);
            }
            assert(all_digits(run));
            assert(run[0] != 48);
            lemma_digits_value_lower(run, 0);
            lemma_pow10_increases(13, (run.len() - 1) as nat);
            assert(pow10(13) == 10000000000000) by {
                reveal_with_fuel(pow10, 15);
            }
            assert(digits_value(run) >= 10000000000000);
        }
        return None;
    }
    let mut acc: i64 = 0;
    let mut j: usize = k;
    proof {
        assert(s@.subrange(k as int, k as int) =~= Seq::<u8>::empty());
    }
    while j < to
        invariant
            k <= j <= to <= s@.len(),
            to - k <= 13,
            all_digits(s@.subrange(from as int, to as int)),
            from <= k,
            acc == digits_value(s@.subrange(k as int, j as int)),
            0 <= acc < pow10((j - k) as nat),
        decreases to - j,
    {
        proof {
            let nxt = s@.subrange(k as int, j + 1);
            assert(nxt.drop_last() =~= s@.subrange(k as int, j as int));
            assert(nxt.last() == s@.subrange(from as int, to as int)[j - from]);
            lemma_pow10_increases(((j - k) + 1) as nat, 13);
            assert(pow10(((j - k) + 1) as nat) == 10 * pow10((j - k) as nat));
            assert(acc * 10 + 9 < pow10(((j - k) + 1) as nat)) by (nonlinear_arith)
                requires
                    acc < pow10((j - k) as nat),
                    acc >= 0,
                    pow10(((j - k) + 1) as nat) == 10 * pow10((j - k) as nat),
            ;
            assert(pow10(13) == 10000000000000) by {
                reveal_with_fuel(pow10, 15);
            }
            assert(acc * 10 + 9 <= 10000000000000);
            assert(is_ascii_digit(s@[j as int])) by {
                assert(s@.subrange(from as int, to as int)[j - from] == s@[j as int]);
            }
        }
        acc = acc * 10 + ((s[j] - 48) as i64);
        j = j + 1;
    }
    proof {
        lemma_pow10_increases((to - k) as nat, 13);
        assert(pow10(13) == 10000000000000) by {
            reveal_with_fuel(pow10, 15);
        }
        assert(acc < 10000000000000);
    }
    Some(acc)
}

/// Parse an ASCII decimal literal, optionally with an exponent part,
/// to its coordinate-unit value: exactly `dec_units` of the bytes.
#[verifier::rlimit(100)]
#[verifier::spinoff_prover]
pub fn parse_decimal(s: &[u8]) -> (r: Option<i64>)
    ensures
        r == dec_units(s@),
{
    let n: usize = s.len();
    let start: usize = if n > 0 && (s[0] == 43 || s[0] == 45) {
        1
    } else {
        0
    };
    let neg: bool = n > 0 && s[0] == 45;
    proof {
        assert(dec_body(s@) =~= s@.subrange(start as int, n as int));
    }
    if n == start {
        proof {
            assert(dec_body(s@).len() == 0);
            assert(forall|g: int| !exp_split_at(dec_body(s@), g));
        }
        return None;
    }
    // find the exponent marker, if any
    let mut epos: usize = start;
    while epos < n && !(s[epos] == 101 || s[epos] == 69)
        invariant
            start <= epos <= n,
            n == s@.len(),
            forall|p: int| start <= p < epos ==> !is_exp_letter(#[trigger] s@[p]),
        decreases n - epos,
    {
        epos = epos + 1;
    }
    let m_end = epos;
    proof {
        assert(scan_facts(s@, start as int, epos as int));
    }
    if m_end == start {
        // the body begins with the marker: there is no mantissa
        proof {
            assert(s@.subrange(start as int, m_end as int).len() == 0);
            lemma_mant_not_ok_kills(s@, start as int, epos as int);
        }
        return None;
    }
    // one pass over the mantissa: find the dot, check every other byte
    let mut dot: usize = m_end;
    let mut ok: bool = true;
    let mut i: usize = start;
    while i < m_end
        invariant
            start <= i <= m_end <= n,
            n == s@.len(),
            start <= 1,
            dot == m_end || (start <= dot < i && s@[dot as int] == 46),
            ok ==> forall|j: int|
                start <= j < i ==> (is_ascii_digit(s@[j]) || (j == dot && s@[j] == 46)),
            ok && dot == m_end ==> forall|j: int| start <= j < i ==> is_ascii_digit(s@[j]),
            !ok ==> !dec_body_ok(s@.subrange(start as int, m_end as int)),
        decreases m_end - i,
    {
        let c = s[i];
        if c == 46 {
            if dot == m_end {
                dot = i;
            } else {
                proof {
                    let mb = s@.subrange(start as int, m_end as int);
                    assert(mb[dot - start] == s@[dot as int]);
                    assert(mb[i - start] == s@[i as int]);
                    lemma_two_dots_body(mb, dot - start, i - start);
                }
                ok = false;
            }
        } else if !(48 <= c && c <= 57) {
            proof {
                let mb = s@.subrange(start as int, m_end as int);
                assert(mb[i - start] == s@[i as int]);
                lemma_body_not_ok(mb, i - start);
            }
            ok = false;
        }
        i = i + 1;
    }
    if !ok {
        proof {
            lemma_mant_not_ok_kills(s@, start as int, epos as int);
        }
        return None;
    }
    let ghost mb = s@.subrange(start as int, m_end as int);
    if dot < m_end && m_end - start < 2 {
        // the mantissa is a lone dot
        proof {
            assert(mb.len() == 1 && mb[0] == 46);
            assert(!all_digits(mb));
            assert(!dec_body_ok(mb));
            lemma_mant_not_ok_kills(s@, start as int, epos as int);
        }
        return None;
    }
    let wide: i128 = match parse_mantissa(s, start, m_end, dot) {
        Some(w) => w,
        None => {
            // ten to the thirteenth whole degrees or more
            if m_end == n {
                proof {
                    let b = dec_body(s@);
                    assert(b =~= mb);
                    assert forall|g: int| !exp_split_at(b, g) by {
                        if exp_split_at(b, g) {
                            assert(b[g] == s@[start + g]);
                        }
                    }
                    assert(dec_frac_part(b) =~= dec_frac_part(mb));
                    lemma_plain_mant_exceeds(s@, start as int);
                }
            } else {
                proof {
                    lemma_mant_too_wide_kills(s@, start as int, epos as int);
                }
            }
            return None;
        },
    };
    let signed_m: i128 = if neg {
        -wide
    } else {
        wide
    };
    proof {
        if neg {
            assert(dec_sign(s@) == -1);
            assert(signed_m == -1 * mant_units(mb)) by (nonlinear_arith)
                requires
                    signed_m == -mant_units(mb),
            ;
        } else {
            assert(dec_sign(s@) == 1);
            assert(signed_m == 1 * mant_units(mb)) by (nonlinear_arith)
                requires
                    signed_m == mant_units(mb),
            ;
        }
        assert(signed_m == dec_sign(s@) * mant_units(mb));
    }
    if m_end == n {
        // no exponent: the body is the mantissa
        proof {
            let b = dec_body(s@);
            assert(b =~= mb);
            assert(dec_units_wide(s@) == signed_m);
        }
        if wide > 0x7FFF_FFFF_FFFF_FFFF {
            return None;
        }
        let mag: i64 = wide as i64;
        if neg {
            return Some(-mag);
        } else {
            return Some(mag);
        }
    }
    // exponent part past the marker
    let ef = epos + 1;
    let ghost pexp = s@.subrange(epos + 1, n as int);
    if ef >= n {
        proof {
            assert(exp_digits(pexp).len() == 0);
            lemma_exp_not_ok_kills(s@, start as int, epos as int);
        }
        return None;
    }
    let es_neg: bool;
    let dfrom: usize;
    if s[ef] == 43 || s[ef] == 45 {
        es_neg = s[ef] == 45;
        dfrom = ef + 1;
    } else {
        es_neg = false;
        dfrom = ef;
    }
    proof {
        assert(pexp[0] == s@[ef as int]);
        assert(exp_digits(pexp) =~= s@.subrange(dfrom as int, n as int));
    }
    if dfrom >= n {
        proof {
            lemma_exp_not_ok_kills(s@, start as int, epos as int);
        }
        return None;
    }
    let mut eok = true;
    let mut j: usize = dfrom;
    while j < n
        invariant
            dfrom <= j <= n,
            n == s@.len(),
            eok == forall|q: int| dfrom <= q < j ==> is_ascii_digit(#[trigger] s@[q]),
        decreases n - j,
    {
        if !(48 <= s[j] && s[j] <= 57) {
            eok = false;
        }
        j = j + 1;
    }
    if !eok {
        proof {
            assert(!all_digits(exp_digits(pexp))) by {
                let q = choose|q: int| dfrom <= q < n && !is_ascii_digit(s@[q]);
                assert(exp_digits(pexp)[q - dfrom] == s@[q]);
            }
            lemma_exp_not_ok_kills(s@, start as int, epos as int);
        }
        return None;
    }
    proof {
        assert forall|q: int|
            0 <= q < exp_digits(pexp).len() implies is_ascii_digit(
            #[trigger] exp_digits(pexp)[q],
        ) by {
            assert(exp_digits(pexp)[q] == s@[dfrom + q]);
        }
        assert(exp_ok(pexp));
        let b = dec_body(s@);
        assert(b.subrange(0, epos - start) =~= mb);
        assert(b.subrange(epos - start + 1, b.len() as int) =~= pexp);
        assert(b[epos - start] == s@[epos as int]);
        assert(exp_split_at(b, epos - start));
        lemma_exp_split_unique(s@, start as int, epos as int);
        assert(dec_units_wide(s@) == exp_scaled(signed_m as int, exp_val(pexp)));
        assert(all_digits(s@.subrange(dfrom as int, n as int)));
        if pexp.len() > 0 && pexp[0] == 45 {
            assert(exp_val(pexp) == -1 * digits_value(exp_digits(pexp)));
        } else {
            assert(exp_val(pexp) == 1 * digits_value(exp_digits(pexp)));
        }
        lemma_digits_value_nonneg(exp_digits(pexp));
    }
    let ghost emag = digits_value(exp_digits(pexp));
    let ev_big: bool;
    let ev: i64;
    match digits_accumulate(s, dfrom, n) {
        Some(v) => {
            ev_big = false;
            ev = v;
        },
        None => {
            ev_big = true;
            ev = 0;
        },
    }
    proof {
        if ev_big {
            assert(emag >= 10000000000000);
        } else {
            assert(ev == emag);
        }
        if es_neg {
            assert(pexp[0] == s@[ef as int]);
            assert(pexp[0] == 45);
            assert(exp_val(pexp) == -1 * emag);
            assert(exp_val(pexp) == -emag) by (nonlinear_arith)
                requires
                    exp_val(pexp) == -1 * emag,
            ;
        } else {
            assert(pexp[0] == s@[ef as int]);
            assert(pexp[0] != 45);
            assert(exp_val(pexp) == 1 * emag);
            assert(exp_val(pexp) == emag);
        }
    }
    let r2 = apply_exponent(signed_m, es_neg, ev, ev_big, Ghost(emag));
    proof {
        assert(dec_units_wide(s@) == exp_scaled(signed_m as int, exp_val(pexp)));
    }
    r2
}

/// Scale the mantissa's worth by ten to the exponent, reporting the
/// value exactly when it fits an `i64`.  `ev_big` stands for an
/// exponent run of ten to the thirteenth or more.
fn apply_exponent(m: i128, es_neg: bool, ev: i64, ev_big: bool, Ghost(emag): Ghost<int>) -> (r:
    Option<i64>)
    requires
        -1000000000000000000000 < m < 1000000000000000000000,
        ev_big ==> emag >= 10000000000000,
        !ev_big ==> emag == ev && 0 <= ev,
    ensures
        ({
            let e: int = if es_neg {
                -emag
            } else {
                emag
            };
            let scaled = exp_scaled(m as int, e);
            r == (if -i64::MAX <= scaled <= i64::MAX {
                Some(scaled as i64)
            } else {
                None::<i64>
            })
        }),
{
    if es_neg {
        // divide, truncating toward zero
        if ev_big || ev >= 21 {
            proof {
                assert(emag >= 21);
                lemma_pow10_increases(21, emag as nat);
                assert(pow10(21) == 1000000000000000000000) by {
                    reveal_with_fuel(pow10, 22);
                }
                lemma_pow10_pos(emag as nat);
                lemma_basic_div_specific_divisor(pow10(emag as nat) as int);
                assert((-(-emag)) as nat == emag as nat);
                if m >= 0 {
                    assert((m as int) / (pow10(emag as nat) as int) == 0);
                } else {
                    assert(((-m) as int) / (pow10(emag as nat) as int) == 0);
                }
                assert(exp_scaled(m as int, -emag) == 0);
            }
            return Some(0);
        }
        let d = pow10_i128(ev as u64);
        let q: i128 = if m >= 0 {
            m / d
        } else {
            -((-m) / d)
        };
        proof {
            assert((-(-emag)) as nat == emag as nat);
            assert(q == exp_scaled(m as int, -emag));
        }
        if q > 0x7FFF_FFFF_FFFF_FFFF || q < -0x7FFF_FFFF_FFFF_FFFF {
            return None;
        }
        return Some(q as i64);
    }
    // multiply
    if m == 0 {
        proof {
            assert((m as int) * pow10(emag as nat) == 0) by (nonlinear_arith)
                requires
                    m == 0,
            ;
        }
        return Some(0);
    }
    if m > 0x7FFF_FFFF_FFFF_FFFF || m < -0x7FFF_FFFF_FFFF_FFFF {
        proof {
            lemma_pow10_pos(emag as nat);
            if m < 0 {
                assert((m as int) * pow10(emag as nat) <= (m as int) * 1) by (nonlinear_arith)
                    requires
                        (m as int) < 0,
                        pow10(emag as nat) >= 1,
                ;
            } else {
                assert((m as int) * pow10(emag as nat) >= (m as int) * 1) by (nonlinear_arith)
                    requires
                        (m as int) > 0,
                        pow10(emag as nat) >= 1,
                ;
            }
        }
        return None;
    }
    if ev_big || ev >= 19 {
        proof {
            assert(emag >= 19);
            lemma_pow10_increases(19, emag as nat);
            assert(pow10(19) == 10000000000000000000) by {
                reveal_with_fuel(pow10, 21);
            }
            if m < 0 {
                assert((m as int) * pow10(emag as nat) <= -1 * pow10(emag as nat))
                    by (nonlinear_arith)
                    requires
                        (m as int) <= -1,
                        pow10(emag as nat) >= 1,
                ;
            } else {
                assert((m as int) * pow10(emag as nat) >= 1 * pow10(emag as nat))
                    by (nonlinear_arith)
                    requires
                        (m as int) >= 1,
                        pow10(emag as nat) >= 1,
                ;
            }
        }
        return None;
    }
    let d = pow10_i128(ev as u64);
    proof {
        assert(m * d <= 0x7FFF_FFFF_FFFF_FFFFi128 * d && m * d >= -0x7FFF_FFFF_FFFF_FFFFi128 * d)
            by (nonlinear_arith)
            requires
                -0x7FFF_FFFF_FFFF_FFFF <= m <= 0x7FFF_FFFF_FFFF_FFFF,
                d >= 1,
        ;
        lemma_pow10_increases(ev as nat, 19);
        assert(pow10(19) == 10000000000000000000) by {
            reveal_with_fuel(pow10, 21);
        }
    }
    let p: i128 = m * d;
    if p > 0x7FFF_FFFF_FFFF_FFFF || p < -0x7FFF_FFFF_FFFF_FFFF {
        return None;
    }
    Some(p as i64)
}

/// When the mantissa's whole degrees reach ten to the thirteenth and
/// no exponent is present, the literal's worth exceeds any i64 count
/// of units.
proof fn lemma_plain_mant_exceeds(s: Seq<u8>, start: int)
    requires
        0 <= start <= 1,
        dec_body(s) == s.subrange(start, s.len() as int),
        dec_body_ok(dec_body(s)),
        forall|g: int| !exp_split_at(dec_body(s), g),
        digits_value(dec_int_part(dec_body(s))) >= 10000000000000,
        all_digits(dec_frac_part(dec_body(s))),
    ensures
        dec_units(s) is None,
{
    let b = dec_body(s);
    let iv = digits_value(dec_int_part(b));
    assert(iv * 90_000_000 >= 10000000000000 * 90_000_000) by (nonlinear_arith)
        requires
            iv >= 10000000000000,
    ;
    let fr = dec_frac_part(b);
    if fr.len() >= 7 {
        assert(all_digits(fr.subrange(0, 7))) by {
            assert(forall|q: int| 0 <= q < 7 ==> fr.subrange(0, 7)[q] == #[trigger] fr[q]);
        }
        lemma_digits_value_nonneg(fr.subrange(0, 7));
        assert(digits_value(fr.subrange(0, 7)) * 9 >= 0) by (nonlinear_arith)
            requires
                digits_value(fr.subrange(0, 7)) >= 0,
        ;
    } else {
        lemma_digits_value_nonneg(fr);
        lemma_pow10_increases(fr.len(), 7);
        proof_pow10_7_bound();
        assert(crate::COORD_SCALE as int / pow10(fr.len()) >= 0) by {
            lemma_pow10_increases(0, fr.len());
        }
        assert(digits_value(fr) * (crate::COORD_SCALE as int / pow10(fr.len())) >= 0)
            by (nonlinear_arith)
            requires
                digits_value(fr) >= 0,
                crate::COORD_SCALE as int / pow10(fr.len()) >= 0,
        ;
    }
    if dec_sign(s) == -1 {
        assert(dec_units_wide(s) == -1 * mant_units(b));
        assert(-1 * mant_units(b) < -i64::MAX) by (nonlinear_arith)
            requires
                mant_units(b) > i64::MAX,
        ;
    } else {
        assert(dec_units_wide(s) == 1 * mant_units(b));
    }
}

/// Compute the worth of the mantissa region in coordinate units, or
/// nothing when its whole degrees reach ten to the thirteenth.
#[verifier::rlimit(100)]
#[verifier::spinoff_prover]
fn parse_mantissa(s: &[u8], start: usize, m_end: usize, dot: usize) -> (r: Option<i128>)
    requires
        start <= m_end <= s@.len(),
        m_end - start >= 1,
        dot == m_end || (start <= dot < m_end && s@[dot as int] == 46),
        dot < m_end ==> m_end - start >= 2,
        forall|j: int|
            start <= j < m_end ==> (is_ascii_digit(#[trigger] s@[j]) || (j == dot && s@[j] == 46)),
        dot == m_end ==> forall|j: int| start <= j < m_end ==> is_ascii_digit(#[trigger] s@[j]),
    ensures
        dec_body_ok(s@.subrange(start as int, m_end as int)),
        all_digits(dec_frac_part(s@.subrange(start as int, m_end as int))),
        r matches Some(w) ==> w == mant_units(s@.subrange(start as int, m_end as int)) && 0 <= w
            < 1000000000000000000000 && digits_value(
            dec_int_part(s@.subrange(start as int, m_end as int)),
        ) < 10000000000000,
        r is None ==> digits_value(
            dec_int_part(s@.subrange(start as int, m_end as int)),
        ) >= 10000000000000,
{
    let ghost mb = s@.subrange(start as int, m_end as int);
    let (int_from, int_to, frac_from, frac_to): (usize, usize, usize, usize) = if dot == m_end {
        (start, m_end, m_end, m_end)
    } else {
        (start, dot, dot + 1, m_end)
    };
    proof {
        lemma_mant_parts(s@, start as int, m_end as int, dot as int);
        assert(dec_int_part(mb) == s@.subrange(int_from as int, int_to as int));
        assert(dec_frac_part(mb) == s@.subrange(frac_from as int, frac_to as int));
    }
    let ip = match digits_accumulate(s, int_from, int_to) {
        Some(v) => v,
        None => {
            return None;
        },
    };
    // worth of the fraction run, truncated past the seventh digit
    let fp: usize = if frac_to - frac_from > 7 {
        7
    } else {
        frac_to - frac_from
    };
    proof {
        assert forall|j: int|
            0 <= j < fp implies is_ascii_digit(
            #[trigger] s@.subrange(frac_from as int, frac_from + fp)[j],
        ) by {
            assert(s@.subrange(frac_from as int, frac_from + fp)[j] == s@[frac_from + j]);
        }
        assert(all_digits(s@.subrange(frac_from as int, frac_from + fp)));
    }
    let fv = match digits_accumulate(s, frac_from, frac_from + fp) {
        Some(v) => v,
        None => {
            proof {
                let run = s@.subrange(frac_from as int, frac_from + fp);
                lemma_digits_value_upper(run);
                lemma_pow10_increases(run.len(), 7);
                proof_pow10_7_bound();
                lemma_pow10_increases(7, 13);
                assert(pow10(13) == 10000000000000) by {
                    reveal_with_fuel(pow10, 15);
                }
                assert(false);
            }
            return None;  // unreachable: seven digits stay below ten to the thirteenth
        },
    };
    let factor: i64 = frac_factor(fp);
    proof {
        let fr = dec_frac_part(mb);
        if fr.len() >= 7 {
            assert(fr.subrange(0, 7) =~= s@.subrange(frac_from as int, frac_from + 7));
        }
        lemma_digits_value_upper(s@.subrange(frac_from as int, frac_from + fp));
        lemma_digits_value_nonneg(s@.subrange(frac_from as int, frac_from + fp));
        assert(fv * factor < 90_000_000 && fv * factor >= 0) by (nonlinear_arith)
            requires
                0 <= fv < pow10(fp as nat),
                factor * pow10(fp as nat) == 90_000_000,
                factor >= 1,
                pow10(fp as nat) >= 1,
        ;
    }
    let frac_units_v: i64 = fv * factor;
    proof {
        assert((ip as i128) * 90_000_000 <= 10000000000000i128 * 90_000_000 && (ip as i128)
            * 90_000_000 >= 0) by (nonlinear_arith)
            requires
                0 <= (ip as i128) <= 10000000000000i128,
        ;
    }
    let wide: i128 = (ip as i128) * 90_000_000 + (frac_units_v as i128);
    proof {
        let fr = dec_frac_part(mb);
        assert(ip == digits_value(dec_int_part(mb)));
        if fr.len() >= 7 {
            assert(fp == 7);
            assert(factor == 9) by {
                proof_pow10_7_bound();
            }
            assert(fv == digits_value(fr.subrange(0, 7)));
            assert(frac_units_v == frac_units(fr));
        } else {
            assert(fp == fr.len());
            assert(s@.subrange(frac_from as int, frac_from + fp) =~= fr);
            assert(frac_units_v == frac_units(fr));
        }
        assert(wide == mant_units(mb));
        assert(0 <= wide);
        assert(wide < 1000000000000000000000i128);
    }
    Some(wide)
}

/// The mantissa region with at most one dot and digits elsewhere is a
/// plain decimal body whose parts are the runs around the dot.
proof fn lemma_mant_parts(s: Seq<u8>, start: int, m_end: int, dot: int)
    requires
        0 <= start <= m_end <= s.len(),
        m_end - start >= 1,
        dot == m_end || (start <= dot < m_end && s[dot] == 46),
        dot < m_end ==> m_end - start >= 2,
        forall|j: int| start <= j < m_end ==> (is_ascii_digit(#[trigger] s[j]) || (j == dot && s[j] == 46)),
        dot == m_end ==> forall|j: int| start <= j < m_end ==> is_ascii_digit(#[trigger] s[j]),
    ensures
        dec_body_ok(s.subrange(start, m_end)),
        dot == m_end ==> dec_int_part(s.subrange(start, m_end)) == s.subrange(start, m_end)
            && dec_frac_part(s.subrange(start, m_end)) == s.subrange(m_end, m_end),
        dot < m_end ==> dec_int_part(s.subrange(start, m_end)) == s.subrange(start, dot)
            && dec_frac_part(s.subrange(start, m_end)) == s.subrange(dot + 1, m_end),
        all_digits(s.subrange(start, if dot == m_end { m_end } else { dot })),
        all_digits(s.subrange(if dot == m_end { m_end } else { dot + 1 }, m_end)),
        all_digits(dec_frac_part(s.subrange(start, m_end))),
{
    let mb = s.subrange(start, m_end);
    assert(mb.len() == m_end - start);
    if dot == m_end {
        assert forall|j: int| 0 <= j < mb.len() implies is_ascii_digit(mb[j]) by {
            assert(mb[j] == s[start + j]);
        }
        assert(all_digits(mb));
        assert(dec_int_part(mb) == mb);
        assert(mb =~= s.subrange(start, m_end));
        assert(dec_frac_part(mb) =~= s.subrange(m_end, m_end));
    } else {
        let d = dot - start;
        assert(mb.subrange(0, d as int) =~= s.subrange(start, dot));
        assert(mb.subrange(d + 1, mb.len() as int) =~= s.subrange(dot + 1, m_end));
        assert forall|j: int| 0 <= j < d implies is_ascii_digit(mb.subrange(0, d as int)[j]) by {
            assert(mb.subrange(0, d as int)[j] == s[start + j]);
        }
        assert forall|j: int|
            0 <= j < mb.len() - d - 1 implies is_ascii_digit(
            #[trigger] mb.subrange(d + 1, mb.len() as int)[j],
        ) by {
            assert(mb.subrange(d + 1, mb.len() as int)[j] == s[dot + 1 + j]);
        }
        assert(dec_split_at(mb, d as int));
        assert(!all_digits(mb)) by {
            assert(mb[d as int] == 46);
        }
        let dc = choose|d2: int| dec_split_at(mb, d2);
        assert(dec_split_at(mb, dc));
        lemma_dec_split_unique(mb, d as int, dc);
        assert(dec_int_part(mb) =~= s.subrange(start, dot));
        assert(dec_frac_part(mb) =~= s.subrange(dot + 1, m_end));
    }
}

fn pow10_i128(e: u64) -> (r: i128)
    requires
        e <= 20,
    ensures
        r == pow10(e as nat),
        r >= 1,
{
    let mut r: i128 = 1;
    let mut i: u64 = 0;
    while i < e
        invariant
            i <= e,
            e <= 20,
            r == pow10(i as nat),
            r >= 1,
        decreases e - i,
    {
        proof {
            lemma_pow10_increases(i as nat, 19);
            assert(pow10(19) == 10000000000000000000) by {
                reveal_with_fuel(pow10, 21);
            }
            assert(pow10((i + 1) as nat) == 10 * pow10(i as nat));
        }
        r = r * 10;
        i = i + 1;
    }
    r
}

proof fn proof_pow10_7_bound()
    ensures
        pow10(7) == 10_000_000,
{
    reveal_with_fuel(pow10, 9);
}

} // verus!

//! Decimal numbers written as text: an optional sign, digits with at most one
//! decimal point, and an optional exponent (`-80.19`, `+25.7617`, `2.5e1`,
//! `.5`, `7.`). The value is kept to eighteen significant digits, truncated.
//! An exponent is read up to `EXPONENT_LIMIT` in magnitude (a larger one
//! counts as that limit); a value whose exponent then lies below
//! `-EXPONENT_LIMIT` reads as zero, and one above `EXPONENT_LIMIT` is refused.

use vstd::prelude::*;

use crate::number::{lemma_pow10_at_least, lemma_pow10_values, pow10, Decimal};
use crate::text::{ascii_digit, is_ascii_digit, str_chars, trim_char_vec, trim_seq};

verus! {

/// The most significant digits a mantissa keeps.
pub const KEPT_DIGITS: usize = 18;

/// The largest exponent magnitude read; beyond it every nonzero value is out
/// of reach.
pub const EXPONENT_LIMIT: i64 = 100_000;

pub open spec fn all_digits(s: Seq<char>) -> bool {
    forall|i: int| 0 <= i < s.len() ==> is_ascii_digit(#[trigger] s[i])
}

pub open spec fn digit_value(c: char) -> int {
    c as int - '0' as int
}

/// The natural number the digits `s` spell.
pub open spec fn digits_value(s: Seq<char>) -> int
    decreases s.len(),
{
    if s.len() == 0 {
        0
    } else {
        digits_value(s.drop_last()) * 10 + digit_value(s.last())
    }
}

/// `s` without its leading `'0'`s.
pub open spec fn strip_zeros(s: Seq<char>) -> Seq<char>
    decreases s.len(),
{
    if s.len() > 0 && s[0] == '0' {
        strip_zeros(s.drop_first())
    } else {
        s
    }
}

/// The sign in front of `t`, and the rest.
pub open spec fn split_sign(t: Seq<char>) -> (bool, Seq<char>) {
    if t.len() > 0 && t[0] == '-' {
        (true, t.drop_first())
    } else if t.len() > 0 && t[0] == '+' {
        (false, t.drop_first())
    } else {
        (false, t)
    }
}

pub open spec fn is_exponent_mark(c: char) -> bool {
    c == 'e' || c == 'E'
}

/// `i` is the first position of an exponent mark in `s`, or its length.
pub open spec fn first_exponent_mark(s: Seq<char>, i: int) -> bool {
    &&& 0 <= i <= s.len()
    &&& (i < s.len() ==> is_exponent_mark(s[i]))
    &&& forall|j: int| 0 <= j < i ==> !is_exponent_mark(#[trigger] s[j])
}

/// `i` is the first position of `'.'` in `s`, or its length.
pub open spec fn first_point(s: Seq<char>, i: int) -> bool {
    &&& 0 <= i <= s.len()
    &&& (i < s.len() ==> s[i] == '.')
    &&& forall|j: int| 0 <= j < i ==> #[trigger] s[j] != '.'
}

/// The parts of a decimal text: negative, integer digits, fraction digits,
/// negative exponent, exponent digits.
pub open spec fn number_parts(t: Seq<char>) -> Option<(bool, Seq<char>, Seq<char>, bool, Seq<char>)> {
    let (neg, r) = split_sign(t);
    let ei = choose|i: int| first_exponent_mark(r, i);
    let mant = r.take(ei);
    let pi = choose|i: int| first_point(mant, i);
    let int_digits = mant.take(pi);
    let frac_digits = if pi < mant.len() {
        mant.skip(pi + 1)
    } else {
        Seq::empty()
    };
    let has_exp = ei < r.len();
    let (eneg, exp_digits) = if has_exp {
        split_sign(r.skip(ei + 1))
    } else {
        (false, Seq::empty())
    };
    if all_digits(int_digits) && all_digits(frac_digits) && int_digits.len() + frac_digits.len() > 0
        && (!has_exp || (exp_digits.len() > 0 && all_digits(exp_digits))) {
        Some((neg, int_digits, frac_digits, eneg, exp_digits))
    } else {
        None
    }
}

/// The value a decimal text names, to eighteen significant digits
/// (truncated); `None` when it is not a decimal text or is out of reach.
pub open spec fn decimal_text_value(t: Seq<char>) -> Option<Decimal> {
    match number_parts(t) {
        None => None,
        Some((neg, int_digits, frac_digits, eneg, exp_digits)) => {
            let s = strip_zeros(int_digits + frac_digits);
            let kept = s.take(if s.len() > KEPT_DIGITS { KEPT_DIGITS as int } else { s.len() as int });
            let m = digits_value(kept);
            let ev = if digits_value(exp_digits) > EXPONENT_LIMIT {
                EXPONENT_LIMIT as int
            } else {
                digits_value(exp_digits)
            };
            let e = (if eneg { -ev } else { ev }) - frac_digits.len() + (s.len() - kept.len());
            if m == 0 || e < -EXPONENT_LIMIT {
                Some(Decimal { mantissa: 0, exponent: 0 })
            } else if e > EXPONENT_LIMIT {
                None
            } else {
                Some(Decimal { mantissa: (if neg { -m } else { m }) as i64, exponent: e as i32 })
            }
        },
    }
}

proof fn lemma_digits_value_bounds(s: Seq<char>)
    requires
        all_digits(s),
    ensures
        0 <= digits_value(s),
        digits_value(s) < pow10(s.len()),
        s.len() <= 18 ==> digits_value(s) < 1_000_000_000_000_000_000,
    decreases s.len(),
{
    if s.len() > 0 {
        lemma_digits_value_bounds(s.drop_last());
    }
    if s.len() <= 18 {
        lemma_pow10_values();
        lemma_pow10_at_least(18, s.len());
    }
}

proof fn lemma_digits_value_grows(s: Seq<char>, i: int)
    requires
        all_digits(s),
        0 <= i <= s.len(),
    ensures
        digits_value(s.take(i)) <= digits_value(s),
    decreases s.len(),
{
    if i < s.len() {
        assert(s.drop_last().take(i) == s.take(i));
        lemma_digits_value_grows(s.drop_last(), i);
        lemma_digits_value_bounds(s.drop_last());
    } else {
        assert(s.take(i) == s);
    }
}

proof fn lemma_strip_zeros_skip(s: Seq<char>, z: int)
    requires
        0 <= z <= s.len(),
        forall|j: int| 0 <= j < z ==> s[j] == '0',
        z < s.len() ==> s[z] != '0',
    ensures
        strip_zeros(s) == s.skip(z),
    decreases z,
{
    if z > 0 {
        assert(s.drop_first().skip(z - 1) == s.skip(z));
        lemma_strip_zeros_skip(s.drop_first(), z - 1);
    } else {
        assert(s.skip(0) == s);
    }
}

fn first_exponent_mark_exec(s: &Vec<char>, from: usize) -> (r: usize)
    requires
        from <= s.len(),
    ensures
        first_exponent_mark(s@.skip(from as int), r - from),
        from <= r <= s.len(),
{
    let mut i = from;
    while i < s.len() && !(s[i] == 'e' || s[i] == 'E')
        invariant
            from <= i <= s.len(),
            forall|j: int| from <= j < i ==> !is_exponent_mark(#[trigger] s@[j]),
        decreases s.len() - i,
    {
        i += 1;
    }
    assert forall|j: int| 0 <= j < i - from implies !is_exponent_mark(#[trigger] s@.skip(from as int)[j]) by {
        assert(s@.skip(from as int)[j] == s@[j + from]);
    }
    i
}

fn first_point_exec(s: &Vec<char>, from: usize, to: usize) -> (r: usize)
    requires
        from <= to <= s.len(),
    ensures
        first_point(s@.subrange(from as int, to as int), r - from),
        from <= r <= to,
{
    let mut i = from;
    while i < to && s[i] != '.'
        invariant
            from <= i <= to,
            to <= s.len(),
            forall|j: int| from <= j < i ==> #[trigger] s@[j] != '.',
        decreases to - i,
    {
        i += 1;
    }
    assert forall|j: int| 0 <= j < i - from implies #[trigger] s@.subrange(from as int, to as int)[j] != '.' by {
        assert(s@.subrange(from as int, to as int)[j] == s@[j + from]);
    }
    i
}

fn digits_between(s: &Vec<char>, from: usize, to: usize) -> (r: bool)
    requires
        from <= to <= s.len(),
    ensures
        r == all_digits(s@.subrange(from as int, to as int)),
{
    let mut i = from;
    while i < to
        invariant
            from <= i <= to,
            to <= s.len(),
            forall|j: int| from <= j < i ==> is_ascii_digit(#[trigger] s@[j]),
        decreases to - i,
    {
        if !ascii_digit(s[i]) {
            assert(!is_ascii_digit(s@.subrange(from as int, to as int)[i - from]));
            return false;
        }
        i += 1;
    }
    assert forall|j: int| 0 <= j < to - from implies is_ascii_digit(#[trigger] s@.subrange(from as int, to as int)[j]) by {
        assert(s@.subrange(from as int, to as int)[j] == s@[j + from]);
    }
    true
}

proof fn lemma_first_exponent_mark_unique(s: Seq<char>, i: int)
    requires
        first_exponent_mark(s, i),
    ensures
        (choose|k: int| first_exponent_mark(s, k)) == i,
{
    let c = choose|k: int| first_exponent_mark(s, k);
    assert(first_exponent_mark(s, c));
    if c < i {
        assert(!is_exponent_mark(s[c]));
    } else if c > i {
        assert(!is_exponent_mark(s[i]));
    }
}

proof fn lemma_first_point_unique(s: Seq<char>, i: int)
    requires
        first_point(s, i),
    ensures
        (choose|k: int| first_point(s, k)) == i,
{
    let c = choose|k: int| first_point(s, k);
    assert(first_point(s, c));
    if c < i {
        assert(s[c] != '.');
    } else if c > i {
        assert(s[i] != '.');
    }
}

/// Where the parts of a decimal text lie: negative, integer digits
/// `[a, b)`, fraction digits `[c, d)`, negative exponent, exponent digits
/// `[e, len)`.
#[verifier::rlimit(60)]
fn text_shape(t: &Vec<char>) -> (r: Option<(bool, usize, usize, usize, usize, bool, usize)>)
    ensures
        match r {
            Some((neg, a, b, c, d, eneg, e)) => {
                &&& a <= b <= c <= d <= e <= t.len()
                &&& number_parts(t@) == Some((
                    neg,
                    t@.subrange(a as int, b as int),
                    t@.subrange(c as int, d as int),
                    eneg,
                    t@.subrange(e as int, t.len() as int),
                ))
            },
            None => number_parts(t@) is None,
        },
{
    let n = t.len();
    let mut start: usize = 0;
    let mut neg = false;
    if n > 0 && t[0] == '-' {
        neg = true;
        start = 1;
    } else if n > 0 && t[0] == '+' {
        start = 1;
    }
    let ghost rest = t@.skip(start as int);
    assert(split_sign(t@) == (neg, rest)) by {
        if start == 1 {
            assert(t@.drop_first() == rest);
        } else {
            assert(t@.skip(0) == t@);
        }
    }
    let ei = first_exponent_mark_exec(t, start);
    proof {
        lemma_first_exponent_mark_unique(rest, ei - start);
    }
    let ghost mant = rest.take(ei - start);
    assert(mant == t@.subrange(start as int, ei as int));
    let pi = first_point_exec(t, start, ei);
    proof {
        lemma_first_point_unique(mant, pi - start);
    }
    let ghost int_digits = mant.take(pi - start);
    assert(int_digits == t@.subrange(start as int, pi as int));
    let frac_start = if pi < ei {
        pi + 1
    } else {
        ei
    };
    let ghost frac_digits = if pi - start < mant.len() {
        mant.skip(pi - start + 1)
    } else {
        Seq::<char>::empty()
    };
    assert(frac_digits == t@.subrange(frac_start as int, ei as int));
    let has_exp = ei < n;
    let mut exp_start: usize = n;
    let mut eneg = false;
    if has_exp {
        exp_start = ei + 1;
        if exp_start < n && t[exp_start] == '-' {
            eneg = true;
            exp_start = exp_start + 1;
        } else if exp_start < n && t[exp_start] == '+' {
            exp_start = exp_start + 1;
        }
    }
    let ghost exp_digits = if has_exp {
        split_sign(rest.skip(ei - start + 1)).1
    } else {
        Seq::<char>::empty()
    };
    assert(has_exp ==> split_sign(rest.skip(ei - start + 1)).0 == eneg);
    assert(exp_digits == t@.subrange(exp_start as int, n as int)) by {
        if has_exp {
            assert(rest.skip(ei - start + 1) == t@.subrange(ei + 1, n as int));
            if ei + 1 < n && (t@[ei + 1] == '-' || t@[ei + 1] == '+') {
                assert(t@.subrange(ei + 1, n as int).drop_first() == t@.subrange(exp_start as int, n as int));
            }
        }
    }
    let shape_ok = digits_between(t, start, pi) && digits_between(t, frac_start, ei) && (pi - start)
        + (ei - frac_start) > 0 && (!has_exp || (exp_start < n && digits_between(t, exp_start, n)));
    if !shape_ok {
        return None;
    }
    Some((neg, start, pi, frac_start, ei, eneg, exp_start))
}

/// The first eighteen significant digits of `all` as a number, and how many
/// significant digits follow them.
fn kept_mantissa(all: &Vec<char>) -> (r: (i64, usize))
    requires
        all_digits(all@),
    ensures
        ({
            let s = strip_zeros(all@);
            let kept = s.take(if s.len() > KEPT_DIGITS { KEPT_DIGITS as int } else { s.len() as int });
            r.0 == digits_value(kept) && r.1 == s.len() - kept.len()
        }),
        0 <= r.0 < 1_000_000_000_000_000_000,
{
    let mut z: usize = 0;
    while z < all.len() && all[z] == '0'
        invariant
            z <= all.len(),
            forall|j: int| 0 <= j < z ==> #[trigger] all@[j] == '0',
        decreases all.len() - z,
    {
        z += 1;
    }
    proof {
        lemma_strip_zeros_skip(all@, z as int);
    }
    let ghost s = all@.skip(z as int);
    let significant = all.len() - z;
    let kept_len = if significant > KEPT_DIGITS {
        KEPT_DIGITS
    } else {
        significant
    };
    let mut m: i64 = 0;
    let mut j: usize = 0;
    while j < kept_len
        invariant
            j <= kept_len <= 18,
            kept_len <= significant,
            significant == all.len() - z,
            all_digits(all@),
            s == all@.skip(z as int),
            m == digits_value(s.take(j as int)),
            0 <= m < 1_000_000_000_000_000_000,
        decreases kept_len - j,
    {
        let c = all[z + j];
        assert(s[j as int] == c);
        assert(s.take(j + 1).drop_last() == s.take(j as int));
        assert(is_ascii_digit(c));
        proof {
            assert(all_digits(s.take(j + 1)));
            lemma_digits_value_bounds(s.take(j + 1));
        }
        m = m * 10 + ((c as u32 - '0' as u32) as i64);
        j += 1;
    }
    (m, significant - kept_len)
}

/// The exponent digits `[from, len)` as a number, saturating at `EXPONENT_LIMIT`.
fn exponent_value(t: &Vec<char>, from: usize) -> (r: i64)
    requires
        from <= t.len(),
        all_digits(t@.subrange(from as int, t.len() as int)),
    ensures
        r == (if digits_value(t@.subrange(from as int, t.len() as int)) > EXPONENT_LIMIT {
            EXPONENT_LIMIT as int
        } else {
            digits_value(t@.subrange(from as int, t.len() as int))
        }),
{
    let n = t.len();
    let mut ev: i64 = 0;
    let mut k: usize = from;
    while k < n
        invariant
            from <= k <= n,
            n == t.len(),
            all_digits(t@.subrange(from as int, n as int)),
            0 <= ev <= EXPONENT_LIMIT,
            ev == (if digits_value(t@.subrange(from as int, k as int)) > EXPONENT_LIMIT {
                EXPONENT_LIMIT as int
            } else {
                digits_value(t@.subrange(from as int, k as int))
            }),
        decreases n - k,
    {
        let ghost prev = t@.subrange(from as int, k as int);
        let ghost next = t@.subrange(from as int, k + 1);
        assert(next.drop_last() == prev);
        assert(t@.subrange(from as int, n as int)[k - from] == t@[k as int]);
        assert(is_ascii_digit(t@[k as int]));
        let d = (t[k] as u32 - '0' as u32) as i64;
        proof {
            assert(all_digits(prev));
            lemma_digits_value_bounds(prev);
        }
        if ev < EXPONENT_LIMIT {
            ev = ev * 10 + d;
            if ev > EXPONENT_LIMIT {
                ev = EXPONENT_LIMIT;
            }
        }
        k += 1;
    }
    ev
}

/// The value of a decimal text, as `decimal_text_value` describes it.
pub fn parse_decimal_text(t: &Vec<char>) -> (r: Option<Decimal>)
    ensures
        r == decimal_text_value(t@),
{
    let (neg, a, b, c, d, eneg, e) = match text_shape(t) {
        Some(shape) => shape,
        None => {
            return None;
        },
    };
    let mut digits: Vec<char> = Vec::new();
    let mut i = a;
    while i < b
        invariant
            a <= i <= b,
            b <= t.len(),
            digits@ == t@.subrange(a as int, i as int),
        decreases b - i,
    {
        digits.push(t[i]);
        i += 1;
    }
    let mut i = c;
    while i < d
        invariant
            c <= i <= d,
            d <= t.len(),
            digits@ == t@.subrange(a as int, b as int) + t@.subrange(c as int, i as int),
        decreases d - i,
    {
        digits.push(t[i]);
        i += 1;
    }
    let ghost parts = number_parts(t@).unwrap();
    assert(digits@ == parts.1 + parts.2);
    assert(all_digits(digits@));
    let (m, dropped) = kept_mantissa(&digits);
    let ev = exponent_value(t, e);
    let signed_exp: i128 = if eneg {
        -(ev as i128)
    } else {
        ev as i128
    };
    let exponent: i128 = signed_exp - ((d - c) as i128) + (dropped as i128);
    if m == 0 || exponent < -(EXPONENT_LIMIT as i128) {
        Some(Decimal { mantissa: 0, exponent: 0 })
    } else if exponent > EXPONENT_LIMIT as i128 {
        None
    } else {
        let mantissa = if neg {
            -m
        } else {
            m
        };
        Some(Decimal { mantissa, exponent: exponent as i32 })
    }
}

/// `i` is the first position of `','` in `s`, or its length.
pub open spec fn first_comma(s: Seq<char>, i: int) -> bool {
    &&& 0 <= i <= s.len()
    &&& (i < s.len() ==> s[i] == ',')
    &&& forall|j: int| 0 <= j < i ==> #[trigger] s[j] != ','
}

/// A `latitude,longitude` text: split at the first comma, each side trimmed
/// and read as a decimal text.
pub open spec fn point_text_value(t: Seq<char>) -> Option<(Decimal, Decimal)> {
    let ci = choose|i: int| first_comma(t, i);
    if ci < t.len() {
        match (decimal_text_value(trim_seq(t.take(ci))), decimal_text_value(trim_seq(t.skip(ci + 1)))) {
            (Some(a), Some(b)) => Some((a, b)),
            _ => None,
        }
    } else {
        None
    }
}

fn copy_range(v: &Vec<char>, from: usize, to: usize) -> (r: Vec<char>)
    requires
        from <= to <= v.len(),
    ensures
        r@ == v@.subrange(from as int, to as int),
{
    let mut r: Vec<char> = Vec::new();
    let mut i = from;
    while i < to
        invariant
            from <= i <= to <= v.len(),
            r@ == v@.subrange(from as int, i as int),
        decreases to - i,
    {
        r.push(v[i]);
        i += 1;
    }
    r
}

/// The two decimals of a `latitude,longitude` text.
pub fn parse_point_text(text: &str) -> (r: Option<(Decimal, Decimal)>)
    ensures
        r == point_text_value(text@),
{
    let t = str_chars(text);
    let n = t.len();
    let mut ci: usize = 0;
    while ci < n && t[ci] != ','
        invariant
            ci <= n,
            n == t.len(),
            forall|j: int| 0 <= j < ci ==> #[trigger] t@[j] != ',',
        decreases n - ci,
    {
        ci += 1;
    }
    proof {
        assert(first_comma(t@, ci as int));
        let c = choose|i: int| first_comma(t@, i);
        if c < ci {
            assert(t@[c] != ',');
        } else if c > ci {
            assert(t@[ci as int] != ',');
        }
    }
    if ci == n {
        return None;
    }
    let left = trim_char_vec(&copy_range(&t, 0, ci));
    let right = trim_char_vec(&copy_range(&t, ci + 1, n));
    assert(t@.subrange(0, ci as int) == t@.take(ci as int));
    assert(t@.subrange(ci + 1, n as int) == t@.skip(ci + 1));
    match (parse_decimal_text(&left), parse_decimal_text(&right)) {
        (Some(a), Some(b)) => Some((a, b)),
        _ => None,
    }
}

} // verus!

//! Exact decimal numbers.
//!
//! Scope values, coordinates and provider measurements are decimal numbers.
//! They are held here as an integer mantissa and a power-of-ten exponent, so
//! every comparison the rules make is exact.

use vstd::prelude::*;

verus! {

/// `10^n`.
pub open spec fn pow10(n: nat) -> int
    decreases n,
{
    if n == 0 {
        1
    } else {
        10 * pow10((n - 1) as nat)
    }
}

pub proof fn lemma_pow10_positive(n: nat)
    ensures
        pow10(n) >= 1,
    decreases n,
{
    if n > 0 {
        lemma_pow10_positive((n - 1) as nat);
    }
}

pub proof fn lemma_pow10_at_least(n: nat, m: nat)
    requires
        m <= n,
    ensures
        pow10(m) <= pow10(n),
    decreases n,
{
    if n > m {
        lemma_pow10_at_least((n - 1) as nat, m);
        lemma_pow10_positive((n - 1) as nat);
    }
}

/// The powers of ten the exact comparisons rely on.
pub proof fn lemma_pow10_values()
    ensures
        pow10(18) == 1000000000000000000,
        pow10(19) == 10000000000000000000,
{
    assert(pow10(0) == 1);
    assert(pow10(1) == 10);
    assert(pow10(2) == 100);
    assert(pow10(3) == 1000);
    assert(pow10(4) == 10000);
    assert(pow10(5) == 100000);
    assert(pow10(6) == 1000000);
    assert(pow10(7) == 10000000);
    assert(pow10(8) == 100000000);
    assert(pow10(9) == 1000000000);
    assert(pow10(10) == 10000000000);
    assert(pow10(11) == 100000000000);
    assert(pow10(12) == 1000000000000);
    assert(pow10(13) == 10000000000000);
    assert(pow10(14) == 100000000000000);
    assert(pow10(15) == 1000000000000000);
    assert(pow10(16) == 10000000000000000);
    assert(pow10(17) == 100000000000000000);
    assert(pow10(18) == 1000000000000000000);
    assert(pow10(19) == 10000000000000000000);
}

/// `m1 × 10^e1 <= m2 × 10^e2`, decided over the integers.
pub open spec fn scaled_le(m1: int, e1: int, m2: int, e2: int) -> bool {
    if e1 <= e2 {
        m1 <= m2 * pow10((e2 - e1) as nat)
    } else {
        m1 * pow10((e1 - e2) as nat) <= m2
    }
}

/// A finite decimal number: `mantissa × 10^exponent`.
#[derive(Clone, Copy, Debug, PartialEq, Eq)]
pub struct Decimal {
    pub mantissa: i64,
    pub exponent: i32,
}

/// A real number as a measurement carries it: finite, or not a number at all.
#[derive(Clone, Copy, Debug, PartialEq, Eq)]
pub enum Real {
    Finite(Decimal),
    NonFinite,
}

impl Decimal {
    pub open spec fn le_spec(self, other: Decimal) -> bool {
        scaled_le(self.mantissa as int, self.exponent as int, other.mantissa as int, other.exponent as int)
    }

    /// The integer `value`.
    pub fn from_integer(value: i64) -> (d: Decimal)
        ensures
            d.mantissa == value,
            d.exponent == 0,
    {
        Decimal { mantissa: value, exponent: 0 }
    }

    /// `mantissa × 10^exponent`.
    pub fn new(mantissa: i64, exponent: i32) -> (d: Decimal)
        ensures
            d.mantissa == mantissa,
            d.exponent == exponent,
    {
        Decimal { mantissa, exponent }
    }

    /// Whether `self <= other`, exactly.
    pub fn le(&self, other: &Decimal) -> (r: bool)
        ensures
            r == self.le_spec(*other),
    {
        if self.exponent <= other.exponent {
            let d = (other.exponent as i64) - (self.exponent as i64);
            scaled_le_exec(self.mantissa as i128, other.mantissa as i128, d)
        } else {
            let d = (self.exponent as i64) - (other.exponent as i64);
            // self.m × 10^d <= other.m  ⇔  -other.m <= -self.m × 10^d
            let r = scaled_le_exec(-(other.mantissa as i128), -(self.mantissa as i128), d);
            proof {
                lemma_pow10_positive(d as nat);
                assert((-(self.mantissa as int)) * pow10(d as nat) == -((self.mantissa as int) * pow10(d as nat))) by (nonlinear_arith);
            }
            r
        }
    }
}

/// `10^n` for `n <= 18`.
pub fn pow10_exec(n: u32) -> (r: i128)
    requires
        n <= 18,
    ensures
        r == pow10(n as nat),
{
    let mut r: i128 = 1;
    let mut i: u32 = 0;
    while i < n
        invariant
            i <= n <= 18,
            r == pow10(i as nat),
        decreases n - i,
    {
        proof {
            lemma_pow10_at_least(18, (i + 1) as nat);
            lemma_pow10_values();
            assert(pow10((i + 1) as nat) == 10 * pow10(i as nat));
            lemma_pow10_positive(i as nat);
        }
        r = r * 10;
        i = i + 1;
    }
    r
}

/// `lhs <= rhs × 10^d` for `d >= 0`, where both sides fit in 64 bits of magnitude.
fn scaled_le_exec(lhs: i128, rhs: i128, d: i64) -> (r: bool)
    requires
        -0x8000_0000_0000_0000 <= lhs <= 0x8000_0000_0000_0000,
        -0x8000_0000_0000_0000 <= rhs <= 0x8000_0000_0000_0000,
        d >= 0,
    ensures
        r == (lhs <= rhs * pow10(d as nat)),
{
    proof {
        lemma_pow10_values();
    }
    if d <= 18 {
        let p = pow10_exec(d as u32);
        proof {
            lemma_pow10_at_least(18, d as nat);
            lemma_pow10_positive(d as nat);
            assert(-0x8000_0000_0000_0000 * 1000000000000000000 <= rhs * p <= 0x8000_0000_0000_0000 * 1000000000000000000) by (nonlinear_arith)
                requires
                    -0x8000_0000_0000_0000 <= rhs <= 0x8000_0000_0000_0000,
                    1 <= p <= 1000000000000000000;
        }
        lhs <= rhs * p
    } else {
        proof {
            lemma_pow10_at_least(d as nat, 19);
            let p = pow10(d as nat);
            if rhs > 0 {
                assert(rhs * p >= p) by (nonlinear_arith) requires rhs >= 1, p >= 1;
            } else if rhs < 0 {
                assert(rhs * p <= -p) by (nonlinear_arith) requires rhs <= -1, p >= 1;
            } else {
                assert(rhs * p == 0);
            }
        }
        if rhs > 0 {
            true
        } else if rhs < 0 {
            false
        } else {
            lhs <= 0
        }
    }
}


proof fn lemma_pow10_add(a: nat, b: nat)
    ensures
        pow10(a + b) == pow10(a) * pow10(b),
    decreases a,
{
    if a > 0 {
        lemma_pow10_add((a - 1) as nat, b);
        assert(pow10(a + b) == 10 * pow10((a - 1 + b) as nat));
        assert(10 * (pow10((a - 1) as nat) * pow10(b)) == (10 * pow10((a - 1) as nat)) * pow10(b)) by (nonlinear_arith);
    }
}

/// `10^38` is the largest power of ten an `i128` holds.
pub proof fn lemma_pow10_38()
    ensures
        pow10(38) == 100000000000000000000000000000000000000,
        pow10(39) == 1000000000000000000000000000000000000000,
{
    lemma_pow10_values();
    lemma_pow10_add(19, 19);
    assert(pow10(19) * pow10(19) == 100000000000000000000000000000000000000);
    assert(pow10(39) == 10 * pow10(38));
}

/// `10^n` for `n <= 38`.
pub fn pow10_wide(n: u32) -> (r: i128)
    requires
        n <= 38,
    ensures
        r == pow10(n as nat),
{
    let mut r: i128 = 1;
    let mut i: u32 = 0;
    while i < n
        invariant
            i <= n <= 38,
            r == pow10(i as nat),
        decreases n - i,
    {
        proof {
            lemma_pow10_38();
            lemma_pow10_at_least(38, (i + 1) as nat);
            assert(pow10((i + 1) as nat) == 10 * pow10(i as nat));
            lemma_pow10_positive(i as nat);
        }
        r = r * 10;
        i = i + 1;
    }
    r
}

/// `lhs <= rhs × 10^d` for `d >= 0`, for any `i128` operands.
fn wide_le(lhs: i128, rhs: i128, d: i64) -> (r: bool)
    requires
        d >= 0,
    ensures
        r == (lhs <= rhs * pow10(d as nat)),
{
    if rhs == 0 {
        return lhs <= 0;
    }
    proof {
        lemma_pow10_38();
        lemma_pow10_positive(d as nat);
    }
    if d > 38 {
        proof {
            lemma_pow10_at_least(d as nat, 39);
            let p = pow10(d as nat);
            if rhs > 0 {
                assert(rhs * p >= p) by (nonlinear_arith) requires rhs >= 1, p >= 1;
            } else {
                assert(rhs * p <= -p) by (nonlinear_arith) requires rhs <= -1, p >= 1;
            }
        }
        return rhs > 0;
    }
    let p = pow10_wide(d as u32);
    match rhs.checked_mul(p) {
        Some(x) => lhs <= x,
        None => {
            proof {
                if rhs > 0 {
                    assert(rhs * p > 0) by (nonlinear_arith) requires rhs >= 1, p >= 1;
                } else {
                    assert(rhs * p < 0) by (nonlinear_arith) requires rhs <= -1, p >= 1;
                }
            }
            rhs > 0
        },
    }
}

/// `m1 × 10^e1 <= m2 × 10^e2`, exactly, for any `i128` mantissas.
pub fn exact_le(m1: i128, e1: i64, m2: i128, e2: i64) -> (r: bool)
    requires
        -0x1_0000_0000_0000 <= e1 <= 0x1_0000_0000_0000,
        -0x1_0000_0000_0000 <= e2 <= 0x1_0000_0000_0000,
    ensures
        r == scaled_le(m1 as int, e1 as int, m2 as int, e2 as int),
{
    if e1 <= e2 {
        wide_le(m1, m2, e2 - e1)
    } else {
        // m1 × 10^d <= m2  ⇔  -m2 <= -m1 × 10^d
        let d = e1 - e2;
        if m1 == 0 {
            return 0 <= m2;
        }
        proof {
            lemma_pow10_38();
            lemma_pow10_positive(d as nat);
        }
        if d > 38 {
            proof {
                lemma_pow10_at_least(d as nat, 39);
                let p = pow10(d as nat);
                if m1 > 0 {
                    assert(m1 * p >= p) by (nonlinear_arith) requires m1 >= 1, p >= 1;
                } else {
                    assert(m1 * p <= -p) by (nonlinear_arith) requires m1 <= -1, p >= 1;
                }
            }
            return m1 < 0;
        }
        let p = pow10_wide(d as u32);
        match m1.checked_mul(p) {
            Some(x) => x <= m2,
            None => {
                proof {
                    if m1 > 0 {
                        assert(m1 * p > 0) by (nonlinear_arith) requires m1 >= 1, p >= 1;
                    } else {
                        assert(m1 * p < 0) by (nonlinear_arith) requires m1 <= -1, p >= 1;
                    }
                }
                m1 < 0
            },
        }
    }
}

} // verus!

//! Q30 fixed-point arithmetic primitives shared by the whole signal path.
//!
//! Amplitudes, phases and envelope levels are `i64` values scaled by
//! `Q_ONE` (2^30), so `Q_ONE` stands for 1.0 and `-Q_ONE` for -1.0.
//! All products and quotients truncate toward zero.

use vstd::prelude::*;

verus! {

/// One (1.0) in the Q30 fixed-point format.
pub const Q_ONE: i64 = 0x4000_0000;

/// Largest magnitude accepted by `mul_q`; wide enough for every value the
/// synthesis path produces (waveforms stay within a few `Q_ONE`, filter
/// states within `2^42`).
pub const Q_MUL_MAX: i64 = 0x100_0000_0000;

/// Magnitude of an integer.
pub open spec fn abs_spec(a: int) -> int {
    if a >= 0 {
        a
    } else {
        -a
    }
}

/// Truncated-toward-zero Q30 product: (a * b) / Q_ONE, rounding toward zero.
pub open spec fn mul_q_spec(a: int, b: int) -> int {
    if a * b >= 0 {
        (a * b) / (Q_ONE as int)
    } else {
        -((-(a * b)) / (Q_ONE as int))
    }
}

/// Q30 ratio s / n, with the empty (n == 0) case defined as a complete
/// phase, i.e. exactly 1.0.
pub open spec fn ratio_q_spec(s: int, n: int) -> int {
    if n == 0 {
        Q_ONE as int
    } else {
        (s * (Q_ONE as int)) / n
    }
}

/// Clamp into the unit amplitude range [0, 1].
pub open spec fn clamp_q_spec(x: int) -> int {
    if x < 0 {
        0
    } else if x > Q_ONE as int {
        Q_ONE as int
    } else {
        x
    }
}

/// Truncated (sign-preserving) remainder by Q_ONE: the fixed-point analogue
/// of the `% 1.0` phase wrap.
pub open spec fn wrap_q_spec(p: int) -> int {
    if p >= 0 {
        p % (Q_ONE as int)
    } else {
        -((-p) % (Q_ONE as int))
    }
}

/// Truncated (sign-preserving) remainder by an arbitrary positive base.
pub open spec fn wrap_mod_spec(p: int, m: int) -> int {
    if p >= 0 {
        p % m
    } else {
        -((-p) % m)
    }
}

/// x / d scaled into Q30 (x * Q_ONE / d), truncating toward zero: how many
/// d-widths x spans, as a fixed-point fraction.
pub open spec fn scale_div_spec(x: int, d: int) -> int {
    if x >= 0 {
        (x * (Q_ONE as int)) / d
    } else {
        -(((-x) * (Q_ONE as int)) / d)
    }
}

/// i64 addition saturating at the representation bounds.
pub open spec fn sat_add_spec(a: int, b: int) -> int {
    if a + b > i64::MAX as int {
        i64::MAX as int
    } else if a + b < i64::MIN as int {
        i64::MIN as int
    } else {
        a + b
    }
}

/// A Q30 product with a unit-range factor keeps the other factor's bound.
pub proof fn lemma_mul_q_bound(a: int, b: int, m: int)
    requires
        abs_spec(a) <= m,
        abs_spec(b) <= Q_ONE as int,
        0 <= m,
    ensures
        abs_spec(mul_q_spec(a, b)) <= m,
{
    let q = Q_ONE as int;
    assert(abs_spec(a * b) == abs_spec(a) * abs_spec(b)) by (nonlinear_arith);
    assert(abs_spec(a) * abs_spec(b) <= m * q) by (nonlinear_arith)
        requires
            0 <= abs_spec(a) <= m,
            0 <= abs_spec(b) <= q,
    ;
    vstd::arithmetic::div_mod::lemma_div_is_ordered(abs_spec(a * b), m * q, q);
    vstd::arithmetic::div_mod::lemma_div_multiples_vanish(m, q);
    assert(m * q == q * m) by (nonlinear_arith);
    if a * b >= 0 {
        vstd::arithmetic::div_mod::lemma_div_pos_is_pos(a * b, q);
        assert(abs_spec(mul_q_spec(a, b)) == abs_spec(a * b) / q);
    } else {
        vstd::arithmetic::div_mod::lemma_div_pos_is_pos(-(a * b), q);
        assert(abs_spec(mul_q_spec(a, b)) == abs_spec(a * b) / q);
    }
}

/// A Q30 product of two nonnegative values is nonnegative.
pub proof fn lemma_mul_q_nonneg(a: int, b: int)
    requires
        0 <= a,
        0 <= b,
    ensures
        0 <= mul_q_spec(a, b),
{
    assert(0 <= a * b) by (nonlinear_arith)
        requires
            0 <= a,
            0 <= b,
    ;
    vstd::arithmetic::div_mod::lemma_div_pos_is_pos(a * b, Q_ONE as int);
}

/// Q30 product of two fixed-point values, truncating toward zero.
pub fn mul_q(a: i64, b: i64) -> (r: i64)
    requires
        -Q_MUL_MAX <= a <= Q_MUL_MAX,
        -Q_MUL_MAX <= b <= Q_MUL_MAX,
    ensures
        r == mul_q_spec(a as int, b as int),
        abs_spec(r as int) <= (abs_spec(a as int) * abs_spec(b as int)) / (Q_ONE as int),
{
    let neg: bool = (a < 0) != (b < 0);
    let ua: u64 = if a >= 0 {
        a as u64
    } else {
        (-a) as u64
    };
    let ub: u64 = if b >= 0 {
        b as u64
    } else {
        (-b) as u64
    };
    proof {
        assert(ua as int * ub as int <= Q_MUL_MAX as int * Q_MUL_MAX as int) by (nonlinear_arith)
            requires
                0 <= ua as int <= Q_MUL_MAX as int,
                0 <= ub as int <= Q_MUL_MAX as int,
        ;
    }
    let p: u128 = (ua as u128) * (ub as u128);
    let m: u128 = p / (Q_ONE as u128);
    proof {
        assert(ua == abs_spec(a as int));
        assert(ub == abs_spec(b as int));
        assert(ua as int * ub as int == abs_spec(a as int * b as int)) by (nonlinear_arith)
            requires
                ua == abs_spec(a as int),
                ub == abs_spec(b as int),
        ;
        assert(ua as int * ub as int <= Q_MUL_MAX as int * Q_MUL_MAX as int) by (nonlinear_arith)
            requires
                0 <= ua as int <= Q_MUL_MAX as int,
                0 <= ub as int <= Q_MUL_MAX as int,
        ;
        assert(p == ua as int * ub as int);
        assert(m == abs_spec(a as int * b as int) / (Q_ONE as int));
        assert(m <= p);
        assert((a < 0) != (b < 0) ==> a as int * b as int <= 0) by (nonlinear_arith);
        assert(!((a < 0) != (b < 0)) ==> a as int * b as int >= 0) by (nonlinear_arith);
    }
    let r: i64 = if neg {
        -(m as i64)
    } else {
        m as i64
    };
    r
}

/// Q30 ratio of two sample counts: s / n scaled by Q_ONE, truncating; a zero
/// duration counts as an already complete phase (exactly 1.0).
pub fn ratio_q(s: u64, n: u64) -> (r: i64)
    requires
        s <= 0x1_0000_0000,
        n <= 0x1_0000_0000,
    ensures
        r == ratio_q_spec(s as int, n as int),
        0 <= r,
{
    if n == 0 {
        Q_ONE
    } else {
        proof {
            assert(s as int * Q_ONE as int <= 0x1_0000_0000int * Q_ONE as int) by (nonlinear_arith)
                requires
                    0 <= s as int <= 0x1_0000_0000int,
            ;
        }
        let scaled: u64 = s * (Q_ONE as u64);
        let q: u64 = scaled / n;
        proof {
            assert(q <= scaled);
        }
        q as i64
    }
}

/// Clamp a Q30 value into the unit amplitude range [0, Q_ONE].
pub fn clamp_q(x: i64) -> (r: i64)
    ensures
        r == clamp_q_spec(x as int),
        0 <= r <= Q_ONE,
{
    if x < 0 {
        0
    } else if x > Q_ONE {
        Q_ONE
    } else {
        x
    }
}

/// Wrap a Q30 phase into (-1, 1) with a sign-preserving remainder, the
/// fixed-point analogue of a truncating `% 1.0`.
pub fn wrap_q(p: i64) -> (r: i64)
    requires
        -0x4000_0000_0000_0000 < p < 0x4000_0000_0000_0000,
    ensures
        r == wrap_q_spec(p as int),
        -Q_ONE < r < Q_ONE,
{
    if p >= 0 {
        let m: u64 = (p as u64) % (Q_ONE as u64);
        m as i64
    } else {
        let m: u64 = ((-p) as u64) % (Q_ONE as u64);
        -(m as i64)
    }
}

/// Wrap a value into (-m, m) with the sign-preserving remainder.
pub fn wrap_mod(p: i64, m: i64) -> (r: i64)
    requires
        0 < m,
        -0x4000_0000_0000_0000 < p < 0x4000_0000_0000_0000,
    ensures
        r == wrap_mod_spec(p as int, m as int),
        -m < r < m,
{
    if p >= 0 {
        let q: u64 = (p as u64) % (m as u64);
        q as i64
    } else {
        let q: u64 = ((-p) as u64) % (m as u64);
        -(q as i64)
    }
}

/// How many d-widths x spans, as a Q30 fraction, truncating toward zero.
pub fn scale_div(x: i64, d: i64) -> (r: i64)
    requires
        -4 * Q_ONE <= x <= 4 * Q_ONE,
        0 < d <= Q_ONE,
    ensures
        r == scale_div_spec(x as int, d as int),
{
    let mag: u64 = if x >= 0 {
        x as u64
    } else {
        (-x) as u64
    };
    proof {
        assert(mag as int * Q_ONE as int <= 4 * (Q_ONE as int) * (Q_ONE as int))
            by (nonlinear_arith)
            requires
                0 <= mag as int <= 4 * (Q_ONE as int),
        ;
    }
    let scaled: u64 = mag * (Q_ONE as u64);
    let q: u64 = scaled / (d as u64);
    proof {
        assert(q <= scaled);
    }
    if x >= 0 {
        q as i64
    } else {
        -(q as i64)
    }
}

/// Saturating i64 addition; the output accumulator uses it so that no voice
/// mix can overflow.
pub fn sat_add(a: i64, b: i64) -> (r: i64)
    ensures
        r == sat_add_spec(a as int, b as int),
{
    if b >= 0 {
        if a > i64::MAX - b {
            i64::MAX
        } else {
            a + b
        }
    } else {
        if a < i64::MIN - b {
            i64::MIN
        } else {
            a + b
        }
    }
}

} // verus!

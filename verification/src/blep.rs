//! Band-limiting math: the polynomial band-limited step correction
//! (polyBLEP) and the definite integral of a band-limited square wave, used
//! to synthesize a band-limited triangle.
//!
//! Arguments and results are Q30 fixed-point values (see `fixed`).

use vstd::prelude::*;
use crate::fixed::{
    abs_spec, lemma_mul_q_bound, lemma_mul_q_nonneg, mul_q, mul_q_spec, Q_ONE,
};

verus! {

/// 2/3 in Q30, truncated: the definite integral of the rising-edge
/// polynomial over a whole transition.
pub const Q_TWO_THIRDS: i64 = 0x2AAA_AAAA;

/// Half a cycle in Q30.
pub const Q_HALF: i64 = 0x2000_0000;

/// The polyBLEP correction: 0 outside (-1, 1); (t + 1)^2 on (-1, 0];
/// -(t - 1)^2 on (0, 1).
pub open spec fn polyblep_spec(t: int) -> int {
    if t <= -(Q_ONE as int) || t >= Q_ONE as int {
        0
    } else if t <= 0 {
        mul_q_spec(t + Q_ONE as int, t + Q_ONE as int)
    } else {
        -mul_q_spec(t - Q_ONE as int, t - Q_ONE as int)
    }
}

/// The definite integral of the rising-edge polynomial from 0 to p (p in
/// units of one transition width): -p^3/3 + p^2.
pub open spec fn integrate_f1_spec(p: int) -> int {
    mul_q_spec(p, p) - mul_q_spec(mul_q_spec(p, p), p) / 3
}

/// How far p stands into a transition of width ts, as a Q30 fraction of ts.
pub open spec fn ratio_in_transition(p: int, ts: int) -> int {
    (p * (Q_ONE as int)) / ts
}

/// The definite integral of a band-limited square wave from phase 0 to
/// phase p, for a transition of width ts. Piecewise over the phase regions:
/// rising edge, flat top, falling edge, and (recursively, by symmetry) the
/// second half of the cycle.
pub open spec fn integrate_square_wave_spec(p: int, ts: int) -> int
    decreases p,
{
    if p <= ts {
        mul_q_spec(integrate_f1_spec(ratio_in_transition(p, ts)), ts)
    } else if p <= Q_HALF as int - ts {
        mul_q_spec(Q_TWO_THIRDS as int, ts) + (p - ts)
    } else if p <= Q_HALF as int {
        mul_q_spec(Q_TWO_THIRDS as int, ts) + (Q_HALF as int - 2 * ts) + mul_q_spec(
            Q_TWO_THIRDS as int - integrate_f1_spec(
                Q_ONE as int - ratio_in_transition(p + ts - Q_HALF as int, ts),
            ),
            ts,
        )
    } else if p > Q_HALF as int {
        mul_q_spec(Q_TWO_THIRDS as int, ts) + (Q_HALF as int - 2 * ts) + mul_q_spec(
            Q_TWO_THIRDS as int,
            ts,
        ) - integrate_square_wave_spec(p - Q_HALF as int, ts)
    } else {
        0
    }
}

/// Fraction of a transition width covered by p, in Q30; truncating.
fn transition_ratio(p: i64, ts: i64) -> (r: i64)
    requires
        0 <= p <= ts,
        0 < ts <= Q_ONE,
    ensures
        r == ratio_in_transition(p as int, ts as int),
        0 <= r <= Q_ONE,
{
    proof {
        assert(p as int * Q_ONE as int <= ts as int * Q_ONE as int) by (nonlinear_arith)
            requires
                0 <= p as int <= ts as int,
        ;
        assert(ts as int * Q_ONE as int <= Q_ONE as int * Q_ONE as int) by (nonlinear_arith)
            requires
                0 < ts as int <= Q_ONE as int,
        ;
    }
    let scaled: u64 = (p as u64) * (Q_ONE as u64);
    let q: u64 = scaled / (ts as u64);
    proof {
        vstd::arithmetic::div_mod::lemma_div_is_ordered(
            scaled as int,
            ts as int * Q_ONE as int,
            ts as int,
        );
        vstd::arithmetic::div_mod::lemma_div_multiples_vanish(Q_ONE as int, ts as int);
    }
    q as i64
}

/// The polyBLEP correction in Q30. Exactly 0 outside the transition
/// interval; the two quadratic branches inside it.
pub fn polyblep(t: i64) -> (r: i64)
    ensures
        r == polyblep_spec(t as int),
        -Q_ONE <= r <= Q_ONE,
{
    if t <= -Q_ONE || t >= Q_ONE {
        0
    } else if t <= 0 {
        let s: i64 = t + Q_ONE;
        let r: i64 = mul_q(s, s);
        proof {
            lemma_mul_q_bound(s as int, s as int, Q_ONE as int);
            lemma_mul_q_nonneg(s as int, s as int);
        }
        r
    } else {
        let s: i64 = t - Q_ONE;
        let r: i64 = mul_q(s, s);
        proof {
            lemma_mul_q_bound(s as int, s as int, Q_ONE as int);
            lemma_mul_q_nonneg(-(s as int), -(s as int));
            assert(s as int * s as int == (-(s as int)) * (-(s as int))) by (nonlinear_arith);
        }
        -r
    }
}

/// The integral of the rising-edge polynomial: -p^3/3 + p^2 on [0, 1].
pub fn integrate_f1(p: i64) -> (r: i64)
    requires
        0 <= p <= Q_ONE,
    ensures
        r == integrate_f1_spec(p as int),
        0 <= r <= Q_ONE,
{
    let p2: i64 = mul_q(p, p);
    proof {
        lemma_mul_q_bound(p as int, p as int, Q_ONE as int);
        lemma_mul_q_nonneg(p as int, p as int);
    }
    let p3: i64 = mul_q(p2, p);
    proof {
        lemma_mul_q_bound(p2 as int, p as int, p2 as int);
        lemma_mul_q_nonneg(p2 as int, p as int);
        assert(p3 / 3 <= p2) by {
            vstd::arithmetic::div_mod::lemma_div_is_ordered(p3 as int, 3 * (p2 as int), 3);
            vstd::arithmetic::div_mod::lemma_div_multiples_vanish(p2 as int, 3);
        }
        vstd::arithmetic::div_mod::lemma_div_pos_is_pos(p3 as int, 3);
    }
    p2 - p3 / 3
}

/// The definite integral of a band-limited square wave from 0 to phase p;
/// recursive in the final (wrapped) region, with the recursion bounded by
/// the halving of the phase.
pub fn integrate_square_wave(p: i64, ts: i64) -> (r: i64)
    requires
        0 <= p <= Q_ONE,
        0 < ts <= Q_ONE,
    ensures
        r == integrate_square_wave_spec(p as int, ts as int),
        p <= Q_HALF ==> abs_spec(r as int) <= 4 * (Q_ONE as int),
        abs_spec(r as int) <= 8 * (Q_ONE as int),
    decreases p,
{
    if p <= ts {
        let t: i64 = transition_ratio(p, ts);
        let f: i64 = integrate_f1(t);
        let r: i64 = mul_q(f, ts);
        proof {
            lemma_mul_q_bound(f as int, ts as int, Q_ONE as int);
        }
        r
    } else {
        let edge: i64 = mul_q(Q_TWO_THIRDS, ts);
        proof {
            lemma_mul_q_bound(Q_TWO_THIRDS as int, ts as int, Q_TWO_THIRDS as int);
            lemma_mul_q_nonneg(Q_TWO_THIRDS as int, ts as int);
        }
        if p <= Q_HALF - ts {
            edge + (p - ts)
        } else {
            let flat: i64 = Q_HALF - 2 * ts;
            if p <= Q_HALF {
                let inner: i64 = p + ts - Q_HALF;
                let t: i64 = transition_ratio(inner, ts);
                let f: i64 = integrate_f1(Q_ONE - t);
                let tail: i64 = mul_q(Q_TWO_THIRDS - f, ts);
                proof {
                    lemma_mul_q_bound(
                        Q_TWO_THIRDS as int - f as int,
                        ts as int,
                        Q_ONE as int,
                    );
                }
                edge + flat + tail
            } else {
                let rest: i64 = integrate_square_wave(p - Q_HALF, ts);
                edge + flat + edge - rest
            }
        }
    }
}

/// Exact boundary values of the polyBLEP correction: it vanishes at and
/// beyond both transition edges, and its left branch reaches exactly 1 at
/// the discontinuity itself.
pub proof fn lemma_polyblep_boundary()
    ensures
        polyblep_spec(0) == Q_ONE as int,
        polyblep_spec(Q_ONE as int) == 0,
        polyblep_spec(-(Q_ONE as int)) == 0,
        forall|t: int| abs_spec(t) >= Q_ONE as int ==> polyblep_spec(t) == 0,
{
    assert(polyblep_spec(0) == mul_q_spec(Q_ONE as int, Q_ONE as int));
    vstd::arithmetic::div_mod::lemma_div_multiples_vanish(Q_ONE as int, Q_ONE as int);
    assert(Q_ONE as int * Q_ONE as int >= 0) by (nonlinear_arith);
}

} // verus!

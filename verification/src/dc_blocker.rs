//! A one-pole recursive DC-blocking filter: y(n) = x(n) - x(n-1) + R*y(n-1)
//! with R = 995/1000, on Q30 fixed-point samples.
//!
//! The filter removes the bias that the intentionally imperfect
//! band-limiting paths and the phase/evil modulation introduce.

use vstd::prelude::*;
use crate::fixed::abs_spec;

verus! {

/// Largest input sample magnitude the filter accepts (a few times full
/// scale; the synthesis paths stay well inside it).
pub const DC_IN_MAX: i64 = 0x10_0000_0000;

/// Bound on the filter's stored output; chosen so that one step from any
/// well-formed state stays inside it.
pub const DC_OUT_MAX: i64 = 0x2000_0000_0000;

/// The leak factor numerator: R = 995/1000.
pub const DC_R_NUM: i64 = 995;

/// The leak factor denominator.
pub const DC_R_DEN: i64 = 1000;

/// R * y, truncated toward zero.
pub open spec fn leak_spec(y: int) -> int {
    if y >= 0 {
        (DC_R_NUM as int * y) / (DC_R_DEN as int)
    } else {
        -((DC_R_NUM as int * -y) / (DC_R_DEN as int))
    }
}

/// The recursive DC blocker; `x` holds the previous input, `y` the
/// previous output. Reset clears both to 0.
#[derive(Clone, Copy, PartialEq, Eq, Structural, Debug)]
pub struct DCBlocker {
    pub x: i64,
    pub y: i64,
}

impl DCBlocker {
    /// The stored input within the accepted sample range, the stored
    /// output within the filter's proven bound.
    pub open spec fn wf(self) -> bool {
        &&& -DC_IN_MAX <= self.x <= DC_IN_MAX
        &&& -DC_OUT_MAX <= self.y <= DC_OUT_MAX
    }

    /// The filter state after one sample: the difference equation.
    pub open spec fn step_spec(d: DCBlocker, sample: int) -> DCBlocker {
        DCBlocker { x: sample as i64, y: (sample - d.x + leak_spec(d.y as int)) as i64 }
    }

    /// The filter state after feeding the same sample n times.
    pub open spec fn feed_n_spec(d: DCBlocker, sample: int, n: nat) -> DCBlocker
        decreases n,
    {
        if n == 0 {
            d
        } else {
            DCBlocker::step_spec(DCBlocker::feed_n_spec(d, sample, (n - 1) as nat), sample)
        }
    }

    /// Resets (or creates) the filter to a non-recursed state.
    pub fn reset() -> (r: DCBlocker)
        ensures
            r == (DCBlocker { x: 0, y: 0 }),
            r.wf(),
    {
        DCBlocker { x: 0, y: 0 }
    }

    /// One sample in, one sample out. On an unchanged input the stored
    /// output shrinks strictly toward zero: the filter blocks DC.
    pub fn process(&mut self, sample: i64) -> (r: i64)
        requires
            old(self).wf(),
            -DC_IN_MAX <= sample <= DC_IN_MAX,
        ensures
            final(self).wf(),
            *final(self) == DCBlocker::step_spec(*old(self), sample as int),
            r == final(self).y,
            old(self).x == sample ==> abs_spec(final(self).y as int) <= (if old(self).y == 0 {
                0int
            } else {
                abs_spec(old(self).y as int) - 1
            }),
    {
        let ya_exec: u64 = if self.y >= 0 {
            self.y as u64
        } else {
            (-self.y) as u64
        };
        let leak_mag: u64 = ((DC_R_NUM as u64) * ya_exec) / (DC_R_DEN as u64);
        proof {
            vstd::arithmetic::div_mod::lemma_div_is_ordered(
                DC_R_NUM as int * ya_exec as int,
                DC_R_NUM as int * DC_OUT_MAX as int,
                DC_R_DEN as int,
            );
        }
        let leak: i64 = if self.y >= 0 {
            leak_mag as i64
        } else {
            -(leak_mag as i64)
        };
        proof {
            let ya = abs_spec(self.y as int);
            assert(DC_R_NUM as int * ya <= DC_R_NUM as int * DC_OUT_MAX as int) by (nonlinear_arith)
                requires
                    0 <= ya <= DC_OUT_MAX as int,
            ;
            if ya > 0 {
                assert(DC_R_NUM as int * ya < DC_R_DEN as int * ya) by (nonlinear_arith)
                    requires
                        0 < ya,
                ;
                vstd::arithmetic::div_mod::lemma_multiply_divide_lt(
                    DC_R_NUM as int * ya,
                    DC_R_DEN as int,
                    ya,
                );
            }
            vstd::arithmetic::div_mod::lemma_div_pos_is_pos(DC_R_NUM as int * ya, DC_R_DEN as int);
            assert(abs_spec(leak as int) == (DC_R_NUM as int * ya) / (DC_R_DEN as int));
            assert(abs_spec(leak as int) <= (if ya == 0 { 0int } else { ya - 1 }));
        }
        let out: i64 = sample - self.x + leak;
        self.x = sample;
        self.y = out;
        out
    }
}

/// Fed any constant input, the DC blocker's output magnitude falls by at
/// least one quantization step per sample once the input has settled: it
/// converges to zero in at most as many samples as the output's starting
/// magnitude.
pub proof fn lemma_dc_removal(d: DCBlocker, sample: int, n: nat)
    requires
        d.wf(),
        d.x == sample,
    ensures
        DCBlocker::feed_n_spec(d, sample, n).wf(),
        abs_spec(DCBlocker::feed_n_spec(d, sample, n).y as int) <= (if abs_spec(d.y as int)
            >= n {
            abs_spec(d.y as int) - n
        } else {
            0int
        }),
        DCBlocker::feed_n_spec(d, sample, n).x == sample,
    decreases n,
{
    if n > 0 {
        lemma_dc_removal(d, sample, (n - 1) as nat);
        let prev = DCBlocker::feed_n_spec(d, sample, (n - 1) as nat);
        let ya = abs_spec(prev.y as int);
        assert(DC_R_NUM as int * ya >= 0) by (nonlinear_arith)
            requires
                0 <= ya,
        ;
        vstd::arithmetic::div_mod::lemma_div_pos_is_pos(DC_R_NUM as int * ya, DC_R_DEN as int);
        if ya > 0 {
            assert(DC_R_NUM as int * ya < DC_R_DEN as int * ya) by (nonlinear_arith)
                requires
                    0 < ya,
            ;
            vstd::arithmetic::div_mod::lemma_multiply_divide_lt(
                DC_R_NUM as int * ya,
                DC_R_DEN as int,
                ya,
            );
        }
    }
}

} // verus!

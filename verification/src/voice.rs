//! The per-note synthesis unit: one envelope, one phase accumulator and one
//! DC blocker per oscillator slot, the waveform generator resolved at
//! note-on, the note's velocity and the modulation mode snapshot.
//!
//! Waveform values are Q30 fixed point. The sine is a piecewise-quadratic
//! half-wave (exact in integer arithmetic, zero crossings and peaks at the
//! same phases as the transcendental one); every other generator evaluates
//! its waveform formula term by term, including the deliberately
//! miscomputed transition points of the sploinky and skloinky waves.

use vstd::prelude::*;
use rand::rngs::SmallRng;
use crate::adsr::{ADSR, AdsrState};
use crate::blep::{integrate_square_wave, integrate_square_wave_spec, polyblep, polyblep_spec, Q_HALF};
use crate::dc_blocker::{DCBlocker, DC_OUT_MAX};
use crate::fixed::{
    abs_spec, mul_q, mul_q_spec, lemma_mul_q_bound, lemma_mul_q_nonneg, sat_add, sat_add_spec,
    scale_div, scale_div_spec, wrap_mod, wrap_mod_spec, wrap_q, wrap_q_spec, Q_ONE,
};
use crate::params::{ParamStore, OSC_NR, PITCH_MAX};
use crate::rng::{draw_noise, draw_waveform_index};
use crate::tuning::{NoteData, TuningTable, KEYS_NR};
use crate::waveform::{Modulation, Waveform};

verus! {

/// A quarter cycle in Q30.
pub const Q_QUARTER: i64 = 0x1000_0000;

/// Three quarters of a cycle in Q30.
pub const Q_THREE_QUARTERS: i64 = 0x3000_0000;

/// Largest phase magnitude a voice can hold (a stored phase is a wrapped
/// cycle fraction, or one raw increment in the evil mode).
pub const PHASE_LIMIT: i64 = 0x10_0000_0000;

/// Largest waveform value a generator can hand out.
pub const WAVE_MAX: i64 = 0x10_0000_0000;

/// One oscillator's concrete generator, resolved at note-on from the
/// waveform choice and the quality flag.
#[derive(Clone, Copy, PartialEq, Eq, Structural, Debug)]
pub enum OscGen {
    Sine,
    Noise,
    TriangleHq,
    Triangle,
    SquareHq,
    Square,
    SawHq,
    Saw,
    Sploinky,
    Skloinky,
}

/// The generator for a concrete (non-random) waveform choice under a
/// quality flag.
pub open spec fn gen_of_spec(w: Waveform, hq: bool) -> OscGen {
    match w {
        Waveform::Sine => OscGen::Sine,
        Waveform::Noise => OscGen::Noise,
        Waveform::Triangle => if hq {
            OscGen::TriangleHq
        } else {
            OscGen::Triangle
        },
        Waveform::Square => if hq {
            OscGen::SquareHq
        } else {
            OscGen::Square
        },
        Waveform::Saw => if hq {
            OscGen::SawHq
        } else {
            OscGen::Saw
        },
        Waveform::Sploinky => OscGen::Sploinky,
        Waveform::Skloinky => OscGen::Skloinky,
        Waveform::Random => OscGen::Sine,
    }
}

/// Resolves a concrete waveform choice and quality flag into a generator.
pub fn gen_of(w: Waveform, hq: bool) -> (r: OscGen)
    requires
        !(w is Random),
    ensures
        r == gen_of_spec(w, hq),
{
    match w {
        Waveform::Sine => OscGen::Sine,
        Waveform::Noise => OscGen::Noise,
        Waveform::Triangle => if hq {
            OscGen::TriangleHq
        } else {
            OscGen::Triangle
        },
        Waveform::Square => if hq {
            OscGen::SquareHq
        } else {
            OscGen::Square
        },
        Waveform::Saw => if hq {
            OscGen::SawHq
        } else {
            OscGen::Saw
        },
        Waveform::Sploinky => OscGen::Sploinky,
        Waveform::Skloinky => OscGen::Skloinky,
        Waveform::Random => OscGen::Sine,
    }
}

/// One half of the quadratic sine: 4u(1-u) of the half-cycle fraction u,
/// peaking at exactly 1.
pub open spec fn sine_half_spec(p: int) -> int {
    4 * mul_q_spec(2 * p, Q_ONE as int - 2 * p)
}

/// The quadratic sine over a wrapped phase in (-1, 1): odd around 0, one
/// positive arch on [0, 1/2], one negative arch on [1/2, 1).
pub open spec fn sine_wave_spec(pw: int) -> int {
    if pw >= 0 {
        if pw <= Q_HALF as int {
            sine_half_spec(pw)
        } else {
            -sine_half_spec(pw - Q_HALF as int)
        }
    } else {
        if -pw <= Q_HALF as int {
            -sine_half_spec(-pw)
        } else {
            sine_half_spec(-pw - Q_HALF as int)
        }
    }
}

/// The positive arch of the quadratic sine, for a phase within [0, 1/2].
fn sine_half(p: i64) -> (r: i64)
    requires
        0 <= p <= Q_HALF,
    ensures
        r == sine_half_spec(p as int),
        0 <= r <= Q_ONE,
{
    let a: i64 = 2 * p;
    let b: i64 = Q_ONE - 2 * p;
    let m: i64 = mul_q(a, b);
    proof {
        lemma_mul_q_nonneg(a as int, b as int);
        assert(4 * (a as int * b as int) <= Q_ONE as int * Q_ONE as int) by (nonlinear_arith)
            requires
                0 <= a as int,
                0 <= b as int,
                a as int + b as int == Q_ONE as int,
        ;
        vstd::arithmetic::div_mod::lemma_div_is_ordered(
            a as int * b as int,
            (Q_ONE as int * Q_ONE as int) / 4,
            Q_ONE as int,
        );
        assert((Q_ONE as int * Q_ONE as int) / 4 == 0x400_0000_0000_0000int);
        assert(a as int * b as int <= 0x400_0000_0000_0000int);
        assert(m as int <= 0x1000_0000int) by {
            vstd::arithmetic::div_mod::lemma_div_is_ordered(
                a as int * b as int,
                0x400_0000_0000_0000int,
                Q_ONE as int,
            );
        }
    }
    4 * m
}

/// The quadratic sine of a wrapped phase.
fn sine_wave(pw: i64) -> (r: i64)
    requires
        -Q_ONE < pw < Q_ONE,
    ensures
        r == sine_wave_spec(pw as int),
        -Q_ONE <= r <= Q_ONE,
{
    if pw >= 0 {
        if pw <= Q_HALF {
            sine_half(pw)
        } else {
            -sine_half(pw - Q_HALF)
        }
    } else {
        let n: i64 = -pw;
        if n <= Q_HALF {
            -sine_half(n)
        } else {
            sine_half(n - Q_HALF)
        }
    }
}

/// Clamp a generator value into the representable waveform range.
pub open spec fn clamp_wave_spec(x: int) -> int {
    if x > WAVE_MAX as int {
        WAVE_MAX as int
    } else if x < -(WAVE_MAX as int) {
        -(WAVE_MAX as int)
    } else {
        x
    }
}

/// The value a deterministic generator produces at a phase, and the filter
/// state it leaves behind (only the sploinky and skloinky paths run their
/// filter). The `Noise` case is not described here: its draw depends on the
/// generator's seed and position, so callers learn only its range. Opaque:
/// callers reason through `eval_gen`'s contract, not through this body.
#[verifier::opaque]
pub open spec fn eval_gen_spec(g: OscGen, phase: int, ts: int, dc: DCBlocker) -> (int, DCBlocker) {
    let pw = wrap_q_spec(phase);
    match g {
        OscGen::Sine => (sine_wave_spec(pw), dc),
        OscGen::Noise => (0, dc),
        OscGen::TriangleHq => {
            let pr = wrap_q_spec(phase + Q_QUARTER as int);
            let pe = if pr < 0 {
                pr + Q_ONE as int
            } else {
                pr
            };
            (4 * integrate_square_wave_spec(pe, ts) - Q_ONE as int, dc)
        },
        OscGen::Triangle => (
            if pw < Q_QUARTER as int {
                4 * pw
            } else if pw < Q_THREE_QUARTERS as int {
                Q_ONE as int - 4 * (pw - Q_QUARTER as int)
            } else {
                -(Q_ONE as int) + 4 * (pw - Q_THREE_QUARTERS as int)
            },
            dc,
        ),
        OscGen::SquareHq => (
            (if pw < Q_HALF as int {
                Q_ONE as int
            } else {
                -(Q_ONE as int)
            }) + polyblep_spec(
                scale_div_spec(wrap_q_spec(phase + Q_HALF as int) - Q_HALF as int, ts),
            ) - polyblep_spec(scale_div_spec(pw - Q_HALF as int, ts)),
            dc,
        ),
        OscGen::Square => (
            if pw < Q_HALF as int {
                Q_ONE as int
            } else {
                -(Q_ONE as int)
            },
            dc,
        ),
        OscGen::SawHq => (
            2 * pw - Q_ONE as int - polyblep_spec(
                scale_div_spec(wrap_q_spec(phase + Q_HALF as int) - Q_HALF as int, ts),
            ),
            dc,
        ),
        OscGen::Saw => (2 * pw - Q_ONE as int, dc),
        OscGen::Sploinky => {
            let inner = (if pw < Q_HALF as int {
                Q_ONE as int
            } else {
                -(Q_ONE as int)
            }) + polyblep_spec(wrap_mod_spec(phase + Q_HALF as int, Q_HALF as int) - ts)
                - polyblep_spec(scale_div_spec(pw - Q_HALF as int, ts));
            let fed = DCBlocker::step_spec(dc, half_trunc_spec(inner));
            (clamp_wave_spec(fed.y as int), fed)
        },
        OscGen::Skloinky => {
            let inner = 2 * pw - Q_ONE as int - polyblep_spec(
                wrap_mod_spec(phase + Q_HALF as int, Q_HALF as int) - ts,
            );
            let fed = DCBlocker::step_spec(dc, half_trunc_spec(inner));
            (clamp_wave_spec(fed.y as int), fed)
        },
    }
}

/// A phase after advancing by a fixed increment and wrapping, n times.
pub open spec fn advance_n_spec(p: int, inc: int, n: nat) -> int
    decreases n,
{
    if n == 0 {
        p
    } else {
        wrap_q_spec(advance_n_spec(p, inc, (n - 1) as nat) + inc)
    }
}

/// Whether an oscillator index stands in the active list.
pub open spec fn in_oscs(oscs: Seq<usize>, o: int) -> bool {
    exists|j: int| 0 <= j < oscs.len() && oscs[j] == o
}

/// One independently mixed oscillator's per-sample state: its phase, its
/// filter and its envelope.
pub struct OscState {
    pub phase: int,
    pub dc: DCBlocker,
    pub adsr: ADSR,
}

/// One sample of independent mixing: the waveform at the current phase
/// (through the oscillator's own filter on the filtered paths), the
/// envelope advanced exactly once, the phase advanced by the note's
/// increment.
pub open spec fn osc_step_spec(g: OscGen, st: OscState, ts: int, inc: int) -> OscState {
    OscState {
        phase: wrap_q_spec(st.phase + inc),
        dc: eval_gen_spec(g, st.phase, ts, st.dc).1,
        adsr: ADSR::step_spec(st.adsr),
    }
}

/// The oscillator state after n independently mixed samples.
pub open spec fn osc_state_n_spec(g: OscGen, st: OscState, ts: int, inc: int, n: nat) -> OscState
    decreases n,
{
    if n == 0 {
        st
    } else {
        osc_step_spec(g, osc_state_n_spec(g, st, ts, inc, (n - 1) as nat), ts, inc)
    }
}

/// The value sample n adds to the mix: waveform times velocity, level and
/// the envelope of that sample.
pub open spec fn osc_mix_spec(
    g: OscGen,
    st: OscState,
    ts: int,
    inc: int,
    vel: int,
    level: int,
    n: nat,
) -> int {
    let at = osc_state_n_spec(g, st, ts, inc, n);
    mul_q_spec(
        mul_q_spec(mul_q_spec(eval_gen_spec(g, at.phase, ts, at.dc).0, vel), level),
        ADSR::step_amp_spec(at.adsr),
    )
}

/// A three-factor Q30 scaling: waveform value times velocity, level and
/// envelope.
pub open spec fn mul3q_spec(w: int, vel: int, level: int, amp: int) -> int {
    mul_q_spec(mul_q_spec(mul_q_spec(w, vel), level), amp)
}

/// The modulation depth: the modulator's level scaled down over the
/// headroom constant K = 100/48 (a full level modulates at 48%).
pub open spec fn pm_depth_spec(level2: int) -> int {
    (level2 * 48) / 100
}

/// The phase-modulation path's per-sample state.
pub struct PmState {
    pub phase0: int,
    pub phase_mod: int,
    pub phase_dry: int,
    pub dc0: DCBlocker,
    pub dc_mod: DCBlocker,
    pub adsr0: ADSR,
}

/// The phase-modulation path's fixed per-block inputs.
pub struct PmParams {
    pub g0: OscGen,
    pub g2: OscGen,
    pub ts0: int,
    pub inc0: int,
    pub ts2: int,
    pub inc2: int,
    pub vel: int,
    pub level0: int,
    pub depth: int,
}

/// One phase-modulation sample: oscillator 1's envelope advances exactly
/// once; its waveform at the current (modulated) phase, scaled by velocity,
/// level and that envelope value, passes through its DC blocker; the
/// modulated phase advances by the modulator's waveform value scaled by the
/// depth; the modulator's and the dry phase advance by their increments;
/// the dry waveform is evaluated at the advanced dry phase (through the
/// same filter state the wet term left behind, as the shared-slot path
/// does).
pub open spec fn pm_step_spec(p: PmParams, st: PmState) -> PmState {
    let amp = ADSR::step_amp_spec(st.adsr0);
    let e0 = eval_gen_spec(p.g0, st.phase0, p.ts0, st.dc0);
    let dc0b = DCBlocker::step_spec(e0.1, mul3q_spec(e0.0, p.vel, p.level0, amp));
    let e2 = eval_gen_spec(p.g2, st.phase_mod, p.ts2, st.dc_mod);
    let phase_dry2 = wrap_q_spec(st.phase_dry + p.inc0);
    let e_dry = eval_gen_spec(p.g0, phase_dry2, p.ts0, dc0b);
    PmState {
        phase0: wrap_q_spec(st.phase0 + mul_q_spec(e2.0, p.depth)),
        phase_mod: wrap_q_spec(st.phase_mod + p.inc2),
        phase_dry: phase_dry2,
        dc0: e_dry.1,
        dc_mod: e2.1,
        adsr0: ADSR::step_spec(st.adsr0),
    }
}

/// The phase-modulation state after n samples.
pub open spec fn pm_state_n_spec(p: PmParams, st: PmState, n: nat) -> PmState
    decreases n,
{
    if n == 0 {
        st
    } else {
        pm_step_spec(p, pm_state_n_spec(p, st, (n - 1) as nat))
    }
}

/// What sample n of a phase-modulated block holds: the base value plus the
/// DC-blocked wet term plus the dry term, whose level crossfades toward wet
/// as the depth rises.
pub open spec fn pm_out_spec(p: PmParams, st: PmState, base: int, n: nat) -> int {
    let at = pm_state_n_spec(p, st, n);
    let amp = ADSR::step_amp_spec(at.adsr0);
    let e0 = eval_gen_spec(p.g0, at.phase0, p.ts0, at.dc0);
    let dc0b = DCBlocker::step_spec(e0.1, mul3q_spec(e0.0, p.vel, p.level0, amp));
    let phase_dry2 = wrap_q_spec(at.phase_dry + p.inc0);
    let e_dry = eval_gen_spec(p.g0, phase_dry2, p.ts0, dc0b);
    let dry = mul3q_spec(
        e_dry.0,
        p.vel,
        p.level0 - mul_q_spec(p.level0, p.depth),
        amp,
    );
    sat_add_spec(sat_add_spec(base, dc0b.y as int), dry)
}

/// The shape every phase-modulated sample has, whatever the generators
/// drew: the base value plus a filter-bounded wet term plus a unit-bounded
/// dry term.
pub open spec fn pm_sample_shape(pre: int, post: int) -> bool {
    exists|w: int, d: int|
        abs_spec(w) <= DC_OUT_MAX as int && abs_spec(d) <= WAVE_MAX as int && post == #[trigger] sat_add_spec(
            sat_add_spec(pre, w),
            d,
        )
}

/// Exhibits a wet and a dry term for one phase-modulated sample.
pub proof fn lemma_pm_sample_shape(pre: int, post: int, w: int, d: int)
    requires
        abs_spec(w) <= DC_OUT_MAX as int,
        abs_spec(d) <= WAVE_MAX as int,
        post == sat_add_spec(sat_add_spec(pre, w), d),
    ensures
        pm_sample_shape(pre, post),
{
    assert(post == sat_add_spec(sat_add_spec(pre, w), d));
}

/// The shape every evil-modulated sample has: the base value plus one
/// filter-bounded term.
pub open spec fn evil_sample_shape(pre: int, post: int) -> bool {
    exists|w: int| abs_spec(w) <= DC_OUT_MAX as int && post == #[trigger] sat_add_spec(pre, w)
}

/// Exhibits the filtered term for one evil-modulated sample.
pub proof fn lemma_evil_sample_shape(pre: int, post: int, w: int)
    requires
        abs_spec(w) <= DC_OUT_MAX as int,
        post == sat_add_spec(pre, w),
    ensures
        evil_sample_shape(pre, post),
{
    assert(post == sat_add_spec(pre, w));
}

/// The evil path's per-sample state.
pub struct EvilState {
    pub phase0: int,
    pub phase_mod: int,
    pub dc0: DCBlocker,
    pub dc_mod: DCBlocker,
    pub adsr0: ADSR,
    pub adsr2: ADSR,
}

/// The evil path's fixed per-block inputs.
pub struct EvilParams {
    pub g0: OscGen,
    pub g2: OscGen,
    pub ts0: int,
    pub inc0: int,
    pub ts2: int,
    pub vel: int,
    pub level0: int,
    pub level2: int,
}

/// One evil-modulation sample: oscillator 1's waveform, velocity, level and
/// envelope (advanced exactly once) pass through its DC blocker; the
/// modulator's phase is pinned to oscillator 1's increment, never advancing
/// on its own; its envelope-shaped, level-scaled waveform value then drives
/// oscillator 1's phase.
pub open spec fn evil_step_spec(p: EvilParams, st: EvilState) -> EvilState {
    let e0 = eval_gen_spec(p.g0, st.phase0, p.ts0, st.dc0);
    let amp0 = ADSR::step_amp_spec(st.adsr0);
    let dc0b = DCBlocker::step_spec(e0.1, mul3q_spec(e0.0, p.vel, p.level0, amp0));
    let e2 = eval_gen_spec(p.g2, p.inc0, p.ts2, st.dc_mod);
    let amp2 = ADSR::step_amp_spec(st.adsr2);
    let drive = mul3q_spec(e2.0, p.vel, p.level2, amp2);
    EvilState {
        phase0: wrap_q_spec(st.phase0 + drive),
        phase_mod: p.inc0,
        dc0: dc0b,
        dc_mod: e2.1,
        adsr0: ADSR::step_spec(st.adsr0),
        adsr2: ADSR::step_spec(st.adsr2),
    }
}

/// The evil-modulation state after n samples.
pub open spec fn evil_state_n_spec(p: EvilParams, st: EvilState, n: nat) -> EvilState
    decreases n,
{
    if n == 0 {
        st
    } else {
        evil_step_spec(p, evil_state_n_spec(p, st, (n - 1) as nat))
    }
}

/// What sample n of an evil-modulated block holds: the base value plus the
/// DC-blocked term; deliberately no dry signal is mixed.
pub open spec fn evil_out_spec(p: EvilParams, st: EvilState, base: int, n: nat) -> int {
    let at = evil_state_n_spec(p, st, n);
    let e0 = eval_gen_spec(p.g0, at.phase0, p.ts0, at.dc0);
    let amp0 = ADSR::step_amp_spec(at.adsr0);
    let dc0b = DCBlocker::step_spec(e0.1, mul3q_spec(e0.0, p.vel, p.level0, amp0));
    sat_add_spec(base, dc0b.y as int)
}

/// Whether every active oscillator's generator is deterministic (no noise
/// draw), so that the mixed output is a function of the voice's state.
pub open spec fn all_deterministic(k: Key, oscs: Seq<usize>) -> bool {
    forall|j: int| 0 <= j < oscs.len() ==> !((#[trigger] k.gen@[oscs[j] as int]) is Noise)
}

/// What sample n of an independently mixed block holds after the active
/// oscillators (visited in list order) have each added their term onto the
/// base value.
pub open spec fn mix_3sub_spec(
    k: Key,
    oscs: Seq<usize>,
    table: Seq<NoteData>,
    pitch: Seq<u64>,
    levels: Seq<i64>,
    base: int,
    n: nat,
) -> int
    decreases oscs.len(),
{
    if oscs.len() == 0 {
        base
    } else {
        let o = oscs.last() as int;
        let entry = table[k.note + pitch[o]];
        sat_add_spec(
            mix_3sub_spec(k, oscs.drop_last(), table, pitch, levels, base, n),
            osc_mix_spec(
                k.gen@[o],
                Key::osc_entry_state(k, o),
                entry.transition as int,
                entry.increment as int,
                k.velocity as int,
                levels[o] as int,
                n,
            ),
        )
    }
}

/// Whether the phase-modulation mode's active generators draw no noise.
pub open spec fn pm_deterministic(k: Key, oscs: Seq<usize>) -> bool {
    &&& in_oscs(oscs, 0) ==> !(k.gen@[0] is Noise) && !(k.gen@[OSC_MOD as int] is Noise)
    &&& in_oscs(oscs, 1) ==> !(k.gen@[1] is Noise)
}

/// What sample n of a phase-modulation block holds: oscillator 1's wet and
/// dry terms if slot 0 is active, then oscillator 2's independent term if
/// slot 1 is active; slot 2 never contributes on its own.
pub open spec fn pm_block_out_spec(
    k: Key,
    oscs: Seq<usize>,
    table: Seq<NoteData>,
    pitch: Seq<u64>,
    levels: Seq<i64>,
    base: int,
    n: nat,
) -> int {
    let base1 = if in_oscs(oscs, 0) {
        pm_out_spec(
            Key::pm_params(
                k,
                table[k.note + pitch[0]],
                table[k.note + pitch[OSC_MOD as int]],
                levels[0] as int,
                levels[OSC_MOD as int] as int,
            ),
            Key::pm_entry_state(k),
            base,
            n,
        )
    } else {
        base
    };
    if in_oscs(oscs, 1) {
        sat_add_spec(
            base1,
            osc_mix_spec(
                k.gen@[1],
                Key::osc_entry_state(k, 1),
                table[k.note + pitch[1]].transition as int,
                table[k.note + pitch[1]].increment as int,
                k.velocity as int,
                levels[1] as int,
                n,
            ),
        )
    } else {
        base1
    }
}

/// Whether the evil mode's active generators draw no noise.
pub open spec fn evil_deterministic(k: Key, oscs: Seq<usize>) -> bool {
    &&& in_oscs(oscs, 0) ==> !(k.gen@[0] is Noise) && !(k.gen@[OSC_MOD as int] is Noise)
    &&& in_oscs(oscs, 1) ==> !(k.gen@[1] is Noise)
}

/// What sample n of an evil-modulation block holds: oscillator 1's
/// DC-blocked term if slot 0 is active, then oscillator 2's independent
/// term if slot 1 is active; slot 2 never contributes on its own.
pub open spec fn evil_block_out_spec(
    k: Key,
    oscs: Seq<usize>,
    table: Seq<NoteData>,
    pitch: Seq<u64>,
    levels: Seq<i64>,
    base: int,
    n: nat,
) -> int {
    let base1 = if in_oscs(oscs, 0) {
        evil_out_spec(
            Key::evil_params(
                k,
                table[k.note + pitch[0]],
                table[k.note + pitch[OSC_MOD as int]],
                levels[0] as int,
                levels[OSC_MOD as int] as int,
            ),
            Key::evil_entry_state(k),
            base,
            n,
        )
    } else {
        base
    };
    if in_oscs(oscs, 1) {
        sat_add_spec(
            base1,
            osc_mix_spec(
                k.gen@[1],
                Key::osc_entry_state(k, 1),
                table[k.note + pitch[1]].transition as int,
                table[k.note + pitch[1]].increment as int,
                k.velocity as int,
                levels[1] as int,
                n,
            ),
        )
    } else {
        base1
    }
}

/// What one whole-block render does under the voice's own modulation mode.
pub open spec fn mode_rel(
    pre: Key,
    post: Key,
    out_pre: Seq<i64>,
    out_post: Seq<i64>,
    start: int,
    end: int,
    pitch: Seq<u64>,
    levels: Seq<i64>,
    oscs: Seq<usize>,
    table: Seq<NoteData>,
) -> bool {
    match pre.modulation {
        Modulation::Independent => Key::rel_3sub(
            pre,
            post,
            out_pre,
            out_post,
            start,
            end,
            pitch,
            levels,
            oscs,
            table,
        ),
        Modulation::Phase => Key::rel_pm(
            pre,
            post,
            out_pre,
            out_post,
            start,
            end,
            pitch,
            levels,
            oscs,
            table,
        ),
        Modulation::Evil => Key::rel_evil(
            pre,
            post,
            out_pre,
            out_post,
            start,
            end,
            pitch,
            levels,
            oscs,
            table,
        ),
    }
}

/// The voice advanced by exactly one whole-block render of its own
/// modulation mode, into some intermediate segment of the accumulating mix,
/// with its identity untouched.
pub open spec fn rendered_rel(
    pre: Key,
    post: Key,
    start: int,
    end: int,
    pitch: Seq<u64>,
    levels: Seq<i64>,
    oscs: Seq<usize>,
    table: Seq<NoteData>,
) -> bool {
    &&& post.gen@ == pre.gen@
    &&& post.modulation == pre.modulation
    &&& post.note == pre.note
    &&& post.velocity == pre.velocity
    &&& exists|b1: Seq<i64>, b2: Seq<i64>|
        #[trigger] mode_rel(pre, post, b1, b2, start, end, pitch, levels, oscs, table)
}

/// Exhibits the buffer segments one voice rendered between.
pub proof fn lemma_rendered_rel(
    pre: Key,
    post: Key,
    b1: Seq<i64>,
    b2: Seq<i64>,
    start: int,
    end: int,
    pitch: Seq<u64>,
    levels: Seq<i64>,
    oscs: Seq<usize>,
    table: Seq<NoteData>,
)
    requires
        post.gen@ == pre.gen@,
        post.modulation == pre.modulation,
        post.note == pre.note,
        post.velocity == pre.velocity,
        mode_rel(pre, post, b1, b2, start, end, pitch, levels, oscs, table),
    ensures
        rendered_rel(pre, post, start, end, pitch, levels, oscs, table),
{
    assert(mode_rel(pre, post, b1, b2, start, end, pitch, levels, oscs, table));
}

/// A freshly started voice stays on through any number of rendered samples
/// until it is released: every envelope begins attacking at note-on, and an
/// envelope that is attacking, decaying or sustaining can never reach
/// `Ended` by processing alone.
pub proof fn lemma_note_on_stays_on(k: Key, n: nat)
    requires
        k.adsr@.len() == OSC_NR,
        forall|i: int| 0 <= i < OSC_NR ==> (#[trigger] k.adsr@[i]).state is Attack,
    ensures
        forall|i: int|
            0 <= i < OSC_NR ==> !((#[trigger] ADSR::step_n_spec(k.adsr@[i], n)).state is Ended),
{
    assert forall|i: int|
        0 <= i < OSC_NR implies !((#[trigger] ADSR::step_n_spec(k.adsr@[i], n)).state
        is Ended) by {
        crate::adsr::lemma_held_note_never_ends(k.adsr@[i], n);
    }
}

/// Half of a value, truncating toward zero (the miscomputed waves are
/// halved before their filter).
pub open spec fn half_trunc_spec(x: int) -> int {
    if x >= 0 {
        x / 2
    } else {
        -((-x) / 2)
    }
}

/// Half of a value, truncating toward zero.
fn half_trunc(x: i64) -> (r: i64)
    requires
        i64::MIN < x,
    ensures
        r == half_trunc_spec(x as int),
        abs_spec(r as int) <= abs_spec(x as int),
{
    if x >= 0 {
        let m: u64 = (x as u64) / 2;
        m as i64
    } else {
        let m: u64 = ((-x) as u64) / 2;
        -(m as i64)
    }
}

/// Clamp a generator value into the representable waveform range.
fn clamp_wave(x: i64) -> (r: i64)
    ensures
        r == clamp_wave_spec(x as int),
        -WAVE_MAX <= r <= WAVE_MAX,
{
    if x > WAVE_MAX {
        WAVE_MAX
    } else if x < -WAVE_MAX {
        -WAVE_MAX
    } else {
        x
    }
}

/// Evaluates one oscillator's generator at a phase: the waveform value in
/// [-WAVE_MAX, WAVE_MAX], with the oscillator's own DC blocker advanced on
/// the filtered (sploinky/skloinky) paths. Every generator except `Noise`
/// matches `eval_gen_spec` exactly; of a noise draw only the unit range
/// holds, and it leaves the filter alone.
pub fn eval_gen(g: OscGen, phase: i64, ts: i64, dc: &mut DCBlocker, rng: &mut SmallRng) -> (r: i64)
    requires
        old(dc).wf(),
        -PHASE_LIMIT <= phase <= PHASE_LIMIT,
        0 < ts <= Q_ONE,
    ensures
        final(dc).wf(),
        -WAVE_MAX <= r <= WAVE_MAX,
        !(g is Noise) ==> r == eval_gen_spec(g, phase as int, ts as int, *old(dc)).0 && *final(dc)
            == eval_gen_spec(g, phase as int, ts as int, *old(dc)).1,
        g is Noise ==> *final(dc) == *old(dc) && -Q_ONE <= r < Q_ONE,
{
    proof {
        reveal(eval_gen_spec);
    }
    let pw: i64 = wrap_q(phase);
    match g {
        OscGen::Sine => sine_wave(pw),
        OscGen::Noise => draw_noise(rng),
        OscGen::TriangleHq => {
            let pr: i64 = wrap_q(phase + Q_QUARTER);
            let pe: i64 = if pr < 0 {
                pr + Q_ONE
            } else {
                pr
            };
            let v: i64 = integrate_square_wave(pe, ts);
            4 * v - Q_ONE
        },
        OscGen::Triangle => {
            if pw < Q_QUARTER {
                4 * pw
            } else if pw < Q_THREE_QUARTERS {
                Q_ONE - 4 * (pw - Q_QUARTER)
            } else {
                -Q_ONE + 4 * (pw - Q_THREE_QUARTERS)
            }
        },
        OscGen::SquareHq => {
            let base: i64 = if pw < Q_HALF {
                Q_ONE
            } else {
                -Q_ONE
            };
            let c1: i64 = polyblep(scale_div(wrap_q(phase + Q_HALF) - Q_HALF, ts));
            let c2: i64 = polyblep(scale_div(pw - Q_HALF, ts));
            base + c1 - c2
        },
        OscGen::Square => {
            if pw < Q_HALF {
                Q_ONE
            } else {
                -Q_ONE
            }
        },
        OscGen::SawHq => {
            let c: i64 = polyblep(scale_div(wrap_q(phase + Q_HALF) - Q_HALF, ts));
            2 * pw - Q_ONE - c
        },
        OscGen::Saw => 2 * pw - Q_ONE,
        OscGen::Sploinky => {
            let base: i64 = if pw < Q_HALF {
                Q_ONE
            } else {
                -Q_ONE
            };
            let c1: i64 = polyblep(wrap_mod(phase + Q_HALF, Q_HALF) - ts);
            let c2: i64 = polyblep(scale_div(pw - Q_HALF, ts));
            let fed: i64 = dc.process(half_trunc(base + c1 - c2));
            clamp_wave(fed)
        },
        OscGen::Skloinky => {
            let c: i64 = polyblep(wrap_mod(phase + Q_HALF, Q_HALF) - ts);
            let fed: i64 = dc.process(half_trunc(2 * pw - Q_ONE - c));
            clamp_wave(fed)
        },
    }
}

/// Number of phase accumulators per voice: one per oscillator, plus the
/// dry (unmodulated) phase the phase-modulation mode keeps for oscillator
/// 1.
pub const PHASE_NR: usize = 4;

/// Index of the dry phase accumulator.
pub const PHASE_DRY: usize = 3;

/// Index of the modulator oscillator slot.
pub const OSC_MOD: usize = 2;

/// The per-note synthesis unit. A voice exists for every playable note; it
/// is never destroyed, only reset (`end`) and reinitialized (`on`).
pub struct Key {
    /// One envelope per oscillator slot.
    pub adsr: Vec<ADSR>,
    /// The phase accumulators, in wrapped cycles (Q30).
    pub phase: Vec<i64>,
    /// One DC blocker per oscillator slot.
    pub dc_blocker: Vec<DCBlocker>,
    /// The generator resolved at note-on, per oscillator slot.
    pub gen: Vec<OscGen>,
    /// The modulation mode snapshot taken at note-on.
    pub modulation: Modulation,
    /// The note this voice belongs to.
    pub note: usize,
    /// The note's velocity as a Q30 amplitude.
    pub velocity: i64,
}

impl Key {
    /// Every slot present, every envelope and filter well formed, every
    /// phase and the velocity within range.
    pub open spec fn wf(self) -> bool {
        &&& self.adsr@.len() == OSC_NR
        &&& forall|i: int| 0 <= i < OSC_NR ==> (#[trigger] self.adsr@[i]).wf()
        &&& self.phase@.len() == PHASE_NR
        &&& forall|i: int|
            0 <= i < PHASE_NR ==> -PHASE_LIMIT <= #[trigger] self.phase@[i] <= PHASE_LIMIT
        &&& self.dc_blocker@.len() == OSC_NR
        &&& forall|i: int| 0 <= i < OSC_NR ==> (#[trigger] self.dc_blocker@[i]).wf()
        &&& self.gen@.len() == OSC_NR
        &&& self.note < KEYS_NR
        &&& 0 <= self.velocity <= Q_ONE
    }

    /// A voice is on exactly when none of its envelopes has ended.
    pub open spec fn is_on_spec(self) -> bool {
        forall|i: int| 0 <= i < OSC_NR ==> !((#[trigger] self.adsr@[i]).state is Ended)
    }

    /// What a forced end leaves behind: phases, envelopes and filters at
    /// their initial state; the identity fields untouched.
    pub open spec fn end_rel(pre: Key, post: Key) -> bool {
        &&& post.adsr@ =~= Seq::new(OSC_NR as nat, |i: int| ADSR::reset_spec())
        &&& post.phase@ =~= Seq::new(PHASE_NR as nat, |i: int| 0i64)
        &&& post.dc_blocker@ =~= Seq::new(OSC_NR as nat, |i: int| DCBlocker { x: 0, y: 0 })
        &&& post.gen@ == pre.gen@
        &&& post.modulation == pre.modulation
        &&& post.note == pre.note
        &&& post.velocity == pre.velocity
    }

    /// Creates a voice in an uninitialized state for one note.
    pub fn new(note: usize) -> (r: Key)
        requires
            note < KEYS_NR,
        ensures
            r.wf(),
            r.note == note,
            !r.is_on_spec(),
            Key::end_rel(r, r),
    {
        let mut adsr: Vec<ADSR> = Vec::new();
        adsr.push(ADSR::reset());
        adsr.push(ADSR::reset());
        adsr.push(ADSR::reset());
        let mut phase: Vec<i64> = Vec::new();
        phase.push(0);
        phase.push(0);
        phase.push(0);
        phase.push(0);
        let mut dc_blocker: Vec<DCBlocker> = Vec::new();
        dc_blocker.push(DCBlocker::reset());
        dc_blocker.push(DCBlocker::reset());
        dc_blocker.push(DCBlocker::reset());
        let mut gen: Vec<OscGen> = Vec::new();
        gen.push(OscGen::Sine);
        gen.push(OscGen::Sine);
        gen.push(OscGen::Sine);
        let r = Key {
            adsr,
            phase,
            dc_blocker,
            gen,
            modulation: Modulation::Independent,
            note,
            velocity: 0,
        };
        proof {
            assert(r.adsr@[0].state is Ended);
        }
        r
    }

    /// Whether the voice still sounds: no envelope has ended.
    pub fn is_on(&self) -> (r: bool)
        requires
            self.wf(),
        ensures
            r == self.is_on_spec(),
    {
        let a0 = self.adsr[0].is_ended();
        let a1 = self.adsr[1].is_ended();
        let a2 = self.adsr[2].is_ended();
        !a0 && !a1 && !a2
    }

    /// Forcibly ends the voice: resets phase accumulators, envelopes and
    /// filters to their initial state, so the next note-on starts clean.
    pub fn end(&mut self)
        requires
            old(self).wf(),
        ensures
            final(self).wf(),
            Key::end_rel(*old(self), *final(self)),
            !final(self).is_on_spec(),
    {
        self.phase[0] = 0;
        self.phase[1] = 0;
        self.phase[2] = 0;
        self.phase[3] = 0;
        self.adsr[0] = ADSR::reset();
        self.adsr[1] = ADSR::reset();
        self.adsr[2] = ADSR::reset();
        self.dc_blocker[0] = DCBlocker::reset();
        self.dc_blocker[1] = DCBlocker::reset();
        self.dc_blocker[2] = DCBlocker::reset();
        proof {
            assert(self.adsr@[0].state is Ended);
        }
    }

    /// What a note-off leaves behind: every envelope forced into its
    /// release phase, everything else untouched.
    pub open spec fn release_rel(pre: Key, post: Key) -> bool {
        &&& post.adsr@.len() == pre.adsr@.len()
        &&& forall|i: int|
            0 <= i < pre.adsr@.len() ==> #[trigger] post.adsr@[i] == (ADSR {
                state: AdsrState::Release(0),
                ..pre.adsr@[i]
            })
        &&& post.phase@ == pre.phase@
        &&& post.dc_blocker@ == pre.dc_blocker@
        &&& post.gen@ == pre.gen@
        &&& post.modulation == pre.modulation
        &&& post.note == pre.note
        &&& post.velocity == pre.velocity
    }

    /// Sends every envelope into its release phase; phases and filters
    /// keep decaying in place.
    pub fn release(&mut self)
        requires
            old(self).wf(),
        ensures
            final(self).wf(),
            Key::release_rel(*old(self), *final(self)),
    {
        let mut a = self.adsr[0];
        a.release();
        self.adsr[0] = a;
        let mut a = self.adsr[1];
        a.release();
        self.adsr[1] = a;
        let mut a = self.adsr[2];
        a.release();
        self.adsr[2] = a;
    }

    /// What note-on does. A zero velocity is a note-off in disguise and
    /// ends the voice. Otherwise: the velocity is normalized to v/127, the
    /// modulation mode snapshot is copied from the store, phases and
    /// filters are untouched, every envelope is started with the current
    /// timings, each oscillator's generator is resolved from its waveform
    /// choice and quality flag (a `Random` choice re-rolls into some
    /// concrete waveform), and the voice is on.
    pub open spec fn on_rel(pre: Key, post: Key, velocity: u8, params: ParamStore) -> bool {
        &&& velocity == 0 ==> Key::end_rel(pre, post) && !post.is_on_spec()
        &&& velocity > 0 ==> {
            &&& post.velocity == (if velocity <= 127 {
                velocity as int
            } else {
                127int
            }) * (Q_ONE as int) / 127
            &&& post.modulation == params.modulation
            &&& post.note == pre.note
            &&& post.phase@ == pre.phase@
            &&& post.dc_blocker@ == pre.dc_blocker@
            &&& forall|i: int|
                0 <= i < OSC_NR ==> #[trigger] post.adsr@[i] == ADSR::on_spec(
                    pre.adsr@[i],
                    params.envelope_samples,
                )
            &&& forall|i: int|
                0 <= i < OSC_NR && !((#[trigger] params.waveforms@[i]) is Random) ==> post.gen@[i]
                    == gen_of_spec(params.waveforms@[i], params.hq@[i])
            &&& post.is_on_spec()
        }
    }

    /// Initializes the voice as pressed, exactly as `on_rel` says.
    pub fn on(&mut self, velocity: u8, params: &ParamStore, rng: &mut SmallRng)
        requires
            old(self).wf(),
            params.wf(),
        ensures
            final(self).wf(),
            Key::on_rel(*old(self), *final(self), velocity, *params),
            velocity == 0 ==> Key::end_rel(*old(self), *final(self)) && !final(self).is_on_spec(),
            velocity > 0 ==> {
                &&& final(self).velocity == (if velocity <= 127 {
                    velocity as int
                } else {
                    127int
                }) * (Q_ONE as int) / 127
                &&& final(self).modulation == params.modulation
                &&& final(self).note == old(self).note
                &&& final(self).phase@ == old(self).phase@
                &&& final(self).dc_blocker@ == old(self).dc_blocker@
                &&& forall|i: int|
                    0 <= i < OSC_NR ==> #[trigger] final(self).adsr@[i] == ADSR::on_spec(
                        old(self).adsr@[i],
                        params.envelope_samples,
                    )
                &&& forall|i: int|
                    0 <= i < OSC_NR && !((#[trigger] params.waveforms@[i]) is Random)
                        ==> final(self).gen@[i] == gen_of_spec(params.waveforms@[i], params.hq@[i])
                &&& final(self).is_on_spec()
            },
    {
        if velocity == 0 {
            self.end();
            return;
        }
        let v7: u8 = if velocity <= 127 {
            velocity
        } else {
            127
        };
        let vq: u64 = (v7 as u64) * (Q_ONE as u64) / 127;
        proof {
            vstd::arithmetic::div_mod::lemma_div_is_ordered(
                v7 as int * Q_ONE as int,
                127 * Q_ONE as int,
                127,
            );
            vstd::arithmetic::div_mod::lemma_div_multiples_vanish(Q_ONE as int, 127);
            vstd::arithmetic::div_mod::lemma_div_pos_is_pos(v7 as int * Q_ONE as int, 127);
        }
        self.velocity = vq as i64;
        self.modulation = params.get_modulation();
        let env = *params.get_envelope_samples();
        let mut osc: usize = 0;
        while osc < OSC_NR
            invariant
                self.adsr@.len() == OSC_NR,
                self.gen@.len() == OSC_NR,
                env.wf(),
                params.wf(),
                env == params.envelope_samples,
                0 <= osc <= OSC_NR,
                forall|i: int| 0 <= i < OSC_NR ==> (#[trigger] self.adsr@[i]).wf(),
                forall|i: int|
                    osc <= i < OSC_NR ==> #[trigger] self.adsr@[i] == old(self).adsr@[i],
                forall|i: int|
                    0 <= i < osc ==> #[trigger] self.adsr@[i] == ADSR::on_spec(
                        old(self).adsr@[i],
                        env,
                    ),
                forall|i: int|
                    0 <= i < osc && !((#[trigger] params.waveforms@[i]) is Random) ==> self.gen@[i]
                        == gen_of_spec(params.waveforms@[i], params.hq@[i]),
                forall|i: int| 0 <= i < osc ==> !((#[trigger] self.adsr@[i]).state is Ended),
                self.phase@ == old(self).phase@,
                self.dc_blocker@ == old(self).dc_blocker@,
                self.note == old(self).note,
                self.velocity == vq as i64,
                self.modulation == params.modulation,
                0 <= self.velocity <= Q_ONE,
                self.phase@.len() == PHASE_NR,
                forall|i: int|
                    0 <= i < PHASE_NR ==> -PHASE_LIMIT <= #[trigger] self.phase@[i] <= PHASE_LIMIT,
                self.dc_blocker@.len() == OSC_NR,
                forall|i: int| 0 <= i < OSC_NR ==> (#[trigger] self.dc_blocker@[i]).wf(),
                self.note < KEYS_NR,
            decreases OSC_NR - osc,
        {
            let mut a = self.adsr[osc];
            a.on(env);
            self.adsr[osc] = a;
            let w = self.resolve_waveform(params, osc, rng);
            let hq = params.get_hq()[osc];
            self.gen[osc] = gen_of(w, hq);
            osc += 1;
        }
    }

    /// Renders one oscillator additively into `output[start..end]`, as the
    /// independent-mixing path does: per sample, the waveform value at the
    /// current phase times velocity, level and the envelope (advanced
    /// exactly once); then the phase advances by the note's increment,
    /// wrapped into one cycle.
    fn render_osc_block(
        &mut self,
        output: &mut Vec<i64>,
        start: usize,
        end: usize,
        osc: usize,
        level: i64,
        entry: NoteData,
        rng: &mut SmallRng,
    )
        requires
            old(self).wf(),
            osc < OSC_NR,
            start <= end <= old(output)@.len(),
            0 <= level <= Q_ONE,
            entry.wf(),
        ensures
            final(self).wf(),
            final(output)@.len() == old(output)@.len(),
            forall|k: int|
                0 <= k < old(output)@.len() && !(start <= k < end) ==> final(output)@[k] == old(
                    output,
                )@[k],
            final(self).adsr@[osc as int] == ADSR::step_n_spec(
                old(self).adsr@[osc as int],
                (end - start) as nat,
            ),
            final(self).phase@[osc as int] == advance_n_spec(
                old(self).phase@[osc as int] as int,
                entry.increment as int,
                (end - start) as nat,
            ),
            forall|i: int|
                0 <= i < OSC_NR && i != osc ==> #[trigger] final(self).adsr@[i]
                    == old(self).adsr@[i] && final(self).dc_blocker@[i] == old(self).dc_blocker@[i],
            forall|i: int|
                0 <= i < PHASE_NR && i != osc ==> #[trigger] final(self).phase@[i]
                    == old(self).phase@[i],
            final(self).gen@ == old(self).gen@,
            final(self).modulation == old(self).modulation,
            final(self).note == old(self).note,
            final(self).velocity == old(self).velocity,
            !(old(self).gen@[osc as int] is Noise) ==> final(self).dc_blocker@[osc as int]
                == osc_state_n_spec(
                old(self).gen@[osc as int],
                Self::osc_entry_state(*old(self), osc as int),
                entry.transition as int,
                entry.increment as int,
                (end - start) as nat,
            ).dc,
            !(old(self).gen@[osc as int] is Noise) ==> forall|k: int|
                start <= k < end ==> #[trigger] final(output)@[k] == sat_add_spec(
                    old(output)@[k] as int,
                    osc_mix_spec(
                        old(self).gen@[osc as int],
                        Self::osc_entry_state(*old(self), osc as int),
                        entry.transition as int,
                        entry.increment as int,
                        old(self).velocity as int,
                        level as int,
                        (k - start) as nat,
                    ),
                ),
    {
        let g: OscGen = self.gen[osc];
        let inc: i64 = entry.increment;
        let ts: i64 = entry.transition;
        let ghost st0 = Self::osc_entry_state(*old(self), osc as int);
        let mut i: usize = start;
        while i < end
            invariant
                start <= i <= end,
                end <= output@.len(),
                output@.len() == old(output)@.len(),
                forall|k: int|
                    0 <= k < output@.len() && !(start <= k < i) ==> output@[k] == old(output)@[k],
                self.wf(),
                osc < OSC_NR,
                0 <= level <= Q_ONE,
                entry.wf(),
                g == old(self).gen@[osc as int],
                inc == entry.increment,
                ts == entry.transition,
                self.adsr@[osc as int] == ADSR::step_n_spec(
                    old(self).adsr@[osc as int],
                    (i - start) as nat,
                ),
                self.phase@[osc as int] == advance_n_spec(
                    old(self).phase@[osc as int] as int,
                    entry.increment as int,
                    (i - start) as nat,
                ),
                forall|ii: int|
                    0 <= ii < OSC_NR && ii != osc ==> self.adsr@[ii] == old(self).adsr@[ii]
                        && self.dc_blocker@[ii] == old(self).dc_blocker@[ii],
                forall|ii: int|
                    0 <= ii < PHASE_NR && ii != osc ==> self.phase@[ii] == old(self).phase@[ii],
                self.gen@ == old(self).gen@,
                self.modulation == old(self).modulation,
                self.note == old(self).note,
                self.velocity == old(self).velocity,
                st0 == Self::osc_entry_state(*old(self), osc as int),
                !(g is Noise) ==> (OscState {
                    phase: self.phase@[osc as int] as int,
                    dc: self.dc_blocker@[osc as int],
                    adsr: self.adsr@[osc as int],
                }) == osc_state_n_spec(
                    g,
                    st0,
                    entry.transition as int,
                    entry.increment as int,
                    (i - start) as nat,
                ),
                !(g is Noise) ==> forall|k: int|
                    start <= k < i ==> #[trigger] output@[k] == sat_add_spec(
                        old(output)@[k] as int,
                        osc_mix_spec(
                            g,
                            st0,
                            entry.transition as int,
                            entry.increment as int,
                            old(self).velocity as int,
                            level as int,
                            (k - start) as nat,
                        ),
                    ),
            decreases end - i,
        {
            let ghost st_pre = OscState {
                phase: self.phase@[osc as int] as int,
                dc: self.dc_blocker@[osc as int],
                adsr: self.adsr@[osc as int],
            };
            let mut dc: DCBlocker = self.dc_blocker[osc];
            let wave: i64 = eval_gen(g, self.phase[osc], ts, &mut dc, rng);
            self.dc_blocker[osc] = dc;
            let mut a: ADSR = self.adsr[osc];
            let amp: i64 = a.process();
            self.adsr[osc] = a;
            let c1: i64 = mul_q(wave, self.velocity);
            proof {
                lemma_mul_q_bound(wave as int, self.velocity as int, WAVE_MAX as int);
            }
            let c2: i64 = mul_q(c1, level);
            proof {
                lemma_mul_q_bound(c1 as int, level as int, WAVE_MAX as int);
            }
            let mix_term: i64 = mul_q(c2, amp);
            let cur: i64 = output[i];
            let mixed: i64 = sat_add(cur, mix_term);
            output[i] = mixed;
            let ph: i64 = self.phase[osc];
            self.phase[osc] = wrap_q(ph + inc);
            proof {
                if !(g is Noise) {
                    assert(st_pre == osc_state_n_spec(
                        g,
                        st0,
                        entry.transition as int,
                        entry.increment as int,
                        (i - start) as nat,
                    ));
                    assert(mix_term == osc_mix_spec(
                        g,
                        st0,
                        entry.transition as int,
                        entry.increment as int,
                        old(self).velocity as int,
                        level as int,
                        (i - start) as nat,
                    ));
                    assert(osc_state_n_spec(
                        g,
                        st0,
                        entry.transition as int,
                        entry.increment as int,
                        (i - start + 1) as nat,
                    ) == osc_step_spec(g, st_pre, entry.transition as int, entry.increment as int));
                }
            }
            i += 1;
        }
    }

    /// One oscillator slot's state as an independent-mixing step sees it.
    pub open spec fn osc_entry_state(k: Key, osc: int) -> OscState {
        OscState { phase: k.phase@[osc] as int, dc: k.dc_blocker@[osc], adsr: k.adsr@[osc] }
    }

    /// The voice's state as the phase-modulation path sees it.
    pub open spec fn pm_entry_state(k: Key) -> PmState {
        PmState {
            phase0: k.phase@[0] as int,
            phase_mod: k.phase@[OSC_MOD as int] as int,
            phase_dry: k.phase@[PHASE_DRY as int] as int,
            dc0: k.dc_blocker@[0],
            dc_mod: k.dc_blocker@[OSC_MOD as int],
            adsr0: k.adsr@[0],
        }
    }

    /// The voice's state as the evil path sees it.
    pub open spec fn evil_entry_state(k: Key) -> EvilState {
        EvilState {
            phase0: k.phase@[0] as int,
            phase_mod: k.phase@[OSC_MOD as int] as int,
            dc0: k.dc_blocker@[0],
            dc_mod: k.dc_blocker@[OSC_MOD as int],
            adsr0: k.adsr@[0],
            adsr2: k.adsr@[OSC_MOD as int],
        }
    }

    /// The evil path's inputs for this voice and these notes.
    pub open spec fn evil_params(
        k: Key,
        entry0: NoteData,
        entry_mod: NoteData,
        level0: int,
        level2: int,
    ) -> EvilParams {
        EvilParams {
            g0: k.gen@[0],
            g2: k.gen@[OSC_MOD as int],
            ts0: entry0.transition as int,
            inc0: entry0.increment as int,
            ts2: entry_mod.transition as int,
            vel: k.velocity as int,
            level0: level0,
            level2: level2,
        }
    }

    /// The phase-modulation path's inputs for this voice and these notes.
    pub open spec fn pm_params(
        k: Key,
        entry0: NoteData,
        entry_mod: NoteData,
        level0: int,
        level2: int,
    ) -> PmParams {
        PmParams {
            g0: k.gen@[0],
            g2: k.gen@[OSC_MOD as int],
            ts0: entry0.transition as int,
            inc0: entry0.increment as int,
            ts2: entry_mod.transition as int,
            inc2: entry_mod.increment as int,
            vel: k.velocity as int,
            level0: level0,
            depth: pm_depth_spec(level2),
        }
    }

    /// Renders oscillator 1 phase-modulated by oscillator 3 into
    /// `output[start..end]`, crossfading with a dry (unmodulated)
    /// contribution as oscillator 3's level rises. Per sample: oscillator
    /// 1's envelope advances exactly once and its value is reused for the
    /// wet and the dry term; the wet term passes through the DC blocker;
    /// oscillator 1's phase is driven by oscillator 3's waveform scaled by
    /// its level over the modulation headroom; the modulator's and the dry
    /// phase advance by their own increments.
    #[verifier::rlimit(100)]
    #[verifier::spinoff_prover]
    fn render_pm_block(
        &mut self,
        output: &mut Vec<i64>,
        start: usize,
        end: usize,
        level0: i64,
        level2: i64,
        entry0: NoteData,
        entry_mod: NoteData,
        rng: &mut SmallRng,
    )
        requires
            old(self).wf(),
            start <= end <= old(output)@.len(),
            0 <= level0 <= Q_ONE,
            0 <= level2 <= Q_ONE,
            entry0.wf(),
            entry_mod.wf(),
        ensures
            final(self).wf(),
            final(output)@.len() == old(output)@.len(),
            forall|k: int|
                0 <= k < old(output)@.len() && !(start <= k < end) ==> final(output)@[k] == old(
                    output,
                )@[k],
            final(self).adsr@[0] == ADSR::step_n_spec(old(self).adsr@[0], (end - start) as nat),
            final(self).adsr@[1] == old(self).adsr@[1],
            final(self).adsr@[2] == old(self).adsr@[2],
            final(self).phase@[OSC_MOD as int] == advance_n_spec(
                old(self).phase@[OSC_MOD as int] as int,
                entry_mod.increment as int,
                (end - start) as nat,
            ),
            final(self).phase@[PHASE_DRY as int] == advance_n_spec(
                old(self).phase@[PHASE_DRY as int] as int,
                entry0.increment as int,
                (end - start) as nat,
            ),
            final(self).phase@[1] == old(self).phase@[1],
            final(self).dc_blocker@[1] == old(self).dc_blocker@[1],
            final(self).gen@ == old(self).gen@,
            final(self).modulation == old(self).modulation,
            final(self).note == old(self).note,
            final(self).velocity == old(self).velocity,
            forall|k: int|
                start <= k < end ==> #[trigger] pm_sample_shape(
                    old(output)@[k] as int,
                    final(output)@[k] as int,
                ),
            !(old(self).gen@[0] is Noise) && !(old(self).gen@[OSC_MOD as int] is Noise) ==> {
                let p = Key::pm_params(*old(self), entry0, entry_mod, level0 as int, level2 as int);
                let st0 = Key::pm_entry_state(*old(self));
                &&& final(self).phase@[0] == pm_state_n_spec(p, st0, (end - start) as nat).phase0
                &&& final(self).dc_blocker@[0] == pm_state_n_spec(
                    p,
                    st0,
                    (end - start) as nat,
                ).dc0
                &&& final(self).dc_blocker@[OSC_MOD as int] == pm_state_n_spec(
                    p,
                    st0,
                    (end - start) as nat,
                ).dc_mod
                &&& forall|k: int|
                    start <= k < end ==> #[trigger] final(output)@[k] == pm_out_spec(
                        p,
                        st0,
                        old(output)@[k] as int,
                        (k - start) as nat,
                    )
            },
    {
        let g0: OscGen = self.gen[0];
        let g2: OscGen = self.gen[OSC_MOD];
        let inc0: i64 = entry0.increment;
        let ts0: i64 = entry0.transition;
        let inc2: i64 = entry_mod.increment;
        let ts2: i64 = entry_mod.transition;
        let depth: i64 = (level2 * 48) / 100;
        let ghost p = Key::pm_params(*old(self), entry0, entry_mod, level0 as int, level2 as int);
        let ghost st0 = Key::pm_entry_state(*old(self));
        proof {
            assert(depth == pm_depth_spec(level2 as int));
        }
        proof {
            vstd::arithmetic::div_mod::lemma_div_is_ordered(
                level2 as int * 48,
                Q_ONE as int * 48,
                100,
            );
            vstd::arithmetic::div_mod::lemma_div_pos_is_pos(level2 as int * 48, 100);
        }
        let mut i: usize = start;
        while i < end
            invariant
                start <= i <= end,
                end <= output@.len(),
                output@.len() == old(output)@.len(),
                forall|k: int|
                    0 <= k < output@.len() && !(start <= k < i) ==> output@[k] == old(output)@[k],
                self.wf(),
                0 <= level0 <= Q_ONE,
                0 <= level2 <= Q_ONE,
                0 <= depth <= Q_ONE,
                entry0.wf(),
                entry_mod.wf(),
                g0 == old(self).gen@[0],
                g2 == old(self).gen@[OSC_MOD as int],
                inc0 == entry0.increment,
                ts0 == entry0.transition,
                inc2 == entry_mod.increment,
                ts2 == entry_mod.transition,
                self.adsr@[0] == ADSR::step_n_spec(old(self).adsr@[0], (i - start) as nat),
                self.adsr@[1] == old(self).adsr@[1],
                self.adsr@[2] == old(self).adsr@[2],
                self.phase@[OSC_MOD as int] == advance_n_spec(
                    old(self).phase@[OSC_MOD as int] as int,
                    entry_mod.increment as int,
                    (i - start) as nat,
                ),
                self.phase@[PHASE_DRY as int] == advance_n_spec(
                    old(self).phase@[PHASE_DRY as int] as int,
                    entry0.increment as int,
                    (i - start) as nat,
                ),
                self.phase@[1] == old(self).phase@[1],
                self.dc_blocker@[1] == old(self).dc_blocker@[1],
                self.gen@ == old(self).gen@,
                self.modulation == old(self).modulation,
                self.note == old(self).note,
                self.velocity == old(self).velocity,
                p == Key::pm_params(*old(self), entry0, entry_mod, level0 as int, level2 as int),
                st0 == Key::pm_entry_state(*old(self)),
                depth == p.depth,
                forall|k: int|
                    start <= k < i ==> #[trigger] pm_sample_shape(
                        old(output)@[k] as int,
                        output@[k] as int,
                    ),
                !(g0 is Noise) && !(g2 is Noise) ==> (PmState {
                    phase0: self.phase@[0] as int,
                    phase_mod: self.phase@[OSC_MOD as int] as int,
                    phase_dry: self.phase@[PHASE_DRY as int] as int,
                    dc0: self.dc_blocker@[0],
                    dc_mod: self.dc_blocker@[OSC_MOD as int],
                    adsr0: self.adsr@[0],
                }) == pm_state_n_spec(p, st0, (i - start) as nat),
                !(g0 is Noise) && !(g2 is Noise) ==> forall|k: int|
                    start <= k < i ==> #[trigger] output@[k] == pm_out_spec(
                        p,
                        st0,
                        old(output)@[k] as int,
                        (k - start) as nat,
                    ),
            decreases end - i,
        {
            let ghost st_pre = PmState {
                phase0: self.phase@[0] as int,
                phase_mod: self.phase@[OSC_MOD as int] as int,
                phase_dry: self.phase@[PHASE_DRY as int] as int,
                dc0: self.dc_blocker@[0],
                dc_mod: self.dc_blocker@[OSC_MOD as int],
                adsr0: self.adsr@[0],
            };
            let mut a: ADSR = self.adsr[0];
            let osc1_adsr: i64 = a.process();
            self.adsr[0] = a;
            let mut dc0: DCBlocker = self.dc_blocker[0];
            let wave0: i64 = eval_gen(g0, self.phase[0], ts0, &mut dc0, rng);
            let c1: i64 = mul_q(wave0, self.velocity);
            proof {
                lemma_mul_q_bound(wave0 as int, self.velocity as int, WAVE_MAX as int);
            }
            let c2: i64 = mul_q(c1, level0);
            proof {
                lemma_mul_q_bound(c1 as int, level0 as int, WAVE_MAX as int);
            }
            let sample_dc: i64 = mul_q(c2, osc1_adsr);
            proof {
                lemma_mul_q_bound(c2 as int, osc1_adsr as int, WAVE_MAX as int);
            }
            let wet: i64 = dc0.process(sample_dc);
            self.dc_blocker[0] = dc0;
            let cur: i64 = output[i];
            output[i] = sat_add(cur, wet);
            let mut dc2: DCBlocker = self.dc_blocker[OSC_MOD];
            let wave2: i64 = eval_gen(g2, self.phase[OSC_MOD], ts2, &mut dc2, rng);
            self.dc_blocker[OSC_MOD] = dc2;
            let delta: i64 = mul_q(wave2, depth);
            proof {
                lemma_mul_q_bound(wave2 as int, depth as int, WAVE_MAX as int);
            }
            let p0: i64 = self.phase[0];
            self.phase[0] = wrap_q(p0 + delta);
            let pm: i64 = self.phase[OSC_MOD];
            self.phase[OSC_MOD] = wrap_q(pm + inc2);
            let pd: i64 = self.phase[PHASE_DRY];
            self.phase[PHASE_DRY] = wrap_q(pd + inc0);
            let mut dc0b: DCBlocker = self.dc_blocker[0];
            let wave_dry: i64 = eval_gen(g0, self.phase[PHASE_DRY], ts0, &mut dc0b, rng);
            self.dc_blocker[0] = dc0b;
            let wet_share: i64 = mul_q(level0, depth);
            proof {
                lemma_mul_q_bound(level0 as int, depth as int, level0 as int);
                lemma_mul_q_nonneg(level0 as int, depth as int);
            }
            let dry_level: i64 = level0 - wet_share;
            let d1: i64 = mul_q(wave_dry, self.velocity);
            proof {
                lemma_mul_q_bound(wave_dry as int, self.velocity as int, WAVE_MAX as int);
            }
            let d2: i64 = mul_q(d1, dry_level);
            proof {
                lemma_mul_q_bound(d1 as int, dry_level as int, WAVE_MAX as int);
            }
            let dry_term: i64 = mul_q(d2, osc1_adsr);
            proof {
                lemma_mul_q_bound(d2 as int, osc1_adsr as int, WAVE_MAX as int);
            }
            let cur2: i64 = output[i];
            output[i] = sat_add(cur2, dry_term);
            proof {
                assert(cur == old(output)@[i as int]);
                assert(cur2 == sat_add_spec(old(output)@[i as int] as int, wet as int));
                assert(output@[i as int] == sat_add_spec(
                    sat_add_spec(old(output)@[i as int] as int, wet as int),
                    dry_term as int,
                ));
                lemma_pm_sample_shape(
                    old(output)@[i as int] as int,
                    output@[i as int] as int,
                    wet as int,
                    dry_term as int,
                );
                if !(g0 is Noise) && !(g2 is Noise) {
                    assert(st_pre == pm_state_n_spec(p, st0, (i - start) as nat));
                    assert(output@[i as int] == pm_out_spec(
                        p,
                        st0,
                        old(output)@[i as int] as int,
                        (i - start) as nat,
                    ));
                    assert(pm_state_n_spec(p, st0, (i - start + 1) as nat) == pm_step_spec(
                        p,
                        st_pre,
                    ));
                    assert((PmState {
                        phase0: self.phase@[0] as int,
                        phase_mod: self.phase@[OSC_MOD as int] as int,
                        phase_dry: self.phase@[PHASE_DRY as int] as int,
                        dc0: self.dc_blocker@[0],
                        dc_mod: self.dc_blocker@[OSC_MOD as int],
                        adsr0: self.adsr@[0],
                    }) == pm_step_spec(p, st_pre));
                }
            }
            i += 1;
        }
    }

    /// Renders oscillator 1 under the "evil" variant into
    /// `output[start..end]`: oscillator 1's own waveform, velocity, level
    /// and envelope pass through the DC blocker as in independent mixing,
    /// but its phase then advances by oscillator 3's envelope-shaped,
    /// level-scaled waveform value. Oscillator 3 never advances through its
    /// own increment: its phase is pinned to oscillator 1's increment each
    /// sample. No dry signal is mixed.
    #[verifier::rlimit(100)]
    #[verifier::spinoff_prover]
    fn render_evil_block(
        &mut self,
        output: &mut Vec<i64>,
        start: usize,
        end: usize,
        level0: i64,
        level2: i64,
        entry0: NoteData,
        entry_mod: NoteData,
        rng: &mut SmallRng,
    )
        requires
            old(self).wf(),
            start <= end <= old(output)@.len(),
            0 <= level0 <= Q_ONE,
            0 <= level2 <= Q_ONE,
            entry0.wf(),
            entry_mod.wf(),
        ensures
            final(self).wf(),
            final(output)@.len() == old(output)@.len(),
            forall|k: int|
                0 <= k < old(output)@.len() && !(start <= k < end) ==> final(output)@[k] == old(
                    output,
                )@[k],
            final(self).adsr@[0] == ADSR::step_n_spec(old(self).adsr@[0], (end - start) as nat),
            final(self).adsr@[1] == old(self).adsr@[1],
            final(self).adsr@[2] == ADSR::step_n_spec(old(self).adsr@[2], (end - start) as nat),
            end > start ==> final(self).phase@[OSC_MOD as int] == entry0.increment,
            end == start ==> final(self).phase@[OSC_MOD as int] == old(self).phase@[
                OSC_MOD as int
            ],
            final(self).phase@[1] == old(self).phase@[1],
            final(self).phase@[PHASE_DRY as int] == old(self).phase@[PHASE_DRY as int],
            final(self).dc_blocker@[1] == old(self).dc_blocker@[1],
            final(self).gen@ == old(self).gen@,
            final(self).modulation == old(self).modulation,
            final(self).note == old(self).note,
            final(self).velocity == old(self).velocity,
            forall|k: int|
                start <= k < end ==> #[trigger] evil_sample_shape(
                    old(output)@[k] as int,
                    final(output)@[k] as int,
                ),
            !(old(self).gen@[0] is Noise) && !(old(self).gen@[OSC_MOD as int] is Noise) ==> {
                let p = Key::evil_params(
                    *old(self),
                    entry0,
                    entry_mod,
                    level0 as int,
                    level2 as int,
                );
                let st0 = Key::evil_entry_state(*old(self));
                &&& final(self).phase@[0] == evil_state_n_spec(p, st0, (end - start) as nat).phase0
                &&& final(self).dc_blocker@[0] == evil_state_n_spec(
                    p,
                    st0,
                    (end - start) as nat,
                ).dc0
                &&& final(self).dc_blocker@[OSC_MOD as int] == evil_state_n_spec(
                    p,
                    st0,
                    (end - start) as nat,
                ).dc_mod
                &&& forall|k: int|
                    start <= k < end ==> #[trigger] final(output)@[k] == evil_out_spec(
                        p,
                        st0,
                        old(output)@[k] as int,
                        (k - start) as nat,
                    )
            },
    {
        let g0: OscGen = self.gen[0];
        let g2: OscGen = self.gen[OSC_MOD];
        let inc0: i64 = entry0.increment;
        let ts0: i64 = entry0.transition;
        let ts2: i64 = entry_mod.transition;
        let ghost p = Key::evil_params(*old(self), entry0, entry_mod, level0 as int, level2 as int);
        let ghost st0 = Key::evil_entry_state(*old(self));
        let mut i: usize = start;
        while i < end
            invariant
                start <= i <= end,
                end <= output@.len(),
                output@.len() == old(output)@.len(),
                forall|k: int|
                    0 <= k < output@.len() && !(start <= k < i) ==> output@[k] == old(output)@[k],
                self.wf(),
                0 <= level0 <= Q_ONE,
                0 <= level2 <= Q_ONE,
                entry0.wf(),
                entry_mod.wf(),
                g0 == old(self).gen@[0],
                g2 == old(self).gen@[OSC_MOD as int],
                inc0 == entry0.increment,
                ts0 == entry0.transition,
                ts2 == entry_mod.transition,
                self.adsr@[0] == ADSR::step_n_spec(old(self).adsr@[0], (i - start) as nat),
                self.adsr@[1] == old(self).adsr@[1],
                self.adsr@[2] == ADSR::step_n_spec(old(self).adsr@[2], (i - start) as nat),
                i > start ==> self.phase@[OSC_MOD as int] == entry0.increment,
                i == start ==> self.phase@[OSC_MOD as int] == old(self).phase@[OSC_MOD as int],
                self.phase@[1] == old(self).phase@[1],
                self.phase@[PHASE_DRY as int] == old(self).phase@[PHASE_DRY as int],
                self.dc_blocker@[1] == old(self).dc_blocker@[1],
                self.gen@ == old(self).gen@,
                self.modulation == old(self).modulation,
                self.note == old(self).note,
                self.velocity == old(self).velocity,
                p == Key::evil_params(*old(self), entry0, entry_mod, level0 as int, level2 as int),
                st0 == Key::evil_entry_state(*old(self)),
                forall|k: int|
                    start <= k < i ==> #[trigger] evil_sample_shape(
                        old(output)@[k] as int,
                        output@[k] as int,
                    ),
                !(g0 is Noise) && !(g2 is Noise) ==> (EvilState {
                    phase0: self.phase@[0] as int,
                    phase_mod: self.phase@[OSC_MOD as int] as int,
                    dc0: self.dc_blocker@[0],
                    dc_mod: self.dc_blocker@[OSC_MOD as int],
                    adsr0: self.adsr@[0],
                    adsr2: self.adsr@[OSC_MOD as int],
                }) == evil_state_n_spec(p, st0, (i - start) as nat),
                !(g0 is Noise) && !(g2 is Noise) ==> forall|k: int|
                    start <= k < i ==> #[trigger] output@[k] == evil_out_spec(
                        p,
                        st0,
                        old(output)@[k] as int,
                        (k - start) as nat,
                    ),
            decreases end - i,
        {
            let ghost st_pre = EvilState {
                phase0: self.phase@[0] as int,
                phase_mod: self.phase@[OSC_MOD as int] as int,
                dc0: self.dc_blocker@[0],
                dc_mod: self.dc_blocker@[OSC_MOD as int],
                adsr0: self.adsr@[0],
                adsr2: self.adsr@[OSC_MOD as int],
            };
            let mut dc0: DCBlocker = self.dc_blocker[0];
            let wave0: i64 = eval_gen(g0, self.phase[0], ts0, &mut dc0, rng);
            let mut a: ADSR = self.adsr[0];
            let amp0: i64 = a.process();
            self.adsr[0] = a;
            let c1: i64 = mul_q(wave0, self.velocity);
            proof {
                lemma_mul_q_bound(wave0 as int, self.velocity as int, WAVE_MAX as int);
            }
            let c2: i64 = mul_q(c1, level0);
            proof {
                lemma_mul_q_bound(c1 as int, level0 as int, WAVE_MAX as int);
            }
            let sample_dc: i64 = mul_q(c2, amp0);
            proof {
                lemma_mul_q_bound(c2 as int, amp0 as int, WAVE_MAX as int);
            }
            let wet: i64 = dc0.process(sample_dc);
            self.dc_blocker[0] = dc0;
            let cur: i64 = output[i];
            output[i] = sat_add(cur, wet);
            self.phase[OSC_MOD] = inc0;
            let mut dc2: DCBlocker = self.dc_blocker[OSC_MOD];
            let wave2: i64 = eval_gen(g2, self.phase[OSC_MOD], ts2, &mut dc2, rng);
            self.dc_blocker[OSC_MOD] = dc2;
            let mut a2: ADSR = self.adsr[OSC_MOD];
            let amp2: i64 = a2.process();
            self.adsr[OSC_MOD] = a2;
            let m1: i64 = mul_q(wave2, self.velocity);
            proof {
                lemma_mul_q_bound(wave2 as int, self.velocity as int, WAVE_MAX as int);
            }
            let m2: i64 = mul_q(m1, level2);
            proof {
                lemma_mul_q_bound(m1 as int, level2 as int, WAVE_MAX as int);
            }
            let drive: i64 = mul_q(m2, amp2);
            proof {
                lemma_mul_q_bound(m2 as int, amp2 as int, WAVE_MAX as int);
            }
            let p0: i64 = self.phase[0];
            self.phase[0] = wrap_q(p0 + drive);
            proof {
                assert(cur == old(output)@[i as int]);
                assert(output@[i as int] == sat_add_spec(
                    old(output)@[i as int] as int,
                    wet as int,
                ));
                lemma_evil_sample_shape(
                    old(output)@[i as int] as int,
                    output@[i as int] as int,
                    wet as int,
                );
                if !(g0 is Noise) && !(g2 is Noise) {
                    assert(st_pre == evil_state_n_spec(p, st0, (i - start) as nat));
                    assert(output@[i as int] == evil_out_spec(
                        p,
                        st0,
                        old(output)@[i as int] as int,
                        (i - start) as nat,
                    ));
                    assert(evil_state_n_spec(p, st0, (i - start + 1) as nat) == evil_step_spec(
                        p,
                        st_pre,
                    ));
                    assert((EvilState {
                        phase0: self.phase@[0] as int,
                        phase_mod: self.phase@[OSC_MOD as int] as int,
                        dc0: self.dc_blocker@[0],
                        dc_mod: self.dc_blocker@[OSC_MOD as int],
                        adsr0: self.adsr@[0],
                        adsr2: self.adsr@[OSC_MOD as int],
                    }) == evil_step_spec(p, st_pre));
                }
            }
            i += 1;
        }
    }

    /// What independent mixing does to the voice and the buffer: exactly
    /// `process_3sub`'s contract.
    pub open spec fn rel_3sub(
        pre: Key,
        post: Key,
        out_pre: Seq<i64>,
        out_post: Seq<i64>,
        start: int,
        end: int,
        pitch: Seq<u64>,
        levels: Seq<i64>,
        oscs: Seq<usize>,
        table: Seq<NoteData>,
    ) -> bool {
        &&& post.phase@[PHASE_DRY as int] == pre.phase@[PHASE_DRY as int]
        &&& forall|o: int|
            0 <= o < OSC_NR && !in_oscs(oscs, o) ==> #[trigger] post.adsr@[o] == pre.adsr@[o]
                && post.phase@[o] == pre.phase@[o] && post.dc_blocker@[o] == pre.dc_blocker@[o]
        &&& forall|o: int|
            0 <= o < OSC_NR && in_oscs(oscs, o) ==> #[trigger] post.adsr@[o] == ADSR::step_n_spec(
                pre.adsr@[o],
                (end - start) as nat,
            ) && post.phase@[o] == advance_n_spec(
                pre.phase@[o] as int,
                table[pre.note + pitch[o]].increment as int,
                (end - start) as nat,
            )
        &&& all_deterministic(pre, oscs) ==> forall|k: int|
            start <= k < end ==> #[trigger] out_post[k] == mix_3sub_spec(
                pre,
                oscs,
                table,
                pitch,
                levels,
                out_pre[k] as int,
                (k - start) as nat,
            )
    }

    /// What phase modulation does to the voice and the buffer: exactly
    /// `process_1pm_1sub`'s contract.
    pub open spec fn rel_pm(
        pre: Key,
        post: Key,
        out_pre: Seq<i64>,
        out_post: Seq<i64>,
        start: int,
        end: int,
        pitch: Seq<u64>,
        levels: Seq<i64>,
        oscs: Seq<usize>,
        table: Seq<NoteData>,
    ) -> bool {
        &&& post.adsr@[2] == pre.adsr@[2]
        &&& in_oscs(oscs, 0) ==> post.adsr@[0] == ADSR::step_n_spec(
            pre.adsr@[0],
            (end - start) as nat,
        ) && post.phase@[OSC_MOD as int] == advance_n_spec(
            pre.phase@[OSC_MOD as int] as int,
            table[pre.note + pitch[OSC_MOD as int]].increment as int,
            (end - start) as nat,
        ) && post.phase@[PHASE_DRY as int] == advance_n_spec(
            pre.phase@[PHASE_DRY as int] as int,
            table[pre.note + pitch[0]].increment as int,
            (end - start) as nat,
        )
        &&& !in_oscs(oscs, 0) ==> post.adsr@[0] == pre.adsr@[0] && post.phase@[0] == pre.phase@[0]
            && post.phase@[OSC_MOD as int] == pre.phase@[OSC_MOD as int] && post.phase@[
            PHASE_DRY as int
        ] == pre.phase@[PHASE_DRY as int] && post.dc_blocker@[0] == pre.dc_blocker@[0]
            && post.dc_blocker@[OSC_MOD as int] == pre.dc_blocker@[OSC_MOD as int]
        &&& in_oscs(oscs, 1) ==> post.adsr@[1] == ADSR::step_n_spec(
            pre.adsr@[1],
            (end - start) as nat,
        ) && post.phase@[1] == advance_n_spec(
            pre.phase@[1] as int,
            table[pre.note + pitch[1]].increment as int,
            (end - start) as nat,
        )
        &&& !in_oscs(oscs, 1) ==> post.adsr@[1] == pre.adsr@[1] && post.phase@[1] == pre.phase@[1]
            && post.dc_blocker@[1] == pre.dc_blocker@[1]
        &&& in_oscs(oscs, 0) && pm_deterministic(pre, oscs) ==> {
            let p = Key::pm_params(
                pre,
                table[pre.note + pitch[0]],
                table[pre.note + pitch[OSC_MOD as int]],
                levels[0] as int,
                levels[OSC_MOD as int] as int,
            );
            let st0 = Key::pm_entry_state(pre);
            &&& post.phase@[0] == pm_state_n_spec(p, st0, (end - start) as nat).phase0
            &&& post.dc_blocker@[0] == pm_state_n_spec(p, st0, (end - start) as nat).dc0
            &&& post.dc_blocker@[OSC_MOD as int] == pm_state_n_spec(
                p,
                st0,
                (end - start) as nat,
            ).dc_mod
        }
        &&& pm_deterministic(pre, oscs) ==> forall|k: int|
            start <= k < end ==> #[trigger] out_post[k] == pm_block_out_spec(
                pre,
                oscs,
                table,
                pitch,
                levels,
                out_pre[k] as int,
                (k - start) as nat,
            )
    }

    /// What evil modulation does to the voice and the buffer: exactly
    /// `process_1evil_1sub`'s contract.
    pub open spec fn rel_evil(
        pre: Key,
        post: Key,
        out_pre: Seq<i64>,
        out_post: Seq<i64>,
        start: int,
        end: int,
        pitch: Seq<u64>,
        levels: Seq<i64>,
        oscs: Seq<usize>,
        table: Seq<NoteData>,
    ) -> bool {
        &&& post.phase@[PHASE_DRY as int] == pre.phase@[PHASE_DRY as int]
        &&& in_oscs(oscs, 0) ==> post.adsr@[0] == ADSR::step_n_spec(
            pre.adsr@[0],
            (end - start) as nat,
        ) && post.adsr@[2] == ADSR::step_n_spec(pre.adsr@[2], (end - start) as nat) && (end > start
            ==> post.phase@[OSC_MOD as int] == table[pre.note + pitch[0]].increment)
        &&& !in_oscs(oscs, 0) ==> post.adsr@[0] == pre.adsr@[0] && post.adsr@[2] == pre.adsr@[2]
            && post.phase@[0] == pre.phase@[0] && post.phase@[OSC_MOD as int] == pre.phase@[
            OSC_MOD as int
        ] && post.dc_blocker@[0] == pre.dc_blocker@[0] && post.dc_blocker@[OSC_MOD as int]
            == pre.dc_blocker@[OSC_MOD as int]
        &&& in_oscs(oscs, 1) ==> post.adsr@[1] == ADSR::step_n_spec(
            pre.adsr@[1],
            (end - start) as nat,
        ) && post.phase@[1] == advance_n_spec(
            pre.phase@[1] as int,
            table[pre.note + pitch[1]].increment as int,
            (end - start) as nat,
        )
        &&& !in_oscs(oscs, 1) ==> post.adsr@[1] == pre.adsr@[1] && post.phase@[1] == pre.phase@[1]
            && post.dc_blocker@[1] == pre.dc_blocker@[1]
        &&& in_oscs(oscs, 0) && evil_deterministic(pre, oscs) ==> {
            let p = Key::evil_params(
                pre,
                table[pre.note + pitch[0]],
                table[pre.note + pitch[OSC_MOD as int]],
                levels[0] as int,
                levels[OSC_MOD as int] as int,
            );
            let st0 = Key::evil_entry_state(pre);
            &&& post.phase@[0] == evil_state_n_spec(p, st0, (end - start) as nat).phase0
            &&& post.dc_blocker@[0] == evil_state_n_spec(p, st0, (end - start) as nat).dc0
            &&& post.dc_blocker@[OSC_MOD as int] == evil_state_n_spec(
                p,
                st0,
                (end - start) as nat,
            ).dc_mod
        }
        &&& evil_deterministic(pre, oscs) ==> forall|k: int|
            start <= k < end ==> #[trigger] out_post[k] == evil_block_out_spec(
                pre,
                oscs,
                table,
                pitch,
                levels,
                out_pre[k] as int,
                (k - start) as nat,
            )
    }

    /// Renders this voice additively into `output[start..end]`, dispatching
    /// on the modulation mode snapshot taken at note-on: independent mixing
    /// relates the states and the buffer by `rel_3sub`, phase modulation by
    /// `rel_pm`, evil modulation by `rel_evil`. Samples outside the range
    /// and the voice's identity (generators, mode, note, velocity) are
    /// untouched.
    pub fn process(
        &mut self,
        output: &mut Vec<i64>,
        start: usize,
        end: usize,
        pitch: &Vec<u64>,
        levels: &Vec<i64>,
        rng: &mut SmallRng,
        oscs: &Vec<usize>,
        table: &TuningTable,
    )
        requires
            old(self).wf(),
            old(self).is_on_spec(),
            start <= end <= old(output)@.len(),
            pitch@.len() == OSC_NR,
            forall|i: int| 0 <= i < OSC_NR ==> #[trigger] pitch@[i] <= PITCH_MAX,
            levels@.len() == OSC_NR,
            forall|i: int| 0 <= i < OSC_NR ==> 0 <= #[trigger] levels@[i] <= Q_ONE,
            forall|j: int| 0 <= j < oscs@.len() ==> #[trigger] oscs@[j] < OSC_NR,
            forall|j: int, k: int| 0 <= j < k < oscs@.len() ==> oscs@[j] < oscs@[k],
            table.wf(),
        ensures
            final(self).wf(),
            final(output)@.len() == old(output)@.len(),
            forall|k: int|
                0 <= k < old(output)@.len() && !(start <= k < end) ==> final(output)@[k] == old(
                    output,
                )@[k],
            final(self).gen@ == old(self).gen@,
            final(self).modulation == old(self).modulation,
            final(self).note == old(self).note,
            final(self).velocity == old(self).velocity,
            old(self).modulation is Independent ==> Key::rel_3sub(
                *old(self),
                *final(self),
                old(output)@,
                final(output)@,
                start as int,
                end as int,
                pitch@,
                levels@,
                oscs@,
                table@,
            ),
            old(self).modulation is Phase ==> Key::rel_pm(
                *old(self),
                *final(self),
                old(output)@,
                final(output)@,
                start as int,
                end as int,
                pitch@,
                levels@,
                oscs@,
                table@,
            ),
            old(self).modulation is Evil ==> Key::rel_evil(
                *old(self),
                *final(self),
                old(output)@,
                final(output)@,
                start as int,
                end as int,
                pitch@,
                levels@,
                oscs@,
                table@,
            ),
    {
        match self.modulation {
            Modulation::Independent => self.process_3sub(
                output,
                start,
                end,
                pitch,
                levels,
                rng,
                oscs,
                table,
            ),
            Modulation::Phase => self.process_1pm_1sub(
                output,
                start,
                end,
                pitch,
                levels,
                rng,
                oscs,
                table,
            ),
            Modulation::Evil => self.process_1evil_1sub(
                output,
                start,
                end,
                pitch,
                levels,
                rng,
                oscs,
                table,
            ),
        }
    }

    /// Independent mixing: every active oscillator renders its own
    /// waveform, scaled by velocity, its level and its envelope (advanced
    /// exactly once per sample), and its phase advances by its note's
    /// increment. Inactive oscillators are untouched.
    pub fn process_3sub(
        &mut self,
        output: &mut Vec<i64>,
        start: usize,
        end: usize,
        pitch: &Vec<u64>,
        levels: &Vec<i64>,
        rng: &mut SmallRng,
        oscs: &Vec<usize>,
        table: &TuningTable,
    )
        requires
            old(self).wf(),
            start <= end <= old(output)@.len(),
            pitch@.len() == OSC_NR,
            forall|i: int| 0 <= i < OSC_NR ==> #[trigger] pitch@[i] <= PITCH_MAX,
            levels@.len() == OSC_NR,
            forall|i: int| 0 <= i < OSC_NR ==> 0 <= #[trigger] levels@[i] <= Q_ONE,
            forall|j: int| 0 <= j < oscs@.len() ==> #[trigger] oscs@[j] < OSC_NR,
            forall|j: int, k: int| 0 <= j < k < oscs@.len() ==> oscs@[j] < oscs@[k],
            table.wf(),
        ensures
            final(self).wf(),
            final(output)@.len() == old(output)@.len(),
            forall|k: int|
                0 <= k < old(output)@.len() && !(start <= k < end) ==> final(output)@[k] == old(
                    output,
                )@[k],
            final(self).gen@ == old(self).gen@,
            final(self).modulation == old(self).modulation,
            final(self).note == old(self).note,
            final(self).velocity == old(self).velocity,
            final(self).phase@[PHASE_DRY as int] == old(self).phase@[PHASE_DRY as int],
            forall|o: int|
                0 <= o < OSC_NR && !in_oscs(oscs@, o) ==> #[trigger] final(self).adsr@[o] == old(
                    self,
                ).adsr@[o] && final(self).phase@[o] == old(self).phase@[o] && final(self).dc_blocker@[o] == old(self).dc_blocker@[o],
            forall|o: int|
                0 <= o < OSC_NR && in_oscs(oscs@, o) ==> #[trigger] final(self).adsr@[o]
                    == ADSR::step_n_spec(old(self).adsr@[o], (end - start) as nat) && final(self).phase@[o] == advance_n_spec(
                    old(self).phase@[o] as int,
                    table@[old(self).note + pitch@[o]].increment as int,
                    (end - start) as nat,
                ),
            all_deterministic(*old(self), oscs@) ==> forall|k: int|
                start <= k < end ==> #[trigger] final(output)@[k] == mix_3sub_spec(
                    *old(self),
                    oscs@,
                    table@,
                    pitch@,
                    levels@,
                    old(output)@[k] as int,
                    (k - start) as nat,
                ),
    {
        let mut j: usize = 0;
        while j < oscs.len()
            invariant
                0 <= j <= oscs@.len(),
                self.wf(),
                start <= end <= output@.len(),
                output@.len() == old(output)@.len(),
                forall|k: int|
                    0 <= k < output@.len() && !(start <= k < end) ==> output@[k] == old(output)@[k],
                pitch@.len() == OSC_NR,
                forall|i: int| 0 <= i < OSC_NR ==> #[trigger] pitch@[i] <= PITCH_MAX,
                levels@.len() == OSC_NR,
                forall|i: int| 0 <= i < OSC_NR ==> 0 <= #[trigger] levels@[i] <= Q_ONE,
                forall|jj: int| 0 <= jj < oscs@.len() ==> #[trigger] oscs@[jj] < OSC_NR,
                forall|jj: int, kk: int| 0 <= jj < kk < oscs@.len() ==> oscs@[jj] < oscs@[kk],
                table.wf(),
                self.gen@ == old(self).gen@,
                self.modulation == old(self).modulation,
                self.note == old(self).note,
                self.velocity == old(self).velocity,
                self.phase@[PHASE_DRY as int] == old(self).phase@[PHASE_DRY as int],
                forall|o: int|
                    0 <= o < OSC_NR && !in_oscs(oscs@.take(j as int), o) ==> #[trigger] self.adsr@[o]
                        == old(self).adsr@[o] && self.phase@[o] == old(self).phase@[o]
                        && self.dc_blocker@[o] == old(self).dc_blocker@[o],
                forall|o: int|
                    0 <= o < OSC_NR && in_oscs(oscs@.take(j as int), o) ==> #[trigger] self.adsr@[o]
                        == ADSR::step_n_spec(old(self).adsr@[o], (end - start) as nat)
                        && self.phase@[o] == advance_n_spec(
                        old(self).phase@[o] as int,
                        table@[old(self).note + pitch@[o]].increment as int,
                        (end - start) as nat,
                    ),
                all_deterministic(*old(self), oscs@) ==> forall|k: int|
                    start <= k < end ==> #[trigger] output@[k] == mix_3sub_spec(
                        *old(self),
                        oscs@.take(j as int),
                        table@,
                        pitch@,
                        levels@,
                        old(output)@[k] as int,
                        (k - start) as nat,
                    ),
            decreases oscs@.len() - j,
        {
            let osc: usize = oscs[j];
            proof {
                let tj = oscs@.take(j as int);
                assert(!in_oscs(tj, osc as int)) by {
                    if in_oscs(tj, osc as int) {
                        let k = choose|k: int| 0 <= k < tj.len() && tj[k] == osc;
                        assert(oscs@[k] == osc);
                        assert(oscs@[k] < oscs@[j as int]);
                    }
                }
            }
            let off: usize = pitch[osc] as usize;
            let idx: usize = self.note + off;
            let entry: NoteData = table.at(idx);
            let level: i64 = levels[osc];
            let ghost pre_self = *self;
            let ghost pre_out = output@;
            self.render_osc_block(output, start, end, osc, level, entry, rng);
            proof {
                let tj = oscs@.take(j as int);
                let tj1 = oscs@.take(j as int + 1);
                assert(tj1 =~= tj.push(oscs@[j as int]));
                assert forall|o: int| in_oscs(tj1, o) implies (in_oscs(tj, o) || o == oscs@[
                    j as int
                ]) by {
                    let k = choose|k: int| 0 <= k < tj1.len() && tj1[k] == o;
                    if k < j as int {
                        assert(tj[k] == o);
                    }
                }
                assert forall|o: int| in_oscs(tj, o) implies in_oscs(tj1, o) by {
                    let k = choose|k: int| 0 <= k < tj.len() && tj[k] == o;
                    assert(tj1[k] == o);
                }
                assert(tj1[j as int] == oscs@[j as int]);
                assert(in_oscs(tj1, oscs@[j as int] as int));
                assert forall|o: int| 0 <= o < OSC_NR && !in_oscs(tj1, o) implies self.adsr@[o]
                    == old(self).adsr@[o] && self.phase@[o] == old(self).phase@[o]
                    && self.dc_blocker@[o] == old(self).dc_blocker@[o] by {
                    assert(o != oscs@[j as int] as int);
                    assert(!in_oscs(tj, o));
                    assert(pre_self.adsr@[o] == old(self).adsr@[o]);
                    assert(self.adsr@[o] == pre_self.adsr@[o]);
                    assert(self.phase@[o] == pre_self.phase@[o]);
                    assert(self.dc_blocker@[o] == pre_self.dc_blocker@[o]);
                }
                assert forall|o: int| 0 <= o < OSC_NR && in_oscs(tj1, o) implies self.adsr@[o]
                    == ADSR::step_n_spec(old(self).adsr@[o], (end - start) as nat)
                    && self.phase@[o] == advance_n_spec(
                    old(self).phase@[o] as int,
                    table@[old(self).note + pitch@[o]].increment as int,
                    (end - start) as nat,
                ) by {
                    if o != oscs@[j as int] as int {
                        assert(in_oscs(tj, o));
                        assert(self.adsr@[o] == pre_self.adsr@[o]);
                        assert(self.phase@[o] == pre_self.phase@[o]);
                    } else {
                        assert(pre_self.adsr@[o] == old(self).adsr@[o]);
                        assert(pre_self.phase@[o] == old(self).phase@[o]);
                    }
                }
                if all_deterministic(*old(self), oscs@) {
                    assert(!(old(self).gen@[oscs@[j as int] as int] is Noise));
                    assert(!in_oscs(tj, osc as int));
                    assert(pre_self.adsr@[osc as int] == old(self).adsr@[osc as int]);
                    assert(pre_self.phase@[osc as int] == old(self).phase@[osc as int]);
                    assert(pre_self.dc_blocker@[osc as int] == old(self).dc_blocker@[osc as int]);
                    assert(Key::osc_entry_state(pre_self, osc as int) == Key::osc_entry_state(
                        *old(self),
                        osc as int,
                    ));
                    assert(tj1.drop_last() =~= tj);
                    assert(tj1.last() == oscs@[j as int]);
                    assert forall|k: int| start <= k < end implies #[trigger] output@[k]
                        == mix_3sub_spec(
                        *old(self),
                        tj1,
                        table@,
                        pitch@,
                        levels@,
                        old(output)@[k] as int,
                        (k - start) as nat,
                    ) by {
                        assert(pre_out[k] == mix_3sub_spec(
                            *old(self),
                            tj,
                            table@,
                            pitch@,
                            levels@,
                            old(output)@[k] as int,
                            (k - start) as nat,
                        ));
                        assert(output@[k] == sat_add_spec(
                            pre_out[k] as int,
                            osc_mix_spec(
                                pre_self.gen@[osc as int],
                                Key::osc_entry_state(pre_self, osc as int),
                                entry.transition as int,
                                entry.increment as int,
                                pre_self.velocity as int,
                                level as int,
                                (k - start) as nat,
                            ),
                        ));
                    }
                }
            }
            j += 1;
        }
        proof {
            assert(oscs@.take(oscs@.len() as int) =~= oscs@);
        }
    }

    /// Phase modulation: oscillator 3 drives oscillator 1's phase and
    /// produces no output of its own; oscillator 2 renders independently;
    /// oscillator 3's envelope is never advanced. Activating oscillator 3
    /// alone does nothing.
    #[verifier::rlimit(100)]
    #[verifier::spinoff_prover]
    pub fn process_1pm_1sub(
        &mut self,
        output: &mut Vec<i64>,
        start: usize,
        end: usize,
        pitch: &Vec<u64>,
        levels: &Vec<i64>,
        rng: &mut SmallRng,
        oscs: &Vec<usize>,
        table: &TuningTable,
    )
        requires
            old(self).wf(),
            start <= end <= old(output)@.len(),
            pitch@.len() == OSC_NR,
            forall|i: int| 0 <= i < OSC_NR ==> #[trigger] pitch@[i] <= PITCH_MAX,
            levels@.len() == OSC_NR,
            forall|i: int| 0 <= i < OSC_NR ==> 0 <= #[trigger] levels@[i] <= Q_ONE,
            forall|j: int| 0 <= j < oscs@.len() ==> #[trigger] oscs@[j] < OSC_NR,
            forall|j: int, k: int| 0 <= j < k < oscs@.len() ==> oscs@[j] < oscs@[k],
            table.wf(),
        ensures
            final(self).wf(),
            final(output)@.len() == old(output)@.len(),
            forall|k: int|
                0 <= k < old(output)@.len() && !(start <= k < end) ==> final(output)@[k] == old(
                    output,
                )@[k],
            final(self).gen@ == old(self).gen@,
            final(self).modulation == old(self).modulation,
            final(self).note == old(self).note,
            final(self).velocity == old(self).velocity,
            final(self).adsr@[2] == old(self).adsr@[2],
            in_oscs(oscs@, 0) ==> final(self).adsr@[0] == ADSR::step_n_spec(
                old(self).adsr@[0],
                (end - start) as nat,
            ) && final(self).phase@[OSC_MOD as int] == advance_n_spec(
                old(self).phase@[OSC_MOD as int] as int,
                table@[old(self).note + pitch@[OSC_MOD as int]].increment as int,
                (end - start) as nat,
            ) && final(self).phase@[PHASE_DRY as int] == advance_n_spec(
                old(self).phase@[PHASE_DRY as int] as int,
                table@[old(self).note + pitch@[0]].increment as int,
                (end - start) as nat,
            ),
            !in_oscs(oscs@, 0) ==> final(self).adsr@[0] == old(self).adsr@[0] && final(self).phase@[0] == old(self).phase@[0] && final(self).phase@[OSC_MOD as int] == old(
                self,
            ).phase@[OSC_MOD as int] && final(self).phase@[PHASE_DRY as int] == old(self).phase@[
                PHASE_DRY as int
            ] && final(self).dc_blocker@[0] == old(self).dc_blocker@[0] && final(self).dc_blocker@[
                OSC_MOD as int
            ] == old(self).dc_blocker@[OSC_MOD as int],
            in_oscs(oscs@, 1) ==> final(self).adsr@[1] == ADSR::step_n_spec(
                old(self).adsr@[1],
                (end - start) as nat,
            ) && final(self).phase@[1] == advance_n_spec(
                old(self).phase@[1] as int,
                table@[old(self).note + pitch@[1]].increment as int,
                (end - start) as nat,
            ),
            !in_oscs(oscs@, 1) ==> final(self).adsr@[1] == old(self).adsr@[1] && final(self).phase@[1] == old(self).phase@[1] && final(self).dc_blocker@[1] == old(
                self,
            ).dc_blocker@[1],
            in_oscs(oscs@, 0) && pm_deterministic(*old(self), oscs@) ==> {
                let p = Key::pm_params(
                    *old(self),
                    table@[old(self).note + pitch@[0]],
                    table@[old(self).note + pitch@[OSC_MOD as int]],
                    levels@[0] as int,
                    levels@[OSC_MOD as int] as int,
                );
                let st0 = Key::pm_entry_state(*old(self));
                &&& final(self).phase@[0] == pm_state_n_spec(p, st0, (end - start) as nat).phase0
                &&& final(self).dc_blocker@[0] == pm_state_n_spec(
                    p,
                    st0,
                    (end - start) as nat,
                ).dc0
                &&& final(self).dc_blocker@[OSC_MOD as int] == pm_state_n_spec(
                    p,
                    st0,
                    (end - start) as nat,
                ).dc_mod
            },
            pm_deterministic(*old(self), oscs@) ==> forall|k: int|
                start <= k < end ==> #[trigger] final(output)@[k] == pm_block_out_spec(
                    *old(self),
                    oscs@,
                    table@,
                    pitch@,
                    levels@,
                    old(output)@[k] as int,
                    (k - start) as nat,
                ),
    {
        let mut j: usize = 0;
        while j < oscs.len()
            invariant
                0 <= j <= oscs@.len(),
                self.wf(),
                start <= end <= output@.len(),
                output@.len() == old(output)@.len(),
                forall|k: int|
                    0 <= k < output@.len() && !(start <= k < end) ==> output@[k] == old(output)@[k],
                pitch@.len() == OSC_NR,
                forall|i: int| 0 <= i < OSC_NR ==> #[trigger] pitch@[i] <= PITCH_MAX,
                levels@.len() == OSC_NR,
                forall|i: int| 0 <= i < OSC_NR ==> 0 <= #[trigger] levels@[i] <= Q_ONE,
                forall|jj: int| 0 <= jj < oscs@.len() ==> #[trigger] oscs@[jj] < OSC_NR,
                forall|jj: int, kk: int| 0 <= jj < kk < oscs@.len() ==> oscs@[jj] < oscs@[kk],
                table.wf(),
                self.gen@ == old(self).gen@,
                self.modulation == old(self).modulation,
                self.note == old(self).note,
                self.velocity == old(self).velocity,
                self.adsr@[2] == old(self).adsr@[2],
                in_oscs(oscs@.take(j as int), 0) && pm_deterministic(*old(self), oscs@) ==> {
                    let p = Key::pm_params(
                        *old(self),
                        table@[old(self).note + pitch@[0]],
                        table@[old(self).note + pitch@[OSC_MOD as int]],
                        levels@[0] as int,
                        levels@[OSC_MOD as int] as int,
                    );
                    let st0 = Key::pm_entry_state(*old(self));
                    &&& self.phase@[0] == pm_state_n_spec(p, st0, (end - start) as nat).phase0
                    &&& self.dc_blocker@[0] == pm_state_n_spec(p, st0, (end - start) as nat).dc0
                    &&& self.dc_blocker@[OSC_MOD as int] == pm_state_n_spec(
                        p,
                        st0,
                        (end - start) as nat,
                    ).dc_mod
                },
                pm_deterministic(*old(self), oscs@) ==> forall|k: int|
                    start <= k < end ==> #[trigger] output@[k] == pm_block_out_spec(
                        *old(self),
                        oscs@.take(j as int),
                        table@,
                        pitch@,
                        levels@,
                        old(output)@[k] as int,
                        (k - start) as nat,
                    ),
                in_oscs(oscs@.take(j as int), 0) ==> self.adsr@[0] == ADSR::step_n_spec(
                    old(self).adsr@[0],
                    (end - start) as nat,
                ) && self.phase@[OSC_MOD as int] == advance_n_spec(
                    old(self).phase@[OSC_MOD as int] as int,
                    table@[old(self).note + pitch@[OSC_MOD as int]].increment as int,
                    (end - start) as nat,
                ) && self.phase@[PHASE_DRY as int] == advance_n_spec(
                    old(self).phase@[PHASE_DRY as int] as int,
                    table@[old(self).note + pitch@[0]].increment as int,
                    (end - start) as nat,
                ),
                !in_oscs(oscs@.take(j as int), 0) ==> self.adsr@[0] == old(self).adsr@[0]
                    && self.phase@[0] == old(self).phase@[0] && self.phase@[OSC_MOD as int] == old(
                    self,
                ).phase@[OSC_MOD as int] && self.phase@[PHASE_DRY as int] == old(self).phase@[
                    PHASE_DRY as int
                ] && self.dc_blocker@[0] == old(self).dc_blocker@[0] && self.dc_blocker@[
                    OSC_MOD as int
                ] == old(self).dc_blocker@[OSC_MOD as int],
                in_oscs(oscs@.take(j as int), 1) ==> self.adsr@[1] == ADSR::step_n_spec(
                    old(self).adsr@[1],
                    (end - start) as nat,
                ) && self.phase@[1] == advance_n_spec(
                    old(self).phase@[1] as int,
                    table@[old(self).note + pitch@[1]].increment as int,
                    (end - start) as nat,
                ),
                !in_oscs(oscs@.take(j as int), 1) ==> self.adsr@[1] == old(self).adsr@[1]
                    && self.phase@[1] == old(self).phase@[1] && self.dc_blocker@[1] == old(
                    self,
                ).dc_blocker@[1],
            decreases oscs@.len() - j,
        {
            let osc: usize = oscs[j];
            proof {
                let tj = oscs@.take(j as int);
                assert(!in_oscs(tj, osc as int)) by {
                    if in_oscs(tj, osc as int) {
                        let k = choose|k: int| 0 <= k < tj.len() && tj[k] == osc;
                        assert(oscs@[k] == osc);
                        assert(oscs@[k] < oscs@[j as int]);
                    }
                }
            }
            let ghost pre_self = *self;
            let ghost pre_out = output@;
            if osc == 0 {
                let off0: usize = pitch[0] as usize;
                let entry0: NoteData = table.at(self.note + off0);
                let offm: usize = pitch[OSC_MOD] as usize;
                let entry_mod: NoteData = table.at(self.note + offm);
                let l0: i64 = levels[0];
                let l2: i64 = levels[OSC_MOD];
                self.render_pm_block(output, start, end, l0, l2, entry0, entry_mod, rng);
                proof {
                    let tj = oscs@.take(j as int);
                    assert(!in_oscs(tj, 1)) by {
                        if in_oscs(tj, 1) {
                            let k = choose|k: int| 0 <= k < tj.len() && tj[k] == 1;
                            assert(oscs@[k] < oscs@[j as int]);
                        }
                    }
                    assert(Key::pm_entry_state(pre_self) == Key::pm_entry_state(*old(self)));
                    assert(entry0 == table@[old(self).note + pitch@[0]]);
                    assert(entry_mod == table@[old(self).note + pitch@[OSC_MOD as int]]);
                    assert(Key::pm_params(pre_self, entry0, entry_mod, l0 as int, l2 as int)
                        == Key::pm_params(
                        *old(self),
                        table@[old(self).note + pitch@[0]],
                        table@[old(self).note + pitch@[OSC_MOD as int]],
                        levels@[0] as int,
                        levels@[OSC_MOD as int] as int,
                    ));
                    if pm_deterministic(*old(self), oscs@) {
                        assert(in_oscs(oscs@, 0)) by {
                            assert(oscs@[j as int] == 0);
                        }
                        assert(!(pre_self.gen@[0] is Noise));
                        assert(!(pre_self.gen@[OSC_MOD as int] is Noise));
                    }
                }
            } else if osc == 1 {
                let off1: usize = pitch[1] as usize;
                let entry1: NoteData = table.at(self.note + off1);
                let l1: i64 = levels[1];
                self.render_osc_block(output, start, end, 1, l1, entry1, rng);
                proof {
                    let tj = oscs@.take(j as int);
                    assert(!in_oscs(tj, 1));
                    assert(Key::osc_entry_state(pre_self, 1) == Key::osc_entry_state(
                        *old(self),
                        1,
                    ));
                    assert(entry1 == table@[old(self).note + pitch@[1]]);
                    if pm_deterministic(*old(self), oscs@) {
                        assert(in_oscs(oscs@, 1)) by {
                            assert(oscs@[j as int] == 1);
                        }
                        assert(!(pre_self.gen@[1] is Noise));
                        assert forall|k: int| start <= k < end implies output@[k] == sat_add_spec(
                            pre_out[k] as int,
                            osc_mix_spec(
                                old(self).gen@[1],
                                Key::osc_entry_state(*old(self), 1),
                                table@[old(self).note + pitch@[1]].transition as int,
                                table@[old(self).note + pitch@[1]].increment as int,
                                old(self).velocity as int,
                                levels@[1] as int,
                                (k - start) as nat,
                            ),
                        ) by {
                            assert(output@[k] == sat_add_spec(
                                pre_out[k] as int,
                                osc_mix_spec(
                                    pre_self.gen@[1],
                                    Key::osc_entry_state(pre_self, 1),
                                    entry1.transition as int,
                                    entry1.increment as int,
                                    pre_self.velocity as int,
                                    l1 as int,
                                    (k - start) as nat,
                                ),
                            ));
                        }
                    }
                }
            }
            proof {
                let tj = oscs@.take(j as int);
                let tj1 = oscs@.take(j as int + 1);
                assert(tj1 =~= tj.push(oscs@[j as int]));
                assert forall|o: int| in_oscs(tj1, o) implies (in_oscs(tj, o) || o == oscs@[
                    j as int
                ]) by {
                    let k = choose|k: int| 0 <= k < tj1.len() && tj1[k] == o;
                    if k < j as int {
                        assert(tj[k] == o);
                    }
                }
                assert forall|o: int| in_oscs(tj, o) implies in_oscs(tj1, o) by {
                    let k = choose|k: int| 0 <= k < tj.len() && tj[k] == o;
                    assert(tj1[k] == o);
                }
                assert(tj1[j as int] == oscs@[j as int]);
                assert(in_oscs(tj1, oscs@[j as int] as int));
                if osc == 0 {
                    assert(pre_self.adsr@[0] == old(self).adsr@[0]);
                    assert(pre_self.phase@[OSC_MOD as int] == old(self).phase@[OSC_MOD as int]);
                    assert(pre_self.phase@[PHASE_DRY as int] == old(self).phase@[PHASE_DRY as int]);
                } else {
                    assert(self.adsr@[0] == pre_self.adsr@[0]);
                    assert(self.adsr@[2] == pre_self.adsr@[2]);
                    assert(self.phase@[0] == pre_self.phase@[0]);
                    assert(self.phase@[OSC_MOD as int] == pre_self.phase@[OSC_MOD as int]);
                    assert(self.phase@[PHASE_DRY as int] == pre_self.phase@[PHASE_DRY as int]);
                    assert(self.dc_blocker@[0] == pre_self.dc_blocker@[0]);
                    assert(self.dc_blocker@[OSC_MOD as int] == pre_self.dc_blocker@[OSC_MOD as int]);
                    assert(in_oscs(tj1, 0) ==> in_oscs(tj, 0));
                }
                if osc == 1 {
                    assert(pre_self.adsr@[1] == old(self).adsr@[1]);
                    assert(pre_self.phase@[1] == old(self).phase@[1]);
                } else {
                    assert(self.adsr@[1] == pre_self.adsr@[1]);
                    assert(self.phase@[1] == pre_self.phase@[1]);
                    assert(self.dc_blocker@[1] == pre_self.dc_blocker@[1]);
                    assert(in_oscs(tj1, 1) ==> in_oscs(tj, 1));
                }
                if pm_deterministic(*old(self), oscs@) {
                    assert forall|k: int| start <= k < end implies #[trigger] output@[k]
                        == pm_block_out_spec(
                        *old(self),
                        tj1,
                        table@,
                        pitch@,
                        levels@,
                        old(output)@[k] as int,
                        (k - start) as nat,
                    ) by {
                        assert(pre_out[k] == pm_block_out_spec(
                            *old(self),
                            tj,
                            table@,
                            pitch@,
                            levels@,
                            old(output)@[k] as int,
                            (k - start) as nat,
                        ));
                        if osc == 0 {
                            assert(!in_oscs(tj, 0));
                            assert(!in_oscs(tj, 1)) by {
                                if in_oscs(tj, 1) {
                                    let kk = choose|kk: int| 0 <= kk < tj.len() && tj[kk] == 1;
                                    assert(oscs@[kk] < oscs@[j as int]);
                                }
                            }
                            assert(!in_oscs(tj1, 1)) by {
                                if in_oscs(tj1, 1) {
                                    assert(in_oscs(tj, 1) || 1 == oscs@[j as int] as int);
                                }
                            }
                            assert(pre_out[k] == old(output)@[k]);
                            assert(in_oscs(tj1, 0));
                        } else if osc == 1 {
                            assert(!in_oscs(tj, 1));
                            assert(in_oscs(tj1, 1));
                            assert(in_oscs(tj1, 0) == in_oscs(tj, 0));
                        } else {
                            assert(output@[k] == pre_out[k]);
                            assert(in_oscs(tj1, 0) == in_oscs(tj, 0));
                            assert(in_oscs(tj1, 1) == in_oscs(tj, 1));
                        }
                    }
                }
            }
            j += 1;
        }
        proof {
            assert(oscs@.take(oscs@.len() as int) =~= oscs@);
        }
    }

    /// Evil modulation: oscillator 1 renders through its DC blocker and its
    /// phase is then driven by oscillator 3's envelope-shaped, level-scaled
    /// waveform; oscillator 3's phase never advances normally (it is pinned
    /// to oscillator 1's increment); oscillator 2 renders independently; no
    /// dry signal is mixed.
    #[verifier::rlimit(100)]
    #[verifier::spinoff_prover]
    pub fn process_1evil_1sub(
        &mut self,
        output: &mut Vec<i64>,
        start: usize,
        end: usize,
        pitch: &Vec<u64>,
        levels: &Vec<i64>,
        rng: &mut SmallRng,
        oscs: &Vec<usize>,
        table: &TuningTable,
    )
        requires
            old(self).wf(),
            start <= end <= old(output)@.len(),
            pitch@.len() == OSC_NR,
            forall|i: int| 0 <= i < OSC_NR ==> #[trigger] pitch@[i] <= PITCH_MAX,
            levels@.len() == OSC_NR,
            forall|i: int| 0 <= i < OSC_NR ==> 0 <= #[trigger] levels@[i] <= Q_ONE,
            forall|j: int| 0 <= j < oscs@.len() ==> #[trigger] oscs@[j] < OSC_NR,
            forall|j: int, k: int| 0 <= j < k < oscs@.len() ==> oscs@[j] < oscs@[k],
            table.wf(),
        ensures
            final(self).wf(),
            final(output)@.len() == old(output)@.len(),
            forall|k: int|
                0 <= k < old(output)@.len() && !(start <= k < end) ==> final(output)@[k] == old(
                    output,
                )@[k],
            final(self).gen@ == old(self).gen@,
            final(self).modulation == old(self).modulation,
            final(self).note == old(self).note,
            final(self).velocity == old(self).velocity,
            final(self).phase@[PHASE_DRY as int] == old(self).phase@[PHASE_DRY as int],
            in_oscs(oscs@, 0) ==> final(self).adsr@[0] == ADSR::step_n_spec(
                old(self).adsr@[0],
                (end - start) as nat,
            ) && final(self).adsr@[2] == ADSR::step_n_spec(
                old(self).adsr@[2],
                (end - start) as nat,
            ) && (end > start ==> final(self).phase@[OSC_MOD as int] == table@[old(self).note
                + pitch@[0]].increment),
            !in_oscs(oscs@, 0) ==> final(self).adsr@[0] == old(self).adsr@[0] && final(self).adsr@[2] == old(self).adsr@[2] && final(self).phase@[0] == old(self).phase@[0]
                && final(self).phase@[OSC_MOD as int] == old(self).phase@[OSC_MOD as int] && final(self).dc_blocker@[0] == old(self).dc_blocker@[0] && final(self).dc_blocker@[OSC_MOD as int]
                == old(self).dc_blocker@[OSC_MOD as int],
            in_oscs(oscs@, 1) ==> final(self).adsr@[1] == ADSR::step_n_spec(
                old(self).adsr@[1],
                (end - start) as nat,
            ) && final(self).phase@[1] == advance_n_spec(
                old(self).phase@[1] as int,
                table@[old(self).note + pitch@[1]].increment as int,
                (end - start) as nat,
            ),
            !in_oscs(oscs@, 1) ==> final(self).adsr@[1] == old(self).adsr@[1] && final(self).phase@[1] == old(self).phase@[1] && final(self).dc_blocker@[1] == old(
                self,
            ).dc_blocker@[1],
            in_oscs(oscs@, 0) && evil_deterministic(*old(self), oscs@) ==> {
                let p = Key::evil_params(
                    *old(self),
                    table@[old(self).note + pitch@[0]],
                    table@[old(self).note + pitch@[OSC_MOD as int]],
                    levels@[0] as int,
                    levels@[OSC_MOD as int] as int,
                );
                let st0 = Key::evil_entry_state(*old(self));
                &&& final(self).phase@[0] == evil_state_n_spec(p, st0, (end - start) as nat).phase0
                &&& final(self).dc_blocker@[0] == evil_state_n_spec(
                    p,
                    st0,
                    (end - start) as nat,
                ).dc0
                &&& final(self).dc_blocker@[OSC_MOD as int] == evil_state_n_spec(
                    p,
                    st0,
                    (end - start) as nat,
                ).dc_mod
            },
            evil_deterministic(*old(self), oscs@) ==> forall|k: int|
                start <= k < end ==> #[trigger] final(output)@[k] == evil_block_out_spec(
                    *old(self),
                    oscs@,
                    table@,
                    pitch@,
                    levels@,
                    old(output)@[k] as int,
                    (k - start) as nat,
                ),
    {
        let mut j: usize = 0;
        while j < oscs.len()
            invariant
                0 <= j <= oscs@.len(),
                self.wf(),
                start <= end <= output@.len(),
                output@.len() == old(output)@.len(),
                forall|k: int|
                    0 <= k < output@.len() && !(start <= k < end) ==> output@[k] == old(output)@[k],
                pitch@.len() == OSC_NR,
                forall|i: int| 0 <= i < OSC_NR ==> #[trigger] pitch@[i] <= PITCH_MAX,
                levels@.len() == OSC_NR,
                forall|i: int| 0 <= i < OSC_NR ==> 0 <= #[trigger] levels@[i] <= Q_ONE,
                forall|jj: int| 0 <= jj < oscs@.len() ==> #[trigger] oscs@[jj] < OSC_NR,
                forall|jj: int, kk: int| 0 <= jj < kk < oscs@.len() ==> oscs@[jj] < oscs@[kk],
                table.wf(),
                self.gen@ == old(self).gen@,
                self.modulation == old(self).modulation,
                self.note == old(self).note,
                self.velocity == old(self).velocity,
                self.phase@[PHASE_DRY as int] == old(self).phase@[PHASE_DRY as int],
                in_oscs(oscs@.take(j as int), 0) && evil_deterministic(*old(self), oscs@) ==> {
                    let p = Key::evil_params(
                        *old(self),
                        table@[old(self).note + pitch@[0]],
                        table@[old(self).note + pitch@[OSC_MOD as int]],
                        levels@[0] as int,
                        levels@[OSC_MOD as int] as int,
                    );
                    let st0 = Key::evil_entry_state(*old(self));
                    &&& self.phase@[0] == evil_state_n_spec(p, st0, (end - start) as nat).phase0
                    &&& self.dc_blocker@[0] == evil_state_n_spec(p, st0, (end - start) as nat).dc0
                    &&& self.dc_blocker@[OSC_MOD as int] == evil_state_n_spec(
                        p,
                        st0,
                        (end - start) as nat,
                    ).dc_mod
                },
                evil_deterministic(*old(self), oscs@) ==> forall|k: int|
                    start <= k < end ==> #[trigger] output@[k] == evil_block_out_spec(
                        *old(self),
                        oscs@.take(j as int),
                        table@,
                        pitch@,
                        levels@,
                        old(output)@[k] as int,
                        (k - start) as nat,
                    ),
                in_oscs(oscs@.take(j as int), 0) ==> self.adsr@[0] == ADSR::step_n_spec(
                    old(self).adsr@[0],
                    (end - start) as nat,
                ) && self.adsr@[2] == ADSR::step_n_spec(
                    old(self).adsr@[2],
                    (end - start) as nat,
                ) && (end > start ==> self.phase@[OSC_MOD as int] == table@[old(self).note
                    + pitch@[0]].increment),
                !in_oscs(oscs@.take(j as int), 0) ==> self.adsr@[0] == old(self).adsr@[0]
                    && self.adsr@[2] == old(self).adsr@[2] && self.phase@[0] == old(self).phase@[0]
                    && self.phase@[OSC_MOD as int] == old(self).phase@[OSC_MOD as int]
                    && self.dc_blocker@[0] == old(self).dc_blocker@[0] && self.dc_blocker@[
                    OSC_MOD as int
                ] == old(self).dc_blocker@[OSC_MOD as int],
                in_oscs(oscs@.take(j as int), 1) ==> self.adsr@[1] == ADSR::step_n_spec(
                    old(self).adsr@[1],
                    (end - start) as nat,
                ) && self.phase@[1] == advance_n_spec(
                    old(self).phase@[1] as int,
                    table@[old(self).note + pitch@[1]].increment as int,
                    (end - start) as nat,
                ),
                !in_oscs(oscs@.take(j as int), 1) ==> self.adsr@[1] == old(self).adsr@[1]
                    && self.phase@[1] == old(self).phase@[1] && self.dc_blocker@[1] == old(
                    self,
                ).dc_blocker@[1],
            decreases oscs@.len() - j,
        {
            let osc: usize = oscs[j];
            proof {
                let tj = oscs@.take(j as int);
                assert(!in_oscs(tj, osc as int)) by {
                    if in_oscs(tj, osc as int) {
                        let k = choose|k: int| 0 <= k < tj.len() && tj[k] == osc;
                        assert(oscs@[k] == osc);
                        assert(oscs@[k] < oscs@[j as int]);
                    }
                }
            }
            let ghost pre_self = *self;
            let ghost pre_out = output@;
            if osc == 0 {
                let off0: usize = pitch[0] as usize;
                let entry0: NoteData = table.at(self.note + off0);
                let offm: usize = pitch[OSC_MOD] as usize;
                let entry_mod: NoteData = table.at(self.note + offm);
                let l0: i64 = levels[0];
                let l2: i64 = levels[OSC_MOD];
                self.render_evil_block(output, start, end, l0, l2, entry0, entry_mod, rng);
                proof {
                    assert(Key::evil_entry_state(pre_self) == Key::evil_entry_state(*old(self)));
                    assert(entry0 == table@[old(self).note + pitch@[0]]);
                    assert(entry_mod == table@[old(self).note + pitch@[OSC_MOD as int]]);
                    assert(Key::evil_params(pre_self, entry0, entry_mod, l0 as int, l2 as int)
                        == Key::evil_params(
                        *old(self),
                        table@[old(self).note + pitch@[0]],
                        table@[old(self).note + pitch@[OSC_MOD as int]],
                        levels@[0] as int,
                        levels@[OSC_MOD as int] as int,
                    ));
                    if evil_deterministic(*old(self), oscs@) {
                        assert(in_oscs(oscs@, 0)) by {
                            assert(oscs@[j as int] == 0);
                        }
                        assert(!(pre_self.gen@[0] is Noise));
                        assert(!(pre_self.gen@[OSC_MOD as int] is Noise));
                    }
                }
            } else if osc == 1 {
                let off1: usize = pitch[1] as usize;
                let entry1: NoteData = table.at(self.note + off1);
                let l1: i64 = levels[1];
                self.render_osc_block(output, start, end, 1, l1, entry1, rng);
                proof {
                    assert(Key::osc_entry_state(pre_self, 1) == Key::osc_entry_state(
                        *old(self),
                        1,
                    ));
                    assert(entry1 == table@[old(self).note + pitch@[1]]);
                    if evil_deterministic(*old(self), oscs@) {
                        assert(in_oscs(oscs@, 1)) by {
                            assert(oscs@[j as int] == 1);
                        }
                        assert(!(pre_self.gen@[1] is Noise));
                        assert forall|k: int| start <= k < end implies output@[k] == sat_add_spec(
                            pre_out[k] as int,
                            osc_mix_spec(
                                old(self).gen@[1],
                                Key::osc_entry_state(*old(self), 1),
                                table@[old(self).note + pitch@[1]].transition as int,
                                table@[old(self).note + pitch@[1]].increment as int,
                                old(self).velocity as int,
                                levels@[1] as int,
                                (k - start) as nat,
                            ),
                        ) by {
                            assert(output@[k] == sat_add_spec(
                                pre_out[k] as int,
                                osc_mix_spec(
                                    pre_self.gen@[1],
                                    Key::osc_entry_state(pre_self, 1),
                                    entry1.transition as int,
                                    entry1.increment as int,
                                    pre_self.velocity as int,
                                    l1 as int,
                                    (k - start) as nat,
                                ),
                            ));
                        }
                    }
                }
            }
            proof {
                let tj = oscs@.take(j as int);
                let tj1 = oscs@.take(j as int + 1);
                assert(tj1 =~= tj.push(oscs@[j as int]));
                assert forall|o: int| in_oscs(tj1, o) implies (in_oscs(tj, o) || o == oscs@[
                    j as int
                ]) by {
                    let k = choose|k: int| 0 <= k < tj1.len() && tj1[k] == o;
                    if k < j as int {
                        assert(tj[k] == o);
                    }
                }
                assert forall|o: int| in_oscs(tj, o) implies in_oscs(tj1, o) by {
                    let k = choose|k: int| 0 <= k < tj.len() && tj[k] == o;
                    assert(tj1[k] == o);
                }
                assert(tj1[j as int] == oscs@[j as int]);
                assert(in_oscs(tj1, oscs@[j as int] as int));
                if osc == 0 {
                    assert(pre_self.adsr@[0] == old(self).adsr@[0]);
                    assert(pre_self.adsr@[2] == old(self).adsr@[2]);
                    assert(pre_self.phase@[OSC_MOD as int] == old(self).phase@[OSC_MOD as int]);
                } else {
                    assert(self.adsr@[0] == pre_self.adsr@[0]);
                    assert(self.adsr@[2] == pre_self.adsr@[2]);
                    assert(self.phase@[0] == pre_self.phase@[0]);
                    assert(self.phase@[OSC_MOD as int] == pre_self.phase@[OSC_MOD as int]);
                    assert(self.dc_blocker@[0] == pre_self.dc_blocker@[0]);
                    assert(self.dc_blocker@[OSC_MOD as int] == pre_self.dc_blocker@[OSC_MOD as int]);
                    assert(in_oscs(tj1, 0) ==> in_oscs(tj, 0));
                }
                if osc == 1 {
                    assert(pre_self.adsr@[1] == old(self).adsr@[1]);
                    assert(pre_self.phase@[1] == old(self).phase@[1]);
                } else {
                    assert(self.adsr@[1] == pre_self.adsr@[1]);
                    assert(self.phase@[1] == pre_self.phase@[1]);
                    assert(self.dc_blocker@[1] == pre_self.dc_blocker@[1]);
                    assert(in_oscs(tj1, 1) ==> in_oscs(tj, 1));
                }
                assert(self.phase@[PHASE_DRY as int] == pre_self.phase@[PHASE_DRY as int]);
                if evil_deterministic(*old(self), oscs@) {
                    assert forall|k: int| start <= k < end implies #[trigger] output@[k]
                        == evil_block_out_spec(
                        *old(self),
                        tj1,
                        table@,
                        pitch@,
                        levels@,
                        old(output)@[k] as int,
                        (k - start) as nat,
                    ) by {
                        assert(pre_out[k] == evil_block_out_spec(
                            *old(self),
                            tj,
                            table@,
                            pitch@,
                            levels@,
                            old(output)@[k] as int,
                            (k - start) as nat,
                        ));
                        if osc == 0 {
                            assert(!in_oscs(tj, 0));
                            assert(!in_oscs(tj, 1)) by {
                                if in_oscs(tj, 1) {
                                    let kk = choose|kk: int| 0 <= kk < tj.len() && tj[kk] == 1;
                                    assert(oscs@[kk] < oscs@[j as int]);
                                }
                            }
                            assert(!in_oscs(tj1, 1)) by {
                                if in_oscs(tj1, 1) {
                                    assert(in_oscs(tj, 1) || 1 == oscs@[j as int] as int);
                                }
                            }
                            assert(pre_out[k] == old(output)@[k]);
                            assert(in_oscs(tj1, 0));
                        } else if osc == 1 {
                            assert(!in_oscs(tj, 1));
                            assert(in_oscs(tj1, 1));
                            assert(in_oscs(tj1, 0) == in_oscs(tj, 0));
                        } else {
                            assert(output@[k] == pre_out[k]);
                            assert(in_oscs(tj1, 0) == in_oscs(tj, 0));
                            assert(in_oscs(tj1, 1) == in_oscs(tj, 1));
                        }
                    }
                }
            }
            j += 1;
        }
        proof {
            assert(oscs@.take(oscs@.len() as int) =~= oscs@);
        }
    }

    /// Reads one oscillator's waveform choice, re-rolling a `Random` choice
    /// into a concrete waveform.
    fn resolve_waveform(&self, params: &ParamStore, osc: usize, rng: &mut SmallRng) -> (r: Waveform)
        requires
            params.wf(),
            osc < OSC_NR,
        ensures
            !(r is Random),
            !(params.waveforms@[osc as int] is Random) ==> r == params.waveforms@[osc as int],
    {
        let w = params.get_waveforms()[osc];
        match w {
            Waveform::Random => {
                let d = draw_waveform_index(rng);
                w.resolve(d)
            },
            _ => w,
        }
    }
}

} // verus!

//! The shared parameter store: envelope timings, waveform choice, mix
//! level, quality flag, modulation mode and pitch offset per oscillator.
//!
//! Host-facing float values are held as their IEEE-754 bit patterns (the
//! persisted form), beside the integer forms the render path works with
//! (sample counts, Q30 amplitudes, table offsets). The caller derives the
//! integer forms from the float values at the boundary and hands both in;
//! the store clamps them into their documented ranges.

use vstd::prelude::*;
use crate::adsr::{EnvelopeSamples, MAX_SAMPLES};
use crate::fixed::{clamp_q, clamp_q_spec, Q_ONE};
use crate::waveform::{Modulation, Waveform};

verus! {

/// Number of oscillators per voice.
pub const OSC_NR: usize = 3;

/// Largest pitch offset, in tuning-table steps.
pub const PITCH_MAX: u64 = 48;

pub const PARAMETER_ATTACK: u32 = 0;

pub const PARAMETER_DECAY: u32 = 1;

pub const PARAMETER_SUSTAIN: u32 = 2;

pub const PARAMETER_RELEASE: u32 = 3;

pub const PARAMETER_WAVEFORM_1: u32 = 4;

pub const PARAMETER_WAVEFORM_2: u32 = 5;

pub const PARAMETER_WAVEFORM_3: u32 = 6;

pub const PARAMETER_LEVEL_1: u32 = 7;

pub const PARAMETER_LEVEL_2: u32 = 8;

pub const PARAMETER_LEVEL_3: u32 = 9;

pub const PARAMETER_HQ_1: u32 = 10;

pub const PARAMETER_HQ_2: u32 = 11;

pub const PARAMETER_HQ_3: u32 = 12;

pub const PARAMETER_MODULATION: u32 = 13;

pub const PARAMETER_PITCH_1: u32 = 14;

pub const PARAMETER_PITCH_2: u32 = 15;

pub const PARAMETER_PITCH_3: u32 = 16;

/// Number of host-facing parameters.
pub const PARAMETER_NR: u32 = 17;

/// The envelope timings as the host sees them: seconds (and the sustain
/// fraction) as f32 bit patterns. This is the persisted form.
#[derive(Clone, Copy, PartialEq, Eq, Structural, Debug)]
pub struct Envelope {
    pub attack_bits: u32,
    pub decay_bits: u32,
    pub sustain_bits: u32,
    pub release_bits: u32,
}

/// One host parameter value, in every form a parameter group might store:
/// the caller computes each form from the host's double with a plain cast,
/// and the store keeps the ones its target group needs.
#[derive(Clone, Copy, PartialEq, Eq, Structural, Debug)]
pub struct ParamValue {
    /// The value narrowed to f32, as bits: the persisted form of the float
    /// parameter groups.
    pub bits32: u32,
    /// The raw f64 bits of the value.
    pub bits64: u64,
    /// The value truncated toward zero (negative values as 0): enumerated
    /// choices and pitch offsets.
    pub whole: u64,
    /// The value scaled by Q_ONE, truncated: unit-range amplitudes.
    pub q30: i64,
    /// The value multiplied by the current sample rate, truncated:
    /// envelope durations.
    pub samples: u64,
}

/// Cap a duration at the store's representable range.
pub open spec fn cap_samples_spec(s: int) -> u64 {
    if s > MAX_SAMPLES as int {
        MAX_SAMPLES
    } else {
        s as u64
    }
}

/// Cap a pitch offset at the tuning table's headroom.
pub open spec fn cap_pitch_spec(p: int) -> u64 {
    if p > PITCH_MAX as int {
        PITCH_MAX
    } else {
        p as u64
    }
}

/// Whether an f64 with these bits compares unequal to 0.0 (the quality
/// flag test): exactly when its non-sign bits are not all zero.
pub open spec fn f64_bits_nonzero_spec(bits: u64) -> bool {
    bits & 0x7FFF_FFFF_FFFF_FFFF != 0
}

/// The parameter store.
pub struct ParamStore {
    /// Envelope seconds, persisted form.
    pub envelope: Envelope,
    /// Envelope sample counts for the current sample rate, render form.
    pub envelope_samples: EnvelopeSamples,
    /// Waveform choice per oscillator.
    pub waveforms: Vec<Waveform>,
    /// Mix level per oscillator, persisted form (f32 bits).
    pub levels_bits: Vec<u32>,
    /// Mix level per oscillator in Q30, clamped to [0, 1], render form.
    pub levels_q: Vec<i64>,
    /// Quality flag per oscillator.
    pub hq: Vec<bool>,
    /// Modulation algorithm.
    pub modulation: Modulation,
    /// Pitch offset per oscillator as the host's double bits.
    pub pitch_bits: Vec<u64>,
    /// Pitch offset per oscillator in tuning-table steps, render form.
    pub pitch_offset: Vec<u64>,
}

impl ParamStore {
    /// Every per-oscillator group holds one entry per oscillator; every
    /// render-form value sits in its documented range.
    pub open spec fn wf(self) -> bool {
        &&& self.envelope_samples.wf()
        &&& self.waveforms@.len() == OSC_NR
        &&& self.levels_bits@.len() == OSC_NR
        &&& self.levels_q@.len() == OSC_NR
        &&& self.hq@.len() == OSC_NR
        &&& self.pitch_bits@.len() == OSC_NR
        &&& self.pitch_offset@.len() == OSC_NR
        &&& forall|i: int| 0 <= i < OSC_NR ==> 0 <= #[trigger] self.levels_q@[i] <= Q_ONE
        &&& forall|i: int| 0 <= i < OSC_NR ==> #[trigger] self.pitch_offset@[i] <= PITCH_MAX
    }

    pub open spec fn envelope_unchanged(pre: ParamStore, post: ParamStore) -> bool {
        &&& post.envelope == pre.envelope
        &&& post.envelope_samples == pre.envelope_samples
    }

    pub open spec fn waveforms_unchanged(pre: ParamStore, post: ParamStore) -> bool {
        post.waveforms@ == pre.waveforms@
    }

    pub open spec fn levels_unchanged(pre: ParamStore, post: ParamStore) -> bool {
        &&& post.levels_bits@ == pre.levels_bits@
        &&& post.levels_q@ == pre.levels_q@
    }

    pub open spec fn hq_unchanged(pre: ParamStore, post: ParamStore) -> bool {
        post.hq@ == pre.hq@
    }

    pub open spec fn modulation_unchanged(pre: ParamStore, post: ParamStore) -> bool {
        post.modulation == pre.modulation
    }

    pub open spec fn pitch_unchanged(pre: ParamStore, post: ParamStore) -> bool {
        &&& post.pitch_bits@ == pre.pitch_bits@
        &&& post.pitch_offset@ == pre.pitch_offset@
    }

    /// What applying one parameter-change event does: exactly the targeted
    /// field group changes, to the event's (range-capped) value.
    pub open spec fn param_apply_rel(
        pre: ParamStore,
        post: ParamStore,
        id: u32,
        v: ParamValue,
    ) -> bool {
        if id == PARAMETER_ATTACK {
            &&& post.envelope == (Envelope { attack_bits: v.bits32, ..pre.envelope })
            &&& post.envelope_samples == (EnvelopeSamples {
                attack: cap_samples_spec(v.samples as int),
                ..pre.envelope_samples
            })
            &&& Self::waveforms_unchanged(pre, post)
            &&& Self::levels_unchanged(pre, post)
            &&& Self::hq_unchanged(pre, post)
            &&& Self::modulation_unchanged(pre, post)
            &&& Self::pitch_unchanged(pre, post)
        } else if id == PARAMETER_DECAY {
            &&& post.envelope == (Envelope { decay_bits: v.bits32, ..pre.envelope })
            &&& post.envelope_samples == (EnvelopeSamples {
                decay: cap_samples_spec(v.samples as int),
                ..pre.envelope_samples
            })
            &&& Self::waveforms_unchanged(pre, post)
            &&& Self::levels_unchanged(pre, post)
            &&& Self::hq_unchanged(pre, post)
            &&& Self::modulation_unchanged(pre, post)
            &&& Self::pitch_unchanged(pre, post)
        } else if id == PARAMETER_SUSTAIN {
            &&& post.envelope == (Envelope { sustain_bits: v.bits32, ..pre.envelope })
            &&& post.envelope_samples == (EnvelopeSamples {
                sustain: clamp_q_spec(v.q30 as int) as i64,
                ..pre.envelope_samples
            })
            &&& Self::waveforms_unchanged(pre, post)
            &&& Self::levels_unchanged(pre, post)
            &&& Self::hq_unchanged(pre, post)
            &&& Self::modulation_unchanged(pre, post)
            &&& Self::pitch_unchanged(pre, post)
        } else if id == PARAMETER_RELEASE {
            &&& post.envelope == (Envelope { release_bits: v.bits32, ..pre.envelope })
            &&& post.envelope_samples == (EnvelopeSamples {
                release: cap_samples_spec(v.samples as int),
                ..pre.envelope_samples
            })
            &&& Self::waveforms_unchanged(pre, post)
            &&& Self::levels_unchanged(pre, post)
            &&& Self::hq_unchanged(pre, post)
            &&& Self::modulation_unchanged(pre, post)
            &&& Self::pitch_unchanged(pre, post)
        } else if PARAMETER_WAVEFORM_1 <= id <= PARAMETER_WAVEFORM_3 {
            &&& post.waveforms@ == pre.waveforms@.update(
                id - PARAMETER_WAVEFORM_1,
                Waveform::from_index_spec(v.whole as int),
            )
            &&& Self::envelope_unchanged(pre, post)
            &&& Self::levels_unchanged(pre, post)
            &&& Self::hq_unchanged(pre, post)
            &&& Self::modulation_unchanged(pre, post)
            &&& Self::pitch_unchanged(pre, post)
        } else if PARAMETER_LEVEL_1 <= id <= PARAMETER_LEVEL_3 {
            &&& post.levels_bits@ == pre.levels_bits@.update(id - PARAMETER_LEVEL_1, v.bits32)
            &&& post.levels_q@ == pre.levels_q@.update(
                id - PARAMETER_LEVEL_1,
                clamp_q_spec(v.q30 as int) as i64,
            )
            &&& Self::envelope_unchanged(pre, post)
            &&& Self::waveforms_unchanged(pre, post)
            &&& Self::hq_unchanged(pre, post)
            &&& Self::modulation_unchanged(pre, post)
            &&& Self::pitch_unchanged(pre, post)
        } else if PARAMETER_HQ_1 <= id <= PARAMETER_HQ_3 {
            &&& post.hq@ == pre.hq@.update(
                id - PARAMETER_HQ_1,
                f64_bits_nonzero_spec(v.bits64),
            )
            &&& Self::envelope_unchanged(pre, post)
            &&& Self::waveforms_unchanged(pre, post)
            &&& Self::levels_unchanged(pre, post)
            &&& Self::modulation_unchanged(pre, post)
            &&& Self::pitch_unchanged(pre, post)
        } else if id == PARAMETER_MODULATION {
            &&& post.modulation == Modulation::from_index_spec(v.whole as int)
            &&& Self::envelope_unchanged(pre, post)
            &&& Self::waveforms_unchanged(pre, post)
            &&& Self::levels_unchanged(pre, post)
            &&& Self::hq_unchanged(pre, post)
            &&& Self::pitch_unchanged(pre, post)
        } else if PARAMETER_PITCH_1 <= id <= PARAMETER_PITCH_3 {
            &&& post.pitch_bits@ == pre.pitch_bits@.update(id - PARAMETER_PITCH_1, v.bits64)
            &&& post.pitch_offset@ == pre.pitch_offset@.update(
                id - PARAMETER_PITCH_1,
                cap_pitch_spec(v.whole as int),
            )
            &&& Self::envelope_unchanged(pre, post)
            &&& Self::waveforms_unchanged(pre, post)
            &&& Self::levels_unchanged(pre, post)
            &&& Self::hq_unchanged(pre, post)
            &&& Self::modulation_unchanged(pre, post)
        } else {
            &&& Self::envelope_unchanged(pre, post)
            &&& Self::waveforms_unchanged(pre, post)
            &&& Self::levels_unchanged(pre, post)
            &&& Self::hq_unchanged(pre, post)
            &&& Self::modulation_unchanged(pre, post)
            &&& Self::pitch_unchanged(pre, post)
        }
    }

    /// A fresh store with the default patch: a 10 ms attack, 100 ms decay
    /// and release, 80% sustain; sine on oscillator 1 at full level, the
    /// others silent; high quality on; independent mixing; every pitch
    /// offset at the table's middle position.
    pub fn new(sample_rate: u64) -> (r: ParamStore)
        requires
            sample_rate <= MAX_SAMPLES,
        ensures
            r.wf(),
            r.envelope == (Envelope {
                attack_bits: 0x3C23_D70A,
                decay_bits: 0x3DCC_CCCD,
                sustain_bits: 0x3F4C_CCCD,
                release_bits: 0x3DCC_CCCD,
            }),
            r.envelope_samples == (EnvelopeSamples {
                attack: (sample_rate / 100) as u64,
                decay: (sample_rate / 10) as u64,
                sustain: (4 * (Q_ONE as int) / 5) as i64,
                release: (sample_rate / 10) as u64,
            }),
            r.waveforms@ =~= seq![Waveform::Sine, Waveform::Sine, Waveform::Sine],
            r.levels_bits@ =~= seq![0x3F80_0000u32, 0u32, 0u32],
            r.levels_q@ =~= seq![Q_ONE, 0i64, 0i64],
            r.hq@ =~= seq![true, true, true],
            r.modulation == Modulation::Independent,
            r.pitch_bits@ =~= seq![
                0x4038_0000_0000_0000u64,
                0x4038_0000_0000_0000u64,
                0x4038_0000_0000_0000u64,
            ],
            r.pitch_offset@ =~= seq![24u64, 24u64, 24u64],
    {
        let mut waveforms: Vec<Waveform> = Vec::new();
        waveforms.push(Waveform::Sine);
        waveforms.push(Waveform::Sine);
        waveforms.push(Waveform::Sine);
        let mut levels_bits: Vec<u32> = Vec::new();
        levels_bits.push(0x3F80_0000);
        levels_bits.push(0);
        levels_bits.push(0);
        let mut levels_q: Vec<i64> = Vec::new();
        levels_q.push(Q_ONE);
        levels_q.push(0);
        levels_q.push(0);
        let mut hq: Vec<bool> = Vec::new();
        hq.push(true);
        hq.push(true);
        hq.push(true);
        let mut pitch_bits: Vec<u64> = Vec::new();
        pitch_bits.push(0x4038_0000_0000_0000);
        pitch_bits.push(0x4038_0000_0000_0000);
        pitch_bits.push(0x4038_0000_0000_0000);
        let mut pitch_offset: Vec<u64> = Vec::new();
        pitch_offset.push(24);
        pitch_offset.push(24);
        pitch_offset.push(24);
        ParamStore {
            envelope: Envelope {
                attack_bits: 0x3C23_D70A,
                decay_bits: 0x3DCC_CCCD,
                sustain_bits: 0x3F4C_CCCD,
                release_bits: 0x3DCC_CCCD,
            },
            envelope_samples: EnvelopeSamples {
                attack: sample_rate / 100,
                decay: sample_rate / 10,
                sustain: 4 * (Q_ONE / 5) + (4 * (Q_ONE % 5)) / 5,
                release: sample_rate / 10,
            },
            waveforms,
            levels_bits,
            levels_q,
            hq,
            modulation: Modulation::Independent,
            pitch_bits,
            pitch_offset,
        }
    }

    /// Applies one parameter-change event: stores the event's value in the
    /// field group its id names (capped into range), touches nothing else,
    /// and says whether the id names a parameter at all.
    pub fn apply_param_event(&mut self, id: u32, v: ParamValue) -> (known: bool)
        requires
            old(self).wf(),
        ensures
            final(self).wf(),
            ParamStore::param_apply_rel(*old(self), *final(self), id, v),
            known == (id < PARAMETER_NR),
    {
        if id == PARAMETER_ATTACK {
            self.envelope.attack_bits = v.bits32;
            self.envelope_samples.attack = cap_samples(v.samples);
            true
        } else if id == PARAMETER_DECAY {
            self.envelope.decay_bits = v.bits32;
            self.envelope_samples.decay = cap_samples(v.samples);
            true
        } else if id == PARAMETER_SUSTAIN {
            self.envelope.sustain_bits = v.bits32;
            self.envelope_samples.sustain = clamp_q(v.q30);
            true
        } else if id == PARAMETER_RELEASE {
            self.envelope.release_bits = v.bits32;
            self.envelope_samples.release = cap_samples(v.samples);
            true
        } else if id >= PARAMETER_WAVEFORM_1 && id <= PARAMETER_WAVEFORM_3 {
            let osc: usize = (id - PARAMETER_WAVEFORM_1) as usize;
            self.waveforms[osc] = Waveform::from_index(v.whole);
            true
        } else if id >= PARAMETER_LEVEL_1 && id <= PARAMETER_LEVEL_3 {
            let osc: usize = (id - PARAMETER_LEVEL_1) as usize;
            self.levels_bits[osc] = v.bits32;
            self.levels_q[osc] = clamp_q(v.q30);
            true
        } else if id >= PARAMETER_HQ_1 && id <= PARAMETER_HQ_3 {
            let osc: usize = (id - PARAMETER_HQ_1) as usize;
            self.hq[osc] = v.bits64 & 0x7FFF_FFFF_FFFF_FFFF != 0;
            true
        } else if id == PARAMETER_MODULATION {
            self.modulation = Modulation::from_index(v.whole);
            true
        } else if id >= PARAMETER_PITCH_1 && id <= PARAMETER_PITCH_3 {
            let osc: usize = (id - PARAMETER_PITCH_1) as usize;
            self.pitch_bits[osc] = v.bits64;
            self.pitch_offset[osc] = cap_pitch(v.whole);
            true
        } else {
            false
        }
    }

    /// The envelope timings in their persisted (f32 bits) form.
    pub fn get_envelope(&self) -> (r: &Envelope)
        ensures
            *r == self.envelope,
    {
        &self.envelope
    }

    /// The envelope timings in their render (sample count) form.
    pub fn get_envelope_samples(&self) -> (r: &EnvelopeSamples)
        ensures
            *r == self.envelope_samples,
    {
        &self.envelope_samples
    }

    /// The waveform choices.
    pub fn get_waveforms(&self) -> (r: &Vec<Waveform>)
        ensures
            r@ == self.waveforms@,
    {
        &self.waveforms
    }

    /// The mix levels in Q30 (render form).
    pub fn get_levels(&self) -> (r: &Vec<i64>)
        ensures
            r@ == self.levels_q@,
    {
        &self.levels_q
    }

    /// The mix levels in their persisted (f32 bits) form.
    pub fn get_levels_bits(&self) -> (r: &Vec<u32>)
        ensures
            r@ == self.levels_bits@,
    {
        &self.levels_bits
    }

    /// The quality flags.
    pub fn get_hq(&self) -> (r: &Vec<bool>)
        ensures
            r@ == self.hq@,
    {
        &self.hq
    }

    /// The modulation algorithm.
    pub fn get_modulation(&self) -> (r: Modulation)
        ensures
            r == self.modulation,
    {
        self.modulation
    }

    /// The pitch offsets in tuning-table steps (render form).
    pub fn get_pitch(&self) -> (r: &Vec<u64>)
        ensures
            r@ == self.pitch_offset@,
    {
        &self.pitch_offset
    }

    /// The pitch offsets as the host's double bits.
    pub fn get_pitch_bits(&self) -> (r: &Vec<u64>)
        ensures
            r@ == self.pitch_bits@,
    {
        &self.pitch_bits
    }
}

/// Cap a duration at the store's representable range.
pub fn cap_samples(s: u64) -> (r: u64)
    ensures
        r == cap_samples_spec(s as int),
        r <= MAX_SAMPLES,
{
    if s > MAX_SAMPLES {
        MAX_SAMPLES
    } else {
        s
    }
}

/// Cap a pitch offset at the tuning table's headroom.
pub fn cap_pitch(p: u64) -> (r: u64)
    ensures
        r == cap_pitch_spec(p as int),
        r <= PITCH_MAX,
{
    if p > PITCH_MAX {
        PITCH_MAX
    } else {
        p
    }
}

} // verus!

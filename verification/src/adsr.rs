//! The per-oscillator attack-decay-sustain-release amplitude envelope,
//! driven by elapsed sample counts.
//!
//! Amplitudes are Q30 fixed-point values in [0, `Q_ONE`]; durations are
//! sample counts. A zero duration counts as an already complete phase, so a
//! division by zero can never occur.

use vstd::prelude::*;
use crate::fixed::{
    clamp_q, clamp_q_spec, mul_q, mul_q_spec, lemma_mul_q_bound, lemma_mul_q_nonneg, ratio_q,
    ratio_q_spec, Q_ONE,
};

verus! {

/// Upper bound on every envelope duration, in samples (about a day of audio
/// at studio rates); keeps all envelope arithmetic far from overflow.
pub const MAX_SAMPLES: u64 = 0x1_0000_0000;

/// Envelope timings already converted to sample counts, plus the sustain
/// amplitude in Q30.
#[derive(Clone, Copy, PartialEq, Eq, Structural, Debug)]
pub struct EnvelopeSamples {
    pub attack: u64,
    pub decay: u64,
    pub sustain: i64,
    pub release: u64,
}

impl EnvelopeSamples {
    /// Every duration within range, sustain a unit amplitude.
    pub open spec fn wf(self) -> bool {
        &&& self.attack <= MAX_SAMPLES
        &&& self.decay <= MAX_SAMPLES
        &&& self.release <= MAX_SAMPLES
        &&& 0 <= self.sustain <= Q_ONE
    }
}

/// The envelope's phase, with the samples elapsed inside the phase.
#[derive(Clone, Copy, PartialEq, Eq, Structural, Debug)]
pub enum AdsrState {
    Ended,
    Attack(u64),
    Decay(u64),
    Sustain,
    Release(u64),
}

/// The envelope generator. `ad_level` tracks the amplitude while attacking
/// or decaying (the continuity anchor for a later release); `r_level`
/// tracks the amplitude while releasing (the continuity anchor for a
/// retriggered attack).
#[derive(Clone, Copy, PartialEq, Eq, Structural, Debug)]
pub struct ADSR {
    pub state: AdsrState,
    pub attack_samples: u64,
    pub decay_samples: u64,
    pub sustain: i64,
    pub release_samples: u64,
    pub ad_level: i64,
    pub r_level: i64,
}

impl ADSR {
    /// Well-formed: durations within range, every amplitude in [0, 1], the
    /// elapsed counter within range.
    pub open spec fn wf(self) -> bool {
        &&& self.attack_samples <= MAX_SAMPLES
        &&& self.decay_samples <= MAX_SAMPLES
        &&& self.release_samples <= MAX_SAMPLES
        &&& 0 <= self.sustain <= Q_ONE
        &&& 0 <= self.ad_level <= Q_ONE
        &&& 0 <= self.r_level <= Q_ONE
        &&& match self.state {
            AdsrState::Attack(s) => s <= MAX_SAMPLES,
            AdsrState::Decay(s) => s <= MAX_SAMPLES,
            AdsrState::Release(s) => s <= MAX_SAMPLES,
            _ => true,
        }
    }

    /// The envelope value of one `process` call: what it returns, always in
    /// [0, 1].
    pub open spec fn step_amp_spec(a: ADSR) -> int {
        match a.state {
            AdsrState::Attack(s) => clamp_q_spec(
                clamp_q_spec(ratio_q_spec(s as int, a.attack_samples as int)) + a.r_level as int,
            ),
            AdsrState::Decay(s) => Q_ONE as int - mul_q_spec(
                Q_ONE as int - a.sustain as int,
                clamp_q_spec(ratio_q_spec(s as int, a.decay_samples as int)),
            ),
            AdsrState::Sustain => a.sustain as int,
            AdsrState::Release(s) => if s >= a.release_samples {
                0
            } else {
                mul_q_spec(
                    a.ad_level as int,
                    Q_ONE as int - clamp_q_spec(
                        ratio_q_spec(s as int, a.release_samples as int),
                    ),
                )
            },
            AdsrState::Ended => 0,
        }
    }

    /// The envelope state after one `process` call: one sample elapses, a
    /// completed phase hands over to the next one.
    pub open spec fn step_spec(a: ADSR) -> ADSR {
        match a.state {
            AdsrState::Attack(s) => ADSR {
                state: if s >= a.attack_samples {
                    AdsrState::Decay(0)
                } else {
                    AdsrState::Attack((s + 1) as u64)
                },
                ad_level: clamp_q_spec(ratio_q_spec(s as int, a.attack_samples as int)) as i64,
                ..a
            },
            AdsrState::Decay(s) => {
                let level = Q_ONE as int - mul_q_spec(
                    Q_ONE as int - a.sustain as int,
                    clamp_q_spec(ratio_q_spec(s as int, a.decay_samples as int)),
                );
                ADSR {
                    state: if s >= a.decay_samples {
                        AdsrState::Sustain
                    } else {
                        AdsrState::Decay((s + 1) as u64)
                    },
                    ad_level: level as i64,
                    r_level: level as i64,
                    ..a
                }
            },
            AdsrState::Sustain => a,
            AdsrState::Release(s) => if s >= a.release_samples {
                ADSR::reset_spec()
            } else {
                ADSR {
                    state: AdsrState::Release((s + 1) as u64),
                    r_level: mul_q_spec(
                        a.ad_level as int,
                        Q_ONE as int - clamp_q_spec(
                            ratio_q_spec(s as int, a.release_samples as int),
                        ),
                    ) as i64,
                    ..a
                }
            },
            AdsrState::Ended => a,
        }
    }

    /// The envelope after n `process` calls.
    pub open spec fn step_n_spec(a: ADSR, n: nat) -> ADSR
        decreases n,
    {
        if n == 0 {
            a
        } else {
            ADSR::step_spec(ADSR::step_n_spec(a, (n - 1) as nat))
        }
    }

    /// What starting (or retriggering) the envelope does: a retrigger of an
    /// envelope already attacking keeps its elapsed counter, the target
    /// durations are always refreshed, the continuity levels stay.
    pub open spec fn on_spec(a: ADSR, env: EnvelopeSamples) -> ADSR {
        ADSR {
            state: if a.state is Attack {
                a.state
            } else {
                AdsrState::Attack(0)
            },
            attack_samples: env.attack,
            decay_samples: env.decay,
            sustain: env.sustain,
            release_samples: env.release,
            ad_level: a.ad_level,
            r_level: a.r_level,
        }
    }

    /// The uninitialized envelope: `Ended`, everything zero.
    pub open spec fn reset_spec() -> ADSR {
        ADSR {
            state: AdsrState::Ended,
            attack_samples: 0,
            decay_samples: 0,
            sustain: 0,
            release_samples: 0,
            ad_level: 0,
            r_level: 0,
        }
    }

    /// Resets (or creates) the envelope to its uninitialized `Ended` state.
    pub fn reset() -> (r: ADSR)
        ensures
            r == ADSR::reset_spec(),
            r.wf(),
    {
        ADSR {
            state: AdsrState::Ended,
            attack_samples: 0,
            decay_samples: 0,
            sustain: 0,
            release_samples: 0,
            ad_level: 0,
            r_level: 0,
        }
    }

    /// Starts (or retriggers) the envelope. A retrigger of an envelope
    /// already attacking keeps its elapsed counter (no amplitude jump), but
    /// the target durations are always refreshed.
    pub fn on(&mut self, env: EnvelopeSamples)
        requires
            old(self).wf(),
            env.wf(),
        ensures
            final(self).wf(),
            *final(self) == ADSR::on_spec(*old(self), env),
            final(self).state == (if old(self).state is Attack {
                old(self).state
            } else {
                AdsrState::Attack(0)
            }),
            final(self).attack_samples == env.attack,
            final(self).decay_samples == env.decay,
            final(self).sustain == env.sustain,
            final(self).release_samples == env.release,
            final(self).ad_level == old(self).ad_level,
            final(self).r_level == old(self).r_level,
    {
        match self.state {
            AdsrState::Attack(_) => {},
            _ => {
                self.state = AdsrState::Attack(0);
            },
        }
        self.attack_samples = env.attack;
        self.decay_samples = env.decay;
        self.sustain = env.sustain;
        self.release_samples = env.release;
    }

    /// Forces the envelope into its release phase, from any state.
    pub fn release(&mut self)
        requires
            old(self).wf(),
        ensures
            final(self).wf(),
            *final(self) == (ADSR { state: AdsrState::Release(0), ..*old(self) }),
    {
        self.state = AdsrState::Release(0);
    }

    /// Whether the envelope has ended (the voice liveness test).
    pub fn is_ended(&self) -> (r: bool)
        ensures
            r == (self.state is Ended),
    {
        match self.state {
            AdsrState::Ended => true,
            _ => false,
        }
    }

    /// Advances the envelope by exactly one sample and returns the
    /// amplitude, always within [0, 1]. An envelope that is neither
    /// releasing nor ended can never end by processing alone.
    pub fn process(&mut self) -> (amp: i64)
        requires
            old(self).wf(),
        ensures
            final(self).wf(),
            *final(self) == ADSR::step_spec(*old(self)),
            amp == ADSR::step_amp_spec(*old(self)),
            0 <= amp <= Q_ONE,
            !(old(self).state is Release) && !(old(self).state is Ended) ==> !(final(self).state
                is Ended),
            old(self).state is Ended ==> amp == 0,
    {
        match self.state {
            AdsrState::Attack(s) => {
                let level: i64 = clamp_q(ratio_q(s, self.attack_samples));
                self.state = if s >= self.attack_samples {
                    AdsrState::Decay(0)
                } else {
                    AdsrState::Attack(s + 1)
                };
                self.ad_level = level;
                clamp_q(level + self.r_level)
            },
            AdsrState::Decay(s) => {
                let fall: i64 = mul_q(
                    Q_ONE - self.sustain,
                    clamp_q(ratio_q(s, self.decay_samples)),
                );
                proof {
                    lemma_mul_q_bound(
                        Q_ONE as int - self.sustain as int,
                        clamp_q_spec(ratio_q_spec(s as int, self.decay_samples as int)),
                        Q_ONE as int - self.sustain as int,
                    );
                    lemma_mul_q_nonneg(
                        Q_ONE as int - self.sustain as int,
                        clamp_q_spec(ratio_q_spec(s as int, self.decay_samples as int)),
                    );
                }
                let level: i64 = Q_ONE - fall;
                self.state = if s >= self.decay_samples {
                    AdsrState::Sustain
                } else {
                    AdsrState::Decay(s + 1)
                };
                self.ad_level = level;
                self.r_level = level;
                level
            },
            AdsrState::Sustain => self.sustain,
            AdsrState::Release(s) => {
                if s >= self.release_samples {
                    *self = ADSR::reset();
                    0
                } else {
                    let level: i64 = mul_q(
                        self.ad_level,
                        Q_ONE - clamp_q(ratio_q(s, self.release_samples)),
                    );
                    proof {
                        lemma_mul_q_bound(
                            self.ad_level as int,
                            Q_ONE as int - clamp_q_spec(
                                ratio_q_spec(s as int, self.release_samples as int),
                            ),
                            Q_ONE as int,
                        );
                        lemma_mul_q_nonneg(
                            self.ad_level as int,
                            Q_ONE as int - clamp_q_spec(
                                ratio_q_spec(s as int, self.release_samples as int),
                            ),
                        );
                    }
                    self.state = AdsrState::Release(s + 1);
                    self.r_level = level;
                    level
                }
            },
            AdsrState::Ended => 0,
        }
    }
}

/// An envelope that is attacking, decaying or sustaining can never reach
/// `Ended`, however many samples are processed, until it is released: once
/// a note is on, it stays on.
pub proof fn lemma_held_note_never_ends(a: ADSR, n: nat)
    requires
        a.state is Attack || a.state is Decay || a.state is Sustain,
    ensures
        ADSR::step_n_spec(a, n).state is Attack || ADSR::step_n_spec(a, n).state is Decay
            || ADSR::step_n_spec(a, n).state is Sustain,
        !(ADSR::step_n_spec(a, n).state is Ended),
    decreases n,
{
    if n > 0 {
        lemma_held_note_never_ends(a, (n - 1) as nat);
    }
}

/// A released envelope reaches `Ended`, with amplitude 0, after exactly
/// `release_samples + 1` further `process` calls, and not before: the call
/// that finds the elapsed counter at the release duration is the one that
/// ends it.
pub proof fn lemma_release_runs_out(a: ADSR, n: nat)
    requires
        a.state == AdsrState::Release(0),
    ensures
        n <= a.release_samples ==> ADSR::step_n_spec(a, n).state == AdsrState::Release(n as u64)
            && ADSR::step_n_spec(a, n).release_samples == a.release_samples,
        n > a.release_samples ==> ADSR::step_n_spec(a, n).state is Ended,
        n == a.release_samples + 1 ==> ADSR::step_amp_spec(
            ADSR::step_n_spec(a, (n - 1) as nat),
        ) == 0,
    decreases n,
{
    if n > 0 {
        lemma_release_runs_out(a, (n - 1) as nat);
    }
}

} // verus!

use fox3osc::adsr::{AdsrState, EnvelopeSamples, ADSR};
use fox3osc::fixed::Q_ONE;

fn env(attack: u64, decay: u64, sustain: i64, release: u64) -> EnvelopeSamples {
    EnvelopeSamples { attack, decay, sustain, release }
}

#[test]
fn attack_ramp_follows_the_formula() {
    let mut a = ADSR::reset();
    a.on(env(4, 4, Q_ONE / 2, 4));
    // amplitude at elapsed s is s / attack (plus a zero release carryover)
    assert_eq!(a.process(), 0);
    assert_eq!(a.process(), Q_ONE / 4);
    assert_eq!(a.process(), Q_ONE / 2);
    assert_eq!(a.process(), 3 * (Q_ONE / 4));
    assert_eq!(a.process(), Q_ONE);
    // attack complete: the next step decays toward the sustain level
    assert!(matches!(a.state, AdsrState::Decay(_)));
}

#[test]
fn decay_reaches_sustain() {
    let mut a = ADSR::reset();
    a.on(env(0, 4, Q_ONE / 2, 4));
    // a zero attack counts as already complete: full amplitude at once
    assert_eq!(a.process(), Q_ONE);
    // decay: 1 - (1 - sustain) * (s / decay)
    assert_eq!(a.process(), Q_ONE);
    assert_eq!(a.process(), Q_ONE - Q_ONE / 8);
    assert_eq!(a.process(), Q_ONE - Q_ONE / 4);
    assert_eq!(a.process(), Q_ONE - 3 * (Q_ONE / 8));
    assert_eq!(a.process(), Q_ONE / 2);
    assert!(matches!(a.state, AdsrState::Sustain));
    assert_eq!(a.process(), Q_ONE / 2);
    assert_eq!(a.process(), Q_ONE / 2);
}

#[test]
fn release_runs_out_and_ends() {
    let mut a = ADSR::reset();
    a.on(env(0, 0, Q_ONE / 2, 4));
    for _ in 0..8 {
        a.process();
    }
    assert!(matches!(a.state, AdsrState::Sustain));
    a.release();
    // release_samples further calls stay releasing; the next one ends it
    for _ in 0..4 {
        let amp = a.process();
        assert!(amp >= 0);
        assert!(!matches!(a.state, AdsrState::Ended));
    }
    let last = a.process();
    assert_eq!(last, 0);
    assert!(matches!(a.state, AdsrState::Ended));
}

#[test]
fn release_ramp_scales_the_anchor_level() {
    let mut a = ADSR::reset();
    a.on(env(0, 0, Q_ONE / 2, 4));
    for _ in 0..4 {
        a.process();
    }
    a.release();
    // r_level = ad_level * (1 - s / release), anchored at the sustain level
    assert_eq!(a.process(), Q_ONE / 2);
    assert_eq!(a.process(), 3 * (Q_ONE / 8));
    assert_eq!(a.process(), Q_ONE / 4);
    assert_eq!(a.process(), Q_ONE / 8);
    assert_eq!(a.process(), 0);
    assert!(matches!(a.state, AdsrState::Ended));
}

#[test]
fn amplitude_always_in_unit_range() {
    let mut a = ADSR::reset();
    let e = env(3, 2, 3 * (Q_ONE / 4), 2);
    let mut outputs: Vec<i64> = Vec::new();
    a.on(e);
    for step in 0..40 {
        if step == 7 {
            a.release();
        }
        if step == 9 {
            // immediate retrigger while releasing
            a.on(e);
        }
        if step == 11 {
            // release right after a retrigger
            a.release();
        }
        outputs.push(a.process());
    }
    for amp in outputs {
        assert!(0 <= amp && amp <= Q_ONE);
    }
}

#[test]
fn ended_envelope_stays_silent() {
    let mut a = ADSR::reset();
    assert_eq!(a.process(), 0);
    assert!(matches!(a.state, AdsrState::Ended));
}

#[test]
fn retrigger_keeps_attack_counter() {
    let mut a = ADSR::reset();
    a.on(env(100, 10, Q_ONE, 10));
    for _ in 0..10 {
        a.process();
    }
    let before = match a.state {
        AdsrState::Attack(s) => s,
        _ => panic!("still attacking"),
    };
    // a retrigger mid-attack refreshes durations but keeps the counter
    a.on(env(200, 10, Q_ONE, 10));
    match a.state {
        AdsrState::Attack(s) => assert_eq!(s, before),
        _ => panic!("still attacking"),
    }
    assert_eq!(a.attack_samples, 200);
}

#[test]
fn zero_release_ends_on_first_step() {
    let mut a = ADSR::reset();
    a.on(env(0, 0, Q_ONE / 2, 0));
    a.process();
    a.release();
    assert_eq!(a.process(), 0);
    assert!(matches!(a.state, AdsrState::Ended));
}

#[test]
fn release_carryover_keeps_retrigger_continuous() {
    let mut a = ADSR::reset();
    a.on(env(0, 0, Q_ONE / 2, 100));
    a.process();
    a.release();
    // fall part of the way down, then retrigger
    for _ in 0..60 {
        a.process();
    }
    let falling = a.r_level;
    assert!(falling > 0 && falling < Q_ONE / 2);
    a.on(env(1000, 0, Q_ONE / 2, 100));
    // the first retriggered sample starts from the carried level, not zero
    let first = a.process();
    assert!(first >= falling);
}

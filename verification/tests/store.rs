use fox3osc::adsr::MAX_SAMPLES;
use fox3osc::fixed::Q_ONE;
use fox3osc::params::{
    ParamStore, ParamValue, PARAMETER_ATTACK, PARAMETER_HQ_2, PARAMETER_LEVEL_1,
    PARAMETER_MODULATION, PARAMETER_NR, PARAMETER_PITCH_3, PARAMETER_SUSTAIN,
    PARAMETER_WAVEFORM_2, PITCH_MAX,
};
use fox3osc::tuning::{NoteData, TuningTable, NOTES_NR};
use fox3osc::waveform::{Modulation, Waveform};

fn value(v: f64, rate: f64) -> ParamValue {
    ParamValue {
        bits32: (v as f32).to_bits(),
        bits64: v.to_bits(),
        whole: if v >= 0.0 { v as u64 } else { 0 },
        q30: (v * Q_ONE as f64) as i64,
        samples: if v >= 0.0 { (v * rate) as u64 } else { 0 },
    }
}

#[test]
fn default_patch_values() {
    let store = ParamStore::new(48000);
    assert_eq!(store.get_envelope().attack_bits, (0.01f32).to_bits());
    assert_eq!(store.get_envelope().decay_bits, (0.1f32).to_bits());
    assert_eq!(store.get_envelope().sustain_bits, (0.8f32).to_bits());
    assert_eq!(store.get_envelope().release_bits, (0.1f32).to_bits());
    assert_eq!(store.get_envelope_samples().attack, 480);
    assert_eq!(store.get_envelope_samples().decay, 4800);
    assert_eq!(store.get_envelope_samples().release, 4800);
    assert_eq!(store.get_levels(), &vec![Q_ONE, 0, 0]);
    assert_eq!(store.get_levels_bits(), &vec![(1.0f32).to_bits(), 0, 0]);
    assert_eq!(store.get_hq(), &vec![true, true, true]);
    assert_eq!(store.get_modulation(), Modulation::Independent);
    assert_eq!(store.get_pitch(), &vec![24u64, 24, 24]);
    assert_eq!(store.get_pitch_bits(), &vec![(24.0f64).to_bits(); 3]);
    assert_eq!(store.get_waveforms(), &vec![Waveform::Sine; 3]);
}

#[test]
fn attack_event_updates_only_the_envelope() {
    let mut store = ParamStore::new(48000);
    let known = store.apply_param_event(PARAMETER_ATTACK, value(0.5, 48000.0));
    assert!(known);
    assert_eq!(store.get_envelope().attack_bits, (0.5f32).to_bits());
    assert_eq!(store.get_envelope_samples().attack, 24000);
    // the other groups are untouched
    assert_eq!(store.get_levels(), &vec![Q_ONE, 0, 0]);
    assert_eq!(store.get_modulation(), Modulation::Independent);
}

#[test]
fn sustain_event_clamps_into_unit_range() {
    let mut store = ParamStore::new(48000);
    store.apply_param_event(PARAMETER_SUSTAIN, value(2.5, 48000.0));
    assert_eq!(store.get_envelope_samples().sustain, Q_ONE);
    store.apply_param_event(PARAMETER_SUSTAIN, value(-1.0, 48000.0));
    assert_eq!(store.get_envelope_samples().sustain, 0);
}

#[test]
fn duration_events_cap_at_the_representable_range() {
    let mut store = ParamStore::new(48000);
    store.apply_param_event(PARAMETER_ATTACK, value(1.0e9, 48000.0));
    assert_eq!(store.get_envelope_samples().attack, MAX_SAMPLES);
}

#[test]
fn waveform_event_updates_one_oscillator() {
    let mut store = ParamStore::new(48000);
    store.apply_param_event(PARAMETER_WAVEFORM_2, value(5.0, 48000.0));
    assert_eq!(store.get_waveforms()[1], Waveform::Sploinky);
    assert_eq!(store.get_waveforms()[0], Waveform::Sine);
    assert_eq!(store.get_waveforms()[2], Waveform::Sine);
    // the host's stepped value truncates toward zero
    store.apply_param_event(PARAMETER_WAVEFORM_2, value(3.9, 48000.0));
    assert_eq!(store.get_waveforms()[1], Waveform::Saw);
}

#[test]
fn level_event_stores_both_forms() {
    let mut store = ParamStore::new(48000);
    store.apply_param_event(PARAMETER_LEVEL_1, value(0.5, 48000.0));
    assert_eq!(store.get_levels_bits()[0], (0.5f32).to_bits());
    assert_eq!(store.get_levels()[0], Q_ONE / 2);
}

#[test]
fn hq_event_tests_against_zero() {
    let mut store = ParamStore::new(48000);
    store.apply_param_event(PARAMETER_HQ_2, value(0.0, 48000.0));
    assert_eq!(store.get_hq(), &vec![true, false, true]);
    store.apply_param_event(PARAMETER_HQ_2, value(0.25, 48000.0));
    assert_eq!(store.get_hq(), &vec![true, true, true]);
    // negative zero still means off
    store.apply_param_event(PARAMETER_HQ_2, value(-0.0, 48000.0));
    assert_eq!(store.get_hq(), &vec![true, false, true]);
}

#[test]
fn modulation_event_switches_the_algorithm() {
    let mut store = ParamStore::new(48000);
    store.apply_param_event(PARAMETER_MODULATION, value(1.0, 48000.0));
    assert_eq!(store.get_modulation(), Modulation::Phase);
}

#[test]
fn pitch_event_caps_at_the_table_headroom() {
    let mut store = ParamStore::new(48000);
    store.apply_param_event(PARAMETER_PITCH_3, value(12.0, 48000.0));
    assert_eq!(store.get_pitch()[2], 12);
    assert_eq!(store.get_pitch_bits()[2], (12.0f64).to_bits());
    store.apply_param_event(PARAMETER_PITCH_3, value(90.0, 48000.0));
    assert_eq!(store.get_pitch()[2], PITCH_MAX);
}

#[test]
fn unknown_parameter_ids_change_nothing() {
    let mut store = ParamStore::new(48000);
    let known = store.apply_param_event(PARAMETER_NR, value(1.0, 48000.0));
    assert!(!known);
    assert_eq!(store.get_levels(), &vec![Q_ONE, 0, 0]);
    assert_eq!(store.get_modulation(), Modulation::Independent);
}

#[test]
fn tuning_table_accepts_only_monotone_entries() {
    let good: Vec<NoteData> =
        (0..NOTES_NR).map(|i| NoteData { increment: (i as i64 + 1) * 1000, transition: 100 }).collect();
    assert!(TuningTable::new(good.clone()).is_some());
    // wrong length
    assert!(TuningTable::new(good[..NOTES_NR - 1].to_vec()).is_none());
    // non-monotone increment
    let mut flat = good.clone();
    flat[10].increment = flat[9].increment;
    assert!(TuningTable::new(flat).is_none());
    // unusable transition width
    let mut wide = good.clone();
    wide[3].transition = 0;
    assert!(TuningTable::new(wide).is_none());
}

#[test]
fn tuning_entries_read_back() {
    let entries: Vec<NoteData> =
        (0..NOTES_NR).map(|i| NoteData { increment: (i as i64 + 1) * 1000, transition: 100 }).collect();
    let table = match TuningTable::new(entries) {
        Some(t) => t,
        None => panic!("valid table"),
    };
    assert_eq!(table.at(0).increment, 1000);
    assert_eq!(table.at(NOTES_NR - 1).increment, NOTES_NR as i64 * 1000);
}

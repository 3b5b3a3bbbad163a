use fox3osc::engine::{Engine, Event, MIDI_CC, MIDI_CC_ALL_NOTES_OFF, MIDI_CC_ALL_SOUNDS_OFF, MIDI_OFF, MIDI_ON};
use fox3osc::fixed::Q_ONE;
use fox3osc::params::{ParamStore, ParamValue, PARAMETER_LEVEL_2, PARAMETER_MODULATION, PARAMETER_WAVEFORM_1};
use fox3osc::tuning::{NoteData, TuningTable, NOTES_NR};
use fox3osc::waveform::Modulation;
use rand::rngs::SmallRng;
use rand::SeedableRng;

const SAMPLE_RATE: f64 = 48000.0;

/// The per-note table as the activation glue computes it: twelve-tone equal
/// temperament, table index 24 steps above the note it serves.
fn build_table() -> TuningTable {
    let mut entries: Vec<NoteData> = Vec::new();
    for note in 0..NOTES_NR {
        let midi = note as f64 - 24.0;
        let frequency = 2.0f64.powf((midi - 69.0) / 12.0) * 440.0;
        let increment = frequency / SAMPLE_RATE;
        let transition = 2.0 * increment;
        let increment_q = (increment * Q_ONE as f64) as i64;
        let transition_q = ((transition * Q_ONE as f64) as i64).clamp(1, Q_ONE);
        entries.push(NoteData { increment: increment_q, transition: transition_q });
    }
    match TuningTable::new(entries) {
        Some(t) => t,
        None => panic!("the equal-temperament table is valid"),
    }
}

fn rng() -> SmallRng {
    SmallRng::seed_from_u64(0xB00B5)
}

fn note_on(note: u8, velocity: u8) -> Event {
    Event::Midi { status: MIDI_ON, data1: note, data2: velocity }
}

fn note_off(note: u8) -> Event {
    Event::Midi { status: MIDI_OFF, data1: note, data2: 0 }
}

fn render(
    engine: &mut Engine,
    store: &mut ParamStore,
    rng: &mut SmallRng,
    events: Vec<Event>,
    samples: usize,
) -> Vec<i64> {
    let mut output: Vec<i64> = vec![0; samples];
    let n = output.len();
    engine.process_sub_block(&events, store, &mut output, 0, n, rng);
    output
}

/// Ascending zero crossings per rendered block.
fn crossings(output: &[i64]) -> usize {
    let mut count = 0;
    for w in output.windows(2) {
        if w[0] < 0 && w[1] >= 0 {
            count += 1;
        }
    }
    count
}

#[test]
fn default_patch_renders_note_60_near_261_hz() {
    let mut engine = Engine::new(build_table());
    let mut store = ParamStore::new(48000);
    let mut r = rng();
    // attack of 10 ms at 48 kHz: the first 480 samples ramp up
    let first = render(&mut engine, &mut store, &mut r, vec![note_on(60, 100)], 480);
    assert!(first.iter().any(|s| *s != 0));
    // the attack envelope grows: late peaks beat early peaks
    let early_peak = first[..120].iter().map(|s| s.abs()).max().unwrap_or(0);
    let late_peak = first[360..].iter().map(|s| s.abs()).max().unwrap_or(0);
    assert!(late_peak > early_peak);
    // one second of steady state shows ~261.6 cycles
    let steady = render(&mut engine, &mut store, &mut r, vec![], 48000);
    let cycles = crossings(&steady);
    assert!(250 <= cycles && cycles <= 273, "cycles {}", cycles);
}

#[test]
fn level_and_velocity_scale_the_mix() {
    let mut engine = Engine::new(build_table());
    let mut store = ParamStore::new(48000);
    let mut r = rng();
    let loud = render(&mut engine, &mut store, &mut r, vec![note_on(60, 127)], 4800);
    let loud_peak = loud.iter().map(|s| s.abs()).max().unwrap_or(0);
    let mut engine2 = Engine::new(build_table());
    let mut store2 = ParamStore::new(48000);
    let mut r2 = rng();
    let soft = render(&mut engine2, &mut store2, &mut r2, vec![note_on(60, 32)], 4800);
    let soft_peak = soft.iter().map(|s| s.abs()).max().unwrap_or(0);
    assert!(loud_peak > 3 * soft_peak);
    assert!(loud_peak <= Q_ONE);
}

#[test]
fn released_note_dies_within_release_samples_and_is_pruned() {
    let mut engine = Engine::new(build_table());
    let mut store = ParamStore::new(48000);
    let mut r = rng();
    render(&mut engine, &mut store, &mut r, vec![note_on(60, 100)], 480);
    assert!(engine.keys.keys[60].is_on());
    // note-off, then render past the 100 ms (4800-sample) release
    render(&mut engine, &mut store, &mut r, vec![note_off(60)], 4801);
    assert!(!engine.keys.keys[60].is_on());
    assert_eq!(engine.keys.alive_keys.len(), 1);
    // the next visit prunes the dead entry from the live list
    let tail = render(&mut engine, &mut store, &mut r, vec![], 16);
    assert_eq!(engine.keys.alive_keys.len(), 0);
    assert!(tail.iter().all(|s| *s == 0));
}

#[test]
fn all_sounds_off_silences_the_next_sample() {
    let mut engine = Engine::new(build_table());
    let mut store = ParamStore::new(48000);
    let mut r = rng();
    let events = vec![note_on(60, 100), note_on(64, 100), note_on(67, 100)];
    let block = render(&mut engine, &mut store, &mut r, events, 4800);
    assert!(block.iter().any(|s| *s != 0));
    assert_eq!(engine.keys.alive_keys.len(), 3);
    // the control event lands at the start of the next sub-block: every
    // sample of that block is already silent
    let cc = Event::Midi { status: MIDI_CC, data1: MIDI_CC_ALL_SOUNDS_OFF, data2: 0 };
    let silent = render(&mut engine, &mut store, &mut r, vec![cc], 480);
    assert!(silent.iter().all(|s| *s == 0));
    assert!(!engine.keys.keys[60].is_on());
    assert!(!engine.keys.keys[64].is_on());
    assert!(!engine.keys.keys[67].is_on());
    // and the voices leave the live list at that same visit
    assert_eq!(engine.keys.alive_keys.len(), 0);
}

#[test]
fn all_notes_off_releases_instead_of_cutting() {
    let mut engine = Engine::new(build_table());
    let mut store = ParamStore::new(48000);
    let mut r = rng();
    render(&mut engine, &mut store, &mut r, vec![note_on(60, 100)], 4800);
    let cc = Event::Midi { status: MIDI_CC, data1: MIDI_CC_ALL_NOTES_OFF, data2: 0 };
    let tail = render(&mut engine, &mut store, &mut r, vec![cc], 480);
    // the release tail still sounds, fading rather than cutting
    assert!(tail.iter().any(|s| *s != 0));
    assert!(engine.keys.keys[60].is_on());
}

#[test]
fn modulation_snapshot_holds_for_sounding_notes() {
    let mut engine = Engine::new(build_table());
    let mut store = ParamStore::new(48000);
    let mut r = rng();
    render(&mut engine, &mut store, &mut r, vec![note_on(60, 100)], 48);
    assert_eq!(engine.keys.keys[60].modulation, Modulation::Independent);
    // switching the modulation mid-note does not retroactively change it
    let change = Event::Param {
        id: PARAMETER_MODULATION,
        value: param_value(2.0),
    };
    render(&mut engine, &mut store, &mut r, vec![change], 48);
    assert_eq!(store.get_modulation(), Modulation::Evil);
    assert_eq!(engine.keys.keys[60].modulation, Modulation::Independent);
    // a later note takes the new algorithm
    render(&mut engine, &mut store, &mut r, vec![note_on(62, 100)], 48);
    assert_eq!(engine.keys.keys[62].modulation, Modulation::Evil);
}

/// The value forms the event glue derives from one host double.
fn param_value(v: f64) -> ParamValue {
    ParamValue {
        bits32: (v as f32).to_bits(),
        bits64: v.to_bits(),
        whole: if v >= 0.0 { v as u64 } else { 0 },
        q30: (v * Q_ONE as f64) as i64,
        samples: if v >= 0.0 { (v * SAMPLE_RATE) as u64 } else { 0 },
    }
}

#[test]
fn phase_modulation_mode_renders() {
    let mut engine = Engine::new(build_table());
    let mut store = ParamStore::new(48000);
    let mut r = rng();
    let events = vec![
        Event::Param { id: PARAMETER_MODULATION, value: param_value(1.0) },
        Event::Param { id: PARAMETER_LEVEL_2 + 1, value: param_value(0.8) },
        note_on(60, 100),
    ];
    let block = render(&mut engine, &mut store, &mut r, events, 4800);
    assert_eq!(engine.keys.keys[60].modulation, Modulation::Phase);
    assert!(block.iter().any(|s| *s != 0));
}

#[test]
fn evil_modulation_mode_renders() {
    let mut engine = Engine::new(build_table());
    let mut store = ParamStore::new(48000);
    let mut r = rng();
    let events = vec![
        Event::Param { id: PARAMETER_MODULATION, value: param_value(2.0) },
        Event::Param { id: PARAMETER_LEVEL_2 + 1, value: param_value(0.5) },
        Event::Param { id: PARAMETER_WAVEFORM_1, value: param_value(3.0) },
        note_on(48, 100),
    ];
    let block = render(&mut engine, &mut store, &mut r, events, 4800);
    assert_eq!(engine.keys.keys[48].modulation, Modulation::Evil);
    assert!(block.iter().any(|s| *s != 0));
}

#[test]
fn out_of_range_note_numbers_wrap_into_the_pool() {
    let mut engine = Engine::new(build_table());
    let mut store = ParamStore::new(48000);
    let mut r = rng();
    // note number 188 wraps to voice 60 modulo the pool size
    render(&mut engine, &mut store, &mut r, vec![note_on(188, 100)], 48);
    assert!(engine.keys.keys[60].is_on());
}

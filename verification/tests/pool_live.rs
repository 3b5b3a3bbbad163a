use fox3osc::params::ParamStore;
use fox3osc::pool::Keys;
use fox3osc::tuning::KEYS_NR;
use rand::rngs::SmallRng;
use rand::SeedableRng;

fn rng() -> SmallRng {
    SmallRng::seed_from_u64(0xB00B5)
}

#[test]
fn live_list_holds_each_note_once() {
    let mut pool = Keys::new();
    let params = ParamStore::new(48000);
    let mut r = rng();
    assert_eq!(pool.alive_keys.len(), 0);
    pool.on(60, 100, &params, &mut r);
    assert_eq!(pool.alive_keys.len(), 1);
    // a retrigger of a listed note does not list it twice
    pool.on(60, 90, &params, &mut r);
    assert_eq!(pool.alive_keys.len(), 1);
    pool.on(61, 100, &params, &mut r);
    assert_eq!(pool.alive_keys.len(), 2);
}

#[test]
fn every_note_and_velocity_starts_a_voice() {
    let params = ParamStore::new(48000);
    let mut r = rng();
    let mut pool = Keys::new();
    for note in (0..KEYS_NR).step_by(17) {
        for velocity in [1u8, 64, 127] {
            pool.on(note, velocity, &params, &mut r);
            assert!(pool.keys[note].is_on(), "note {} velocity {}", note, velocity);
        }
    }
}

#[test]
fn note_stays_on_through_the_whole_attack() {
    // the default attack lasts 480 samples; the envelope cannot end while
    // the note is held, however long it renders
    let params = ParamStore::new(48000);
    let mut r = rng();
    let mut pool = Keys::new();
    pool.on(60, 1, &params, &mut r);
    for osc in 0..3 {
        let mut a = pool.keys[60].adsr[osc];
        for _ in 0..(480 * 4) {
            a.process();
        }
        assert!(!a.is_ended());
    }
}

#[test]
fn release_makes_a_voice_prunable() {
    let params = ParamStore::new(48000);
    let mut r = rng();
    let mut pool = Keys::new();
    pool.on(60, 100, &params, &mut r);
    pool.release(60);
    // still on: release only starts the fade
    assert!(pool.keys[60].is_on());
}

#[test]
fn end_live_ends_every_listed_voice() {
    let params = ParamStore::new(48000);
    let mut r = rng();
    let mut pool = Keys::new();
    pool.on(10, 100, &params, &mut r);
    pool.on(20, 100, &params, &mut r);
    pool.end_live();
    assert!(!pool.keys[10].is_on());
    assert!(!pool.keys[20].is_on());
    // untouched voices stay untouched
    assert!(!pool.keys[30].is_on());
}

#[test]
fn release_live_releases_only_sounding_voices() {
    let params = ParamStore::new(48000);
    let mut r = rng();
    let mut pool = Keys::new();
    pool.on(10, 100, &params, &mut r);
    pool.on(20, 0, &params, &mut r);
    pool.release_live();
    // the sounding voice fades; the dead entry was pruned
    assert!(pool.keys[10].is_on());
    assert_eq!(pool.alive_keys.len(), 1);
}

use fox3osc::dc_blocker::DCBlocker;
use fox3osc::fixed::Q_ONE;
use fox3osc::params::ParamStore;
use fox3osc::voice::{eval_gen, Key, OscGen, Q_QUARTER};
use fox3osc::waveform::Waveform;
use rand::rngs::SmallRng;
use rand::SeedableRng;

fn rng() -> SmallRng {
    SmallRng::seed_from_u64(0xB00B5)
}

fn gen_at(g: OscGen, phase: i64) -> i64 {
    let mut dc = DCBlocker::reset();
    eval_gen(g, phase, Q_ONE / 100, &mut dc, &mut rng())
}

#[test]
fn sine_key_points() {
    assert_eq!(gen_at(OscGen::Sine, 0), 0);
    assert_eq!(gen_at(OscGen::Sine, Q_QUARTER), Q_ONE);
    assert_eq!(gen_at(OscGen::Sine, Q_ONE / 2), 0);
    assert_eq!(gen_at(OscGen::Sine, 3 * Q_QUARTER), -Q_ONE);
    // the quadratic arch: 4u(1-u) of the half-cycle fraction
    assert_eq!(gen_at(OscGen::Sine, Q_ONE / 8), 3 * (Q_ONE / 4));
    // odd symmetry
    assert_eq!(gen_at(OscGen::Sine, -Q_QUARTER), -Q_ONE);
}

#[test]
fn triangle_piecewise_values() {
    assert_eq!(gen_at(OscGen::Triangle, 0), 0);
    assert_eq!(gen_at(OscGen::Triangle, Q_ONE / 8), Q_ONE / 2);
    assert_eq!(gen_at(OscGen::Triangle, Q_QUARTER), Q_ONE);
    assert_eq!(gen_at(OscGen::Triangle, Q_ONE / 2), 0);
    assert_eq!(gen_at(OscGen::Triangle, 3 * Q_QUARTER), -Q_ONE);
}

#[test]
fn square_and_saw_values() {
    assert_eq!(gen_at(OscGen::Square, 0), Q_ONE);
    assert_eq!(gen_at(OscGen::Square, Q_ONE / 2 - 1), Q_ONE);
    assert_eq!(gen_at(OscGen::Square, Q_ONE / 2), -Q_ONE);
    assert_eq!(gen_at(OscGen::Saw, 0), -Q_ONE);
    assert_eq!(gen_at(OscGen::Saw, Q_ONE / 2), 0);
    assert_eq!(gen_at(OscGen::Saw, 3 * Q_QUARTER), Q_ONE / 2);
}

#[test]
fn band_limited_square_matches_naive_away_from_edges() {
    // far from the transition points the polyblep corrections vanish
    assert_eq!(gen_at(OscGen::SquareHq, Q_QUARTER), Q_ONE);
    assert_eq!(gen_at(OscGen::SquareHq, 3 * Q_QUARTER), -Q_ONE);
    // just before the falling edge the correction bends the step downward
    let near_edge = gen_at(OscGen::SquareHq, Q_ONE / 2 - Q_ONE / 200);
    assert!(0 < near_edge && near_edge < Q_ONE);
}

#[test]
fn band_limited_triangle_tracks_naive_shape() {
    for i in 0..16 {
        let phase = i * (Q_ONE / 16);
        let hq = gen_at(OscGen::TriangleHq, phase);
        let naive = gen_at(OscGen::Triangle, phase);
        assert!((hq - naive).abs() < Q_ONE / 6, "phase {}: hq {} naive {}", i, hq, naive);
    }
}

#[test]
fn noise_stays_in_unit_range_and_varies() {
    let mut dc = DCBlocker::reset();
    let mut r = rng();
    let mut seen_distinct = false;
    let mut last: i64 = 0;
    for i in 0..64 {
        let v = eval_gen(OscGen::Noise, 0, Q_ONE / 100, &mut dc, &mut r);
        assert!(-Q_ONE <= v && v < Q_ONE);
        if i > 0 && v != last {
            seen_distinct = true;
        }
        last = v;
    }
    assert!(seen_distinct);
}

#[test]
fn sploinky_and_skloinky_run_their_filter() {
    let mut dc = DCBlocker::reset();
    let v = eval_gen(OscGen::Sploinky, Q_QUARTER, Q_ONE / 100, &mut dc, &mut rng());
    // the filter state moved and the first filtered sample passed through
    assert_ne!(dc.x, 0);
    assert_eq!(v, dc.y);
    let mut dc2 = DCBlocker::reset();
    let v2 = eval_gen(OscGen::Skloinky, Q_QUARTER, Q_ONE / 100, &mut dc2, &mut rng());
    assert_ne!(dc2.x, 0);
    assert_eq!(v2, dc2.y);
}

#[test]
fn note_on_starts_and_note_off_releases() {
    let params = ParamStore::new(48000);
    let mut r = rng();
    let mut key = Key::new(60);
    assert!(!key.is_on());
    key.on(100, &params, &mut r);
    assert!(key.is_on());
    assert_eq!(key.velocity, 100 * Q_ONE / 127);
    key.release();
    assert!(key.is_on());
    key.end();
    assert!(!key.is_on());
}

#[test]
fn velocity_zero_is_note_off_in_disguise() {
    let params = ParamStore::new(48000);
    let mut r = rng();
    let mut key = Key::new(60);
    key.on(100, &params, &mut r);
    assert!(key.is_on());
    key.on(0, &params, &mut r);
    assert!(!key.is_on());
    assert_eq!(key.phase, vec![0i64, 0, 0, 0]);
}

#[test]
fn random_waveform_resolves_concrete_at_note_on() {
    let mut params = ParamStore::new(48000);
    params.waveforms[0] = Waveform::Random;
    params.waveforms[1] = Waveform::Random;
    params.waveforms[2] = Waveform::Random;
    let mut r = rng();
    let mut seen: Vec<OscGen> = Vec::new();
    for _ in 0..24 {
        let mut key = Key::new(60);
        key.on(100, &params, &mut r);
        for g in key.gen.iter() {
            seen.push(*g);
        }
    }
    // every resolved generator is concrete, and the draws vary
    let first = seen[0];
    assert!(seen.iter().any(|g| *g != first));
}

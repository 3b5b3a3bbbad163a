use fox3osc::blep::{integrate_f1, integrate_square_wave, polyblep, Q_HALF, Q_TWO_THIRDS};
use fox3osc::dc_blocker::DCBlocker;
use fox3osc::fixed::Q_ONE;

fn to_f(x: i64) -> f64 {
    x as f64 / Q_ONE as f64
}

fn from_f(x: f64) -> i64 {
    (x * Q_ONE as f64) as i64
}

/// The band-limited square-wave integral evaluated in floating point.
fn integrate_square_wave_ref(p: f64, ts: f64) -> f64 {
    let f1 = |p: f64| -p.powi(3) / 3.0 + p.powi(2);
    let mut value = 0.0;
    let mut prest = p;
    if p <= ts {
        value += f1(p / ts) * ts;
    } else {
        value += (2.0 / 3.0) * ts;
        prest -= ts;
        if p <= 0.5 - ts {
            value += prest;
        } else {
            value += 0.5 - 2.0 * ts;
            prest -= 0.5 - 2.0 * ts;
            if p <= 0.5 {
                value += ((2.0 / 3.0) - f1(1.0 - prest / ts)) * ts;
            } else {
                value += (2.0 / 3.0) * ts;
                prest -= ts;
                value -= integrate_square_wave_ref(prest, ts);
            }
        }
    }
    value
}

#[test]
fn polyblep_boundary_values() {
    // zero at and beyond both edges; exactly one at the discontinuity
    assert_eq!(polyblep(0), Q_ONE);
    assert_eq!(polyblep(Q_ONE), 0);
    assert_eq!(polyblep(-Q_ONE), 0);
    assert_eq!(polyblep(2 * Q_ONE), 0);
    assert_eq!(polyblep(-5 * Q_ONE), 0);
    assert_eq!(polyblep(i64::MAX), 0);
    assert_eq!(polyblep(i64::MIN + 1), 0);
}

#[test]
fn polyblep_quadratic_branches() {
    // (t + 1)^2 on the left branch
    assert_eq!(polyblep(-Q_HALF), Q_ONE / 4);
    // -(t - 1)^2 on the right branch
    assert_eq!(polyblep(Q_HALF), -(Q_ONE / 4));
    for t in [-0.875f64, -0.25, -0.0625, 0.0625, 0.25, 0.875] {
        let got = to_f(polyblep(from_f(t)));
        let expected = if t <= 0.0 { (t + 1.0) * (t + 1.0) } else { -((t - 1.0) * (t - 1.0)) };
        assert!((got - expected).abs() < 1e-6);
    }
}

#[test]
fn integrate_f1_matches_polynomial() {
    assert_eq!(integrate_f1(0), 0);
    // at a full transition the integral is 2/3 (one truncation step above
    // the rounded-down constant)
    assert_eq!(integrate_f1(Q_ONE), Q_ONE - Q_ONE / 3);
    assert!((integrate_f1(Q_ONE) - Q_TWO_THIRDS).abs() <= 1);
    for p in [0.125f64, 0.5, 0.75, 1.0] {
        let got = to_f(integrate_f1(from_f(p)));
        let expected = -p.powi(3) / 3.0 + p.powi(2);
        assert!((got - expected).abs() < 1e-6);
    }
}

#[test]
fn square_wave_integral_matches_float_evaluation() {
    for ts in [0.01f64, 0.05, 0.2] {
        for i in 0..40 {
            let p = i as f64 / 40.0;
            let got = to_f(integrate_square_wave(from_f(p), from_f(ts)));
            let expected = integrate_square_wave_ref(p, ts);
            assert!(
                (got - expected).abs() < 1e-5,
                "p={} ts={} got={} expected={}",
                p,
                ts,
                got,
                expected
            );
        }
    }
}

#[test]
fn dc_blocker_difference_equation() {
    let mut d = DCBlocker::reset();
    // y = x - x_prev + R * y_prev with R = 995/1000
    assert_eq!(d.process(Q_ONE), Q_ONE);
    assert_eq!(d.x, Q_ONE);
    let expected = 995 * Q_ONE / 1000;
    assert_eq!(d.process(Q_ONE), expected);
    let expected2 = -Q_ONE + 995 * expected / 1000;
    assert_eq!(d.process(0), expected2);
}

#[test]
fn dc_blocker_removes_constant_input() {
    let mut d = DCBlocker::reset();
    let mut prev = d.process(Q_ONE).abs();
    for _ in 0..4000 {
        let y = d.process(Q_ONE).abs();
        assert!(y < prev || prev == 0);
        prev = y;
    }
    // after 4000 samples of DC the response has decayed to the noise floor
    assert!(prev < Q_ONE / 10000);
}

#[test]
fn dc_blocker_passes_transients() {
    let mut d = DCBlocker::reset();
    d.process(0);
    // a step change passes through at full amplitude
    let y = d.process(Q_ONE);
    assert_eq!(y, Q_ONE);
}

use flocking::fixed::ONE;
use flocking::jaymath::{delta_angle, repeat, smooth_damp, smooth_damp_angle, PI, TAU};

/// A value in units, in the library's fixed point.
fn fx(v: f64) -> i64 {
    (v * ONE as f64).round() as i64
}

/// Equal magnitudes, to the library's resolution of one millionth.
fn approx_eq(fixed: i64, expected: f64) -> bool {
    let result = ((fixed as f64).abs() - (expected * ONE as f64).abs()).abs() <= 1.0;
    if !result {
        println!("Expected {} and {} to be equal and they were not.", fixed, expected);
    }
    result
}

const PI32: f64 = std::f32::consts::PI as f64;
const TAU32: f64 = std::f32::consts::TAU as f64;

#[test]
fn delta_angle_a() {
    assert!(approx_eq(delta_angle(fx(0.0), fx(3.14)), 3.14));
}

#[test]
fn delta_angle_b() {
    println!("delta_angle(0,4)={}", delta_angle(fx(0.0), fx(4.0)));
    assert!(approx_eq(delta_angle(fx(0.0), fx(4.0)), -2.2831855));
}

#[test]
fn delta_angle_c() {
    assert!(approx_eq(delta_angle(fx(PI32), fx(TAU32 - 0.1)), PI32 - 0.1));
}

#[test]
fn delta_angle_d() {
    assert!(approx_eq(delta_angle(fx(-PI32), fx(-TAU32 + 0.1)), -PI32 + 0.1));
}

#[test]
fn repeat_a() {
    assert!(approx_eq(repeat(fx(-PI32), TAU), PI32));
}

#[test]
fn delta_angle_half_turn_and_past_it() {
    assert_eq!(delta_angle(0, PI), PI);
    assert_eq!(delta_angle(0, 4_000_000), -2_283_186);
    assert_eq!(delta_angle(4_000_000, 0), 2_283_186);
    assert_eq!(delta_angle(3_000_000, -3_000_000), 283_186);
    assert_eq!(delta_angle(-3_000_000, 3_000_000), -283_186);
    // half-turn ties fall on both sides alike
    assert_eq!(TAU, 2 * PI);
    assert_eq!(delta_angle(0, -PI), -PI);
    assert_eq!(delta_angle(-PI, 0), PI);
    assert_eq!(delta_angle(1_000_000, 1_000_000), 0);
}

#[test]
fn delta_angle_wraps_whole_turns() {
    // seven radians is one turn and 0.716814 more
    assert_eq!(delta_angle(0, 7_000_000), 716_814);
    assert_eq!(delta_angle(0, TAU), 0);
    assert_eq!(delta_angle(0, 3 * TAU + 100), 100);
}

#[test]
fn repeat_keeps_the_sign() {
    assert_eq!(repeat(7, 5), 2);
    assert_eq!(repeat(-7, 5), -2);
    assert_eq!(repeat(10, 5), 0);
    assert_eq!(repeat(-10, 5), 0);
    assert_eq!(repeat(3, 5), 3);
}

#[test]
fn smooth_damp_one_step() {
    // from 0 towards 1 in 0.1 s, at most 100 units/s, a step of 0.01 s
    let (value, velocity) = smooth_damp(0, ONE, 0, 100_000, 100 * ONE, 10_000);
    assert_eq!((value, velocity), (17_264, 3_275_788));
    // the same step in floating point, for comparison
    let (fv, fvel) = float_smooth_damp(0.0, 1.0, 0.0, 0.1, 100.0, 0.01);
    assert!((value as f64 / 1e6 - fv).abs() < 1e-5);
    assert!((velocity as f64 / 1e6 - fvel).abs() < 1e-4);
}

#[test]
fn smooth_damp_speed_cap() {
    // the spring pulls across at most max_speed * smooth_time = 0.1 units
    let (value, _) = smooth_damp(0, 10 * ONE, 0, 100_000, ONE, 10_000);
    let (free, _) = smooth_damp(0, 10 * ONE, 0, 100_000, 1_000 * ONE, 10_000);
    assert!(value > 0 && value < 2_000);
    assert!(free > 100_000);
}

#[test]
fn smooth_damp_at_target_stays() {
    assert_eq!(smooth_damp(5 * ONE, 5 * ONE, 0, 100_000, ONE, 10_000), (5 * ONE, 0));
    // a zero smoothing time is raised to the minimum, not divided by; the
    // step then covers at most max_speed * 1e-5 s = 0.01 units
    let (value, _) = smooth_damp(0, ONE, 0, 0, 1_000 * ONE, 10_000);
    assert_eq!(value, 10_000);
}

#[test]
fn smooth_damp_never_overshoots() {
    let starts = [-3 * ONE, -1, 0, 7, 2 * ONE];
    let targets = [-2 * ONE, 0, 5, ONE, 4 * ONE];
    let velocities = [-50 * ONE, -ONE, 0, ONE, 50 * ONE];
    for &c in starts.iter() {
        for &t in targets.iter() {
            for &v in velocities.iter() {
                for &dt in [1_000i64, 16_666, 100_000, ONE].iter() {
                    let (out, _) = smooth_damp(c, t, v, 100_000, 20 * ONE, dt);
                    if t > c {
                        assert!(out <= t, "{} {} {} {} -> {}", c, t, v, dt, out);
                    }
                    if t < c {
                        assert!(out >= t, "{} {} {} {} -> {}", c, t, v, dt, out);
                    }
                }
            }
        }
    }
}

#[test]
fn smooth_damp_angle_goes_the_short_way() {
    // from 3 rad towards -3 rad: the short way is up through π
    let (value, _) = smooth_damp_angle(3 * ONE, -3 * ONE, 0, 100_000, 100 * ONE, 10_000);
    assert!(value > 3 * ONE);
    let (plain, _) = smooth_damp(3 * ONE, -3 * ONE, 0, 100_000, 100 * ONE, 10_000);
    assert!(plain < 3 * ONE);
}

#[test]
fn smooth_damp_from_rest_moves_towards_the_target() {
    // a tiny step with a long smoothing time must not move away
    let (value, _) = smooth_damp(2_000_000, 0, 0, 3_000_000, 10_000_000, 1);
    assert!((0..=2_000_000).contains(&value), "{}", value);
    let (angle, _) = smooth_damp_angle(0, 3_000_000, 0, 3_000_000, 10_000_000, 1);
    assert!((0..=3_000_000).contains(&angle), "{}", angle);
    for &c in [-5 * ONE, -3, 0, 1, 4 * ONE].iter() {
        for &t in [-4 * ONE, -1, 0, 2, 5 * ONE].iter() {
            for &dt in [1i64, 999, 10_000, ONE].iter() {
                for &st in [0i64, 100_000, 3 * ONE].iter() {
                    let (out, _) = smooth_damp(c, t, 0, st, 10 * ONE, dt);
                    assert!(c.min(t) <= out && out <= c.max(t), "{} {} {} {} -> {}", c, t, dt, st, out);
                    let cap = 10 * st.max(10);
                    assert!((out - c).abs() <= cap, "{} {} {} {} -> {}", c, t, dt, st, out);
                }
            }
        }
    }
}

#[test]
fn smooth_damp_is_symmetric() {
    assert_eq!(smooth_damp(3 * ONE, 3 * ONE, 5 * ONE, 100_000, ONE, 10_000), (3_040_947, 3_275_788));
    assert_eq!(smooth_damp(-3 * ONE, -3 * ONE, -5 * ONE, 100_000, ONE, 10_000), (-3_040_947, -3_275_788));
    let (a, va) = smooth_damp(ONE / 3, -2 * ONE, 7 * ONE, 250_000, 4 * ONE, 16_666);
    let (b, vb) = smooth_damp(-ONE / 3, 2 * ONE, -7 * ONE, 250_000, 4 * ONE, 16_666);
    assert_eq!((a, va), (-b, -vb));
}

fn float_smooth_damp(current: f64, target: f64, velocity: f64, smooth_time: f64, max_speed: f64, dt: f64) -> (f64, f64) {
    let st = smooth_time.max(0.00001);
    let omega = 2.0 / st;
    let x = omega * dt;
    let exp = 1.0 / (1.0 + x + 0.48 * x * x + 0.235 * x * x * x);
    let max_change = max_speed * st;
    let change = (current - target).clamp(-max_change, max_change);
    let target_rel = current - change;
    let temp = (velocity + omega * change) * dt;
    let velocity_new = (velocity - omega * temp) * exp;
    let output = target_rel + (change + temp) * exp;
    (output, velocity_new)
}

use pendulum::fixed::{fp_div, fp_mul, sat_add};
use pendulum::structs::Pendulum;
use pendulum::trig::{cos_fp, sin_fp};

#[test]
fn fixed_point_products_round_toward_zero() {
    assert_eq!(fp_mul(3_000_000_000, 500_000_000), 1_500_000_000);
    assert_eq!(fp_mul(-3_000_000_000, 500_000_000), -1_500_000_000);
    assert_eq!(fp_mul(3_000_000_000, -500_000_000), -1_500_000_000);
    assert_eq!(fp_mul(-3_000_000_000, -500_000_000), 1_500_000_000);
    assert_eq!(fp_mul(1, 1), 0);
    assert_eq!(fp_mul(-1, 1), 0);
    assert_eq!(fp_mul(0, i64::MAX), 0);
}

#[test]
fn fixed_point_products_saturate() {
    assert_eq!(fp_mul(i64::MAX, i64::MAX), i64::MAX);
    assert_eq!(fp_mul(i64::MAX, -i64::MAX), i64::MIN);
    assert_eq!(fp_mul(i64::MIN, i64::MAX), i64::MIN);
}

#[test]
fn fixed_point_quotients_round_toward_zero() {
    assert_eq!(fp_div(1_000_000_000, 3_000_000_000), 333_333_333);
    assert_eq!(fp_div(-1_000_000_000, 3_000_000_000), -333_333_333);
    assert_eq!(fp_div(0, 7), 0);
    assert_eq!(fp_div(2_000_000_000, 500_000_000), 4_000_000_000);
}

#[test]
fn saturating_addition() {
    assert_eq!(sat_add(2, 3), 5);
    assert_eq!(sat_add(-2, -3), -5);
    assert_eq!(sat_add(i64::MAX, 1), i64::MAX);
    assert_eq!(sat_add(i64::MIN, -1), i64::MIN);
    assert_eq!(sat_add(i64::MAX, i64::MIN), -1);
}

#[test]
fn sine_matches_reference_points() {
    assert_eq!(sin_fp(0), 0);
    // sin(0.1) = 0.0998334166..., truncated to nanoradian units
    assert_eq!(sin_fp(100_000_000), 99_833_416);
    // odd symmetry
    assert_eq!(sin_fp(-100_000_000), -99_833_416);
    // periodicity: one full turn later the value repeats
    assert_eq!(sin_fp(100_000_000 + 6_283_185_308), 99_833_416);
    assert_eq!(sin_fp(100_000_000 - 6_283_185_308), 99_833_416);
    // a half turn lands on the folding point exactly
    assert_eq!(sin_fp(3_141_592_654), 0);
}

#[test]
fn sine_and_cosine_near_the_quarter_turn() {
    let s = sin_fp(1_570_796_327);
    assert!(s > 999_999_000 && s <= 1_000_000_000);
    let c = cos_fp(0);
    assert!(c > 999_999_000 && c <= 1_000_000_000);
    // cos is sin shifted by a quarter turn
    assert_eq!(cos_fp(-1_570_796_327 + 100_000_000), sin_fp(100_000_000));
}

#[test]
fn advance_is_deterministic() {
    let mut a = Pendulum {
        angle: 100_000_000,
        angular_velocity: 50_000_000,
        angular_acceleration: 0,
        length: 1_000_000_000,
    };
    let mut b = a;
    for _ in 0..50 {
        a.advance(1_000_000);
        b.advance(1_000_000);
        assert_eq!(a, b);
    }
}

#[test]
fn equilibrium_is_a_fixed_point() {
    let mut p = Pendulum {
        angle: 0,
        angular_velocity: 0,
        angular_acceleration: 0,
        length: 2_500_000_000,
    };
    for _ in 0..200 {
        p.advance(1_000_000);
        assert_eq!(p.angle, 0);
        assert_eq!(p.angular_velocity, 0);
        assert_eq!(p.angular_acceleration, 0);
    }
}

#[test]
fn advance_one_step_exact_values() {
    // angle 0.1 rad, at rest, one meter, one millisecond step:
    // acceleration -9.81 * sin(0.1), velocity and angle follow with
    // truncation toward zero at each fixed-point product.
    let mut p = Pendulum {
        angle: 100_000_000,
        angular_velocity: 0,
        angular_acceleration: 0,
        length: 1_000_000_000,
    };
    p.advance(1_000_000);
    assert_eq!(p.angular_acceleration, -979_365_810);
    assert_eq!(p.angular_velocity, -979_365);
    assert_eq!(p.angle, 100_000_000 - 979);
}

#[test]
fn near_unstable_equilibrium_acceleration_vanishes() {
    // angle pi: sin is zero up to rounding, so the state barely moves.
    let mut p = Pendulum {
        angle: 3_141_592_653,
        angular_velocity: 0,
        angular_acceleration: 0,
        length: 1_000_000_000,
    };
    p.advance(1_000_000);
    assert!(p.angular_acceleration.abs() < 100);
    for _ in 0..1000 {
        p.advance(1_000_000);
    }
    assert!((p.angle - 3_141_592_653).abs() < 1_000_000);
}

#[test]
fn small_oscillation_crosses_zero_once_in_a_second() {
    // period 2 * pi * sqrt(length / g) is about 2.006 s, so in the first
    // simulated second the angle passes through zero exactly once and ends
    // near the opposite amplitude.
    let mut p = Pendulum {
        angle: 100_000_000,
        angular_velocity: 0,
        angular_acceleration: 0,
        length: 1_000_000_000,
    };
    let mut crossings: u32 = 0;
    let mut prev = p.angle;
    for _ in 0..1000 {
        p.advance(1_000_000);
        if (prev >= 0) != (p.angle >= 0) {
            crossings += 1;
        }
        prev = p.angle;
    }
    assert_eq!(crossings, 1);
    assert!(p.angle < -50_000_000 && p.angle > -150_000_000);
}

#[test]
fn displacement_at_rest_is_minus_length() {
    let p = Pendulum {
        angle: 0,
        angular_velocity: 0,
        angular_acceleration: 0,
        length: 1_000_000_000,
    };
    let d = p.displacement();
    // cos(pi) = -1: the bob hangs one length below the pivot.
    assert!(d >= -1_000_000_000 && d < -999_999_000);
}

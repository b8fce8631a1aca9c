use tuxparty::mathutil::{
    angle_distance, bearing_millideg, choose_closest_bearing, div_milli, div_trunc_i64, isqrt,
    milli_cos, milli_sin,
};

#[test]
fn isqrt_exact_and_floor() {
    assert_eq!(isqrt(0), 0);
    assert_eq!(isqrt(1), 1);
    assert_eq!(isqrt(15), 3);
    assert_eq!(isqrt(16), 4);
    assert_eq!(isqrt(999_999), 999);
    assert_eq!(isqrt(1_000_000), 1000);
    assert_eq!(isqrt(u64::MAX), 4_294_967_295);
}

#[test]
fn truncating_division_rounds_toward_zero() {
    assert_eq!(div_milli(1999), 1);
    assert_eq!(div_milli(-1999), -1);
    assert_eq!(div_trunc_i64(-30, 7), -4);
    assert_eq!(div_trunc_i64(30, 7), 4);
}

#[test]
fn angle_distance_wraps() {
    assert_eq!(angle_distance(0, 0), 0);
    assert_eq!(angle_distance(170_000, -170_000), 20_000);
    assert_eq!(angle_distance(-90_000, 90_000), 180_000);
    assert_eq!(angle_distance(10_000, 0), 10_000);
}

#[test]
fn bearings_on_axes_are_exact() {
    assert_eq!(bearing_millideg(1000, 0), 0);
    assert_eq!(bearing_millideg(0, 1000), 90_000);
    assert_eq!(bearing_millideg(-1000, 0), 180_000);
    assert_eq!(bearing_millideg(0, -1000), -90_000);
    assert_eq!(bearing_millideg(0, 0), 0);
}

#[test]
fn bearing_diagonal_is_45_degrees() {
    assert_eq!(bearing_millideg(1000, 1000), 45_000);
}

#[test]
fn closest_bearing_prefers_nearest_transition() {
    // Two exits at bearings 0 and 180 degrees; an input direction of 10
    // degrees selects the one at 0.
    let bearings: Vec<i64> = vec![0, 180_000];
    assert_eq!(choose_closest_bearing(&bearings, 10_000), 0);
    // Pointing backwards selects the 180-degree exit.
    assert_eq!(choose_closest_bearing(&bearings, 170_000), 1);
}

#[test]
fn closest_bearing_tie_takes_first() {
    let bearings: Vec<i64> = vec![30_000, -30_000];
    assert_eq!(choose_closest_bearing(&bearings, 0), 0);
}

#[test]
fn sine_is_exact_at_right_angles() {
    assert_eq!(milli_sin(0), 0);
    assert_eq!(milli_sin(90_000), 1000);
    assert_eq!(milli_sin(-90_000), -1000);
    assert_eq!(milli_sin(180_000), 0);
    assert_eq!(milli_cos(0), 1000);
    assert_eq!(milli_cos(90_000), 0);
    assert_eq!(milli_cos(180_000), -1000);
}

#[test]
fn sine_is_close_in_between() {
    // sin(30 degrees) = 0.5; the coarse approximation stays within two
    // percent of scale.
    let s = milli_sin(30_000);
    assert!((s - 500).abs() <= 20, "sin(30) approx was {}", s);
    let c = milli_cos(60_000);
    assert!((c - 500).abs() <= 20, "cos(60) approx was {}", c);
}

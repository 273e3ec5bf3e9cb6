use gravity_ball::ball::BallState;
use gravity_ball::collision::{collide_planet, resolve_collisions, GROUNDING_SPEED};
use gravity_ball::fixed::isqrt_u128;
use gravity_ball::gravity::{acceleration_at, contribution_at, Planet};
use gravity_ball::integrator::integrate;
use gravity_ball::vec3::{norm2_u128, scale_to_length, Vec3};

fn planet(x: i64, y: i64, z: i64, mass: i64, radius: i64) -> Planet {
    Planet::new(Vec3::new(x, y, z), mass, radius)
}

fn speed(v: Vec3) -> f64 {
    (norm2_u128(v) as f64).sqrt()
}

#[test]
fn isqrt_rounds_down() {
    assert_eq!(isqrt_u128(0), 0);
    assert_eq!(isqrt_u128(1), 1);
    assert_eq!(isqrt_u128(15), 3);
    assert_eq!(isqrt_u128(16), 4);
    assert_eq!(isqrt_u128(17), 4);
    assert_eq!(isqrt_u128(1_000_000_000_000_000_000), 1_000_000_000);
    assert_eq!(isqrt_u128(1u128 << 126), 1u128 << 63);
}

#[test]
fn scale_to_length_keeps_direction() {
    assert_eq!(scale_to_length(Vec3::new(3, 4, 0), 10), Vec3::new(6, 8, 0));
    assert_eq!(scale_to_length(Vec3::new(0, 0, -7), 10_000), Vec3::new(0, 0, -10_000));
    assert_eq!(scale_to_length(Vec3::zero(), 10_000), Vec3::zero());
}

#[test]
fn positive_mass_pulls_toward_planet() {
    let p = planet(30_000, -20_000, 5_000, 8_000_000, 10_000);
    let a = acceleration_at(Vec3::zero(), &vec![p], None);
    assert!(a.x > 0 && a.y < 0 && a.z > 0);
}

#[test]
fn negative_mass_pushes_away() {
    let p = planet(30_000, -20_000, 0, -2_000_000, 3_000);
    let a = acceleration_at(Vec3::zero(), &vec![p], None);
    assert!(a.x < 0 && a.y > 0);
    assert_eq!(a.z, 0);
}

#[test]
fn magnitude_is_g_m_over_d_squared() {
    // mass 800 at distance 2: 0.0667 * 800 / 4 = 13.34 units per second squared
    let p = planet(20_000, 0, 0, 8_000_000, 10_000);
    let a = acceleration_at(Vec3::zero(), &vec![p], None);
    assert_eq!(a, Vec3::new(133_400, 0, 0));
    let p = planet(0, -20_000, 0, 8_000_000, 10_000);
    let a = acceleration_at(Vec3::zero(), &vec![p], None);
    assert_eq!(a, Vec3::new(0, -133_400, 0));
}

#[test]
fn zero_distance_gives_no_acceleration() {
    let p = planet(1_000, 2_000, 3_000, 8_000_000, 10_000);
    assert_eq!(contribution_at(&p, Vec3::new(1_000, 2_000, 3_000)), Vec3::zero());
}

#[test]
fn excluded_planet_is_left_out() {
    let a = planet(20_000, 0, 0, 8_000_000, 10_000);
    let b = planet(-20_000, 0, 0, 8_000_000, 10_000);
    let both = vec![a, b];
    assert_eq!(acceleration_at(Vec3::zero(), &both, None), Vec3::zero());
    assert_eq!(acceleration_at(Vec3::zero(), &both, Some(1)), Vec3::new(133_400, 0, 0));
    assert_eq!(acceleration_at(Vec3::zero(), &both, Some(0)), Vec3::new(-133_400, 0, 0));
}

#[test]
fn integration_is_semi_implicit() {
    // velocity first: 1 + 2 * 0.5 = 2, then position 0 + 2 * 0.5 = 1
    let r = integrate(Vec3::zero(), Vec3::new(10_000, 0, 0), Vec3::new(20_000, 0, 0), 5_000);
    assert_eq!(r, Some((Vec3::new(10_000, 0, 0), Vec3::new(20_000, 0, 0))));
}

#[test]
fn free_flight_keeps_velocity() {
    let v = Vec3::new(12_345, -6_789, 42);
    let (p, v2) = integrate(Vec3::new(1, 2, 3), v, Vec3::zero(), 167).unwrap();
    assert_eq!(v2, v);
    assert_eq!(p, Vec3::new(1 + 12_345 * 167 / 10_000, 2 - 6_789 * 167 / 10_000, 3));
    let bodies = vec![planet(1_000_000, 0, 0, 8_000_000, 10_000)];
    let (_, r) = resolve_collisions(p, 1_000, v2, &bodies).unwrap();
    assert_eq!(r, BallState::Launched { velocity: v });
}

#[test]
fn integration_out_of_range_is_refused() {
    let r = integrate(Vec3::new(9_999_999_000, 0, 0), Vec3::new(10_000_000, 0, 0), Vec3::zero(), 10_000);
    assert_eq!(r, None);
}

#[test]
fn head_on_bounce_reverses_and_keeps_three_quarters() {
    let p = planet(0, 0, 0, 8_000_000, 10_000);
    let (pos, state) = collide_planet(Vec3::new(10_500, 0, 0), 1_000, Vec3::new(10_000, 0, 0), &p, 0).unwrap();
    assert_eq!(pos, Vec3::new(11_000, 0, 0));
    assert_eq!(state, BallState::Launched { velocity: Vec3::new(-7_500, 0, 0) });
    let (_, state) = collide_planet(Vec3::new(10_500, 0, 0), 1_000, Vec3::new(-40_000, 0, 0), &p, 0).unwrap();
    assert_eq!(state, BallState::Launched { velocity: Vec3::new(30_000, 0, 0) });
}

#[test]
fn oblique_bounce_mirrors_normal_component() {
    let p = planet(0, 0, 0, 8_000_000, 10_000);
    let v = Vec3::new(-8_000, 6_000, 0);
    let (_, state) = collide_planet(Vec3::new(10_500, 0, 0), 1_000, v, &p, 0).unwrap();
    assert_eq!(state, BallState::Launched { velocity: Vec3::new(6_000, 4_500, 0) });
    match state {
        BallState::Launched { velocity } => assert!((speed(velocity) - 0.75 * speed(v)).abs() < 2.0),
        _ => panic!("expected flight"),
    }
}

#[test]
fn no_overlap_leaves_ball_alone() {
    let p = planet(0, 0, 0, 8_000_000, 10_000);
    let v = Vec3::new(100, 200, 300);
    let r = collide_planet(Vec3::new(11_000, 0, 0), 1_000, v, &p, 0);
    assert_eq!(r, Some((Vec3::new(11_000, 0, 0), BallState::Launched { velocity: v })));
}

#[test]
fn centre_contact_uses_fallback_normal() {
    let p = planet(0, 0, 0, 8_000_000, 10_000);
    let (pos, state) = collide_planet(Vec3::zero(), 1_000, Vec3::new(4_000, -8_000, 0), &p, 3).unwrap();
    assert_eq!(pos, Vec3::new(0, 11_000, 0));
    assert_eq!(state, BallState::Launched { velocity: Vec3::new(3_000, 6_000, 0) });
}

#[test]
fn slow_bounce_grounds_on_that_planet() {
    let p = planet(0, 0, 0, 8_000_000, 10_000);
    let (_, state) = collide_planet(Vec3::new(10_500, 0, 0), 1_000, Vec3::new(-2_000, 0, 0), &p, 2).unwrap();
    assert_eq!(state, BallState::Grounded { planet: 2 });
}

#[test]
fn bounce_at_threshold_stays_launched() {
    let p = planet(0, 0, 0, 8_000_000, 10_000);
    // 0.75 * 2667 rounds to exactly the grounding speed
    let (_, state) = collide_planet(Vec3::new(10_500, 0, 0), 1_000, Vec3::new(-2_667, 0, 0), &p, 2).unwrap();
    assert_eq!(state, BallState::Launched { velocity: Vec3::new(GROUNDING_SPEED, 0, 0) });
}

#[test]
fn collisions_follow_planet_order() {
    let first = planet(0, 0, 0, 8_000_000, 10_000);
    let second = planet(21_000, 0, 0, 8_000_000, 10_000);
    let bodies = vec![first, second];
    // overlaps both; the first pushes it to x = 11000, where the second overlaps too
    let (pos, state) = resolve_collisions(Vec3::new(10_800, 0, 0), 1_000, Vec3::new(40_000, 0, 0), &bodies).unwrap();
    assert_eq!(pos, Vec3::new(10_000, 0, 0));
    assert_eq!(state, BallState::Launched { velocity: Vec3::new(22_500, 0, 0) });
}

#[test]
fn grounding_stops_later_planets() {
    let first = planet(0, 0, 0, 8_000_000, 10_000);
    let second = planet(21_000, 0, 0, 8_000_000, 10_000);
    let bodies = vec![first, second];
    let (pos, state) = resolve_collisions(Vec3::new(10_800, 0, 0), 1_000, Vec3::new(-1_000, 0, 0), &bodies).unwrap();
    assert_eq!(pos, Vec3::new(11_000, 0, 0));
    assert_eq!(state, BallState::Grounded { planet: 0 });
}

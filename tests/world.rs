use gravity_ball::aim::{vel_from_delta, AimCommand, InputState};
use gravity_ball::ball::{BallEvent, BallState};
use gravity_ball::camera::CameraState;
use gravity_ball::gravity::{acceleration_at, Planet};
use gravity_ball::integrator::integrate;
use gravity_ball::level::{builtin_level, next_level, LevelDef, LoadError, PointOfInterest, LEVEL_COUNT};
use gravity_ball::predictor::{inside_any_planet, predict};
use gravity_ball::timestep::{DeltaTime, DEFAULT_DT};
use gravity_ball::vec3::{norm2_u128, Vec2, Vec3};
use gravity_ball::world::{load, load_level, preview_scale, LaunchError, StepError, PREVIEW_SAMPLES};

fn planet(x: i64, y: i64, z: i64, mass: i64, radius: i64) -> Planet {
    Planet::new(Vec3::new(x, y, z), mass, radius)
}

fn speed(v: Vec3) -> f64 {
    (norm2_u128(v) as f64).sqrt()
}

fn one_planet_level() -> LevelDef {
    LevelDef {
        planets: vec![planet(0, 0, 0, 8_000_000, 10_000)],
        start: PointOfInterest { planet: 0, direction: Vec3::new(10_000, 10_000, 10_000) },
        goal: PointOfInterest { planet: 0, direction: Vec3::new(-10_000, -10_000, -10_000) },
    }
}

#[test]
fn level_cycle_wraps_to_first() {
    assert_eq!(next_level(0, LEVEL_COUNT), 1);
    assert_eq!(next_level(1, LEVEL_COUNT), 2);
    assert_eq!(next_level(2, LEVEL_COUNT), 0);
    assert_eq!(next_level(0, 1), 0);
}

#[test]
fn builtin_levels_load() {
    for i in 0..LEVEL_COUNT {
        let w = load_level(i).unwrap();
        assert!(matches!(w.ball.state, BallState::Grounded { .. }));
    }
    assert_eq!(load_level(LEVEL_COUNT).err(), Some(LoadError::UnknownLevel));
    assert!(builtin_level(LEVEL_COUNT).is_none());
    assert_eq!(builtin_level(2).unwrap().planets.len(), 4);
}

#[test]
fn builtin_level_data() {
    let l = builtin_level(1).unwrap();
    assert_eq!(l.planets, vec![planet(0, 0, 0, 8_000_000, 13_000), planet(35_000, 10_000, 15_000, 7_500_000, 9_000)]);
    assert_eq!(l.start, PointOfInterest { planet: 0, direction: Vec3::new(0, 10_000, 0) });
    assert_eq!(l.goal, PointOfInterest { planet: 1, direction: Vec3::new(0, -10_000, 0) });
    let w = load_level(1).unwrap();
    assert_eq!(w.planets, l.planets);
    assert_eq!(w.ball.state, BallState::Grounded { planet: 0 });
    // on top of the first planet: 1.3 + 0.1
    assert_eq!(w.ball.position, Vec3::new(0, 14_000, 0));
    // under the second planet: 1.0 - (0.9 + 0.1)
    assert_eq!(w.target.position, Vec3::new(35_000, 0, 15_000));
    let w = load_level(0).unwrap();
    assert_eq!(w.ball.position, Vec3::new(6_351, 6_351, 6_351));
    assert_eq!(load_level(2).unwrap().planets[3].mass, -2_000_000);
}

#[test]
fn start_point_sits_on_surface() {
    let w = load(one_planet_level()).unwrap();
    // (1,1,1) scaled to 1.1 with |(1,1,1)| rounded down: 10000 * 11000 / 17320 = 6351.04
    assert_eq!(w.ball.position, Vec3::new(6_351, 6_351, 6_351));
    assert_eq!(w.ball.state, BallState::Grounded { planet: 0 });
    assert_eq!(w.target.position, Vec3::new(-6_351, -6_351, -6_351));
}

#[test]
fn load_errors() {
    let mut l = one_planet_level();
    l.planets.clear();
    assert_eq!(load(l).err(), Some(LoadError::EmptyLevel));
    let mut l = one_planet_level();
    l.planets = vec![planet(0, 0, 0, 1, 10); 1001];
    assert_eq!(load(l).err(), Some(LoadError::TooManyPlanets));
    let mut l = one_planet_level();
    l.planets[0].radius = 0;
    assert_eq!(load(l).err(), Some(LoadError::InvalidPlanet));
    let mut l = one_planet_level();
    l.goal.planet = 1;
    assert_eq!(load(l).err(), Some(LoadError::UnknownPlanet));
    let mut l = one_planet_level();
    l.start.direction = Vec3::zero();
    assert_eq!(load(l).err(), Some(LoadError::BadDirection));
    let mut l = one_planet_level();
    l.planets[0].position = Vec3::new(9_999_999_999, 0, 0);
    assert_eq!(load(l).err(), Some(LoadError::OutOfRange));
}

#[test]
fn ball_state_transitions() {
    let g = BallState::Grounded { planet: 1 };
    let v = Vec3::new(1, 2, 3);
    let f = BallState::Launched { velocity: v };
    assert_eq!(g.on_event(BallEvent::Launch { velocity: v }), f);
    assert_eq!(f.on_event(BallEvent::Launch { velocity: Vec3::zero() }), f);
    assert_eq!(f.on_event(BallEvent::Settle { planet: 4 }), BallState::Grounded { planet: 4 });
    assert_eq!(g.on_event(BallEvent::Settle { planet: 4 }), g);
}

#[test]
fn launch_only_while_grounded() {
    let mut w = load(one_planet_level()).unwrap();
    let v = w.launch(Vec2::new(500_000, 0), Vec3::new(10_000, 0, 0)).unwrap();
    assert_eq!(w.ball.state, BallState::Launched { velocity: v });
    assert_eq!(w.launch(Vec2::new(0, 0), Vec3::new(10_000, 0, 0)), Err(LaunchError::AlreadyLaunched));
    assert_eq!(w.ball.state, BallState::Launched { velocity: v });
    assert!(w.preview(Vec2::new(0, 0), Vec3::new(10_000, 0, 0), DEFAULT_DT).is_empty());
}

#[test]
fn zero_drag_gives_zero_velocity() {
    let v = vel_from_delta(Vec2::new(0, 0), Vec3::new(10_000, 0, 0), Vec3::new(0, 11_000, 0), Vec3::zero());
    assert_eq!(v, Vec3::zero());
}

#[test]
fn drag_velocity_follows_camera_basis() {
    // ball on top of the planet, camera right = +x: up = +y, dir_up = y x x = -z,
    // dir_around = y x (-z) = -x
    let ball = Vec3::new(0, 11_000, 0);
    let right = Vec3::new(10_000, 0, 0);
    // dragging 50 pixels right moves along +x at one unit per second, plus as much inward
    let v = vel_from_delta(Vec2::new(500_000, 0), right, ball, Vec3::zero());
    assert_eq!(v, Vec3::new(10_000, -10_000, 0));
    // dragging 100 pixels down (positive y) moves along +z at two units per second
    let v = vel_from_delta(Vec2::new(0, 1_000_000), right, ball, Vec3::zero());
    assert_eq!(v, Vec3::new(0, -20_000, 20_000));
}

#[test]
fn drag_gesture_lifecycle() {
    let mut s = InputState::new();
    assert_eq!(s.frame(true, Some(Vec2::new(100, 100)), false, false), AimCommand::Idle);
    assert_eq!(s.frame(true, None, true, false), AimCommand::Preview { drag: Vec2::new(0, 0) });
    assert_eq!(s.start, Some(Vec2::new(100, 100)));
    assert_eq!(s.frame(true, Some(Vec2::new(130, 80)), false, false), AimCommand::Preview { drag: Vec2::new(30, -20) });
    assert_eq!(s.frame(true, Some(Vec2::new(150, 80)), false, true), AimCommand::Launch { drag: Vec2::new(50, -20) });
    assert_eq!(s.start, None);
    assert_eq!(s.frame(true, None, false, false), AimCommand::Idle);
}

#[test]
fn drag_dropped_when_not_grounded() {
    let mut s = InputState::new();
    s.frame(true, Some(Vec2::new(7, 7)), true, false);
    assert_eq!(s.frame(false, Some(Vec2::new(9, 9)), false, true), AimCommand::Idle);
    assert_eq!(s.start, None);
}

#[test]
fn camera_targets() {
    let ball = Vec3::new(1, 2, 3);
    assert_eq!(CameraState::Follow.targets(ball), (ball, ball));
    let fixed = Vec3::new(40_000, 0, 0);
    assert_eq!(CameraState::Around { pos: fixed, id: 1 }.targets(ball), (fixed, fixed));
}

#[test]
fn timestep_smoothing_exact() {
    let mut d = DeltaTime::new();
    assert_eq!(d.time, 167);
    d.update(200);
    assert_eq!(d.time, 174);
    // 100 + 4/5 * 74 = 159.2
    d.update(100);
    assert_eq!(d.time, 159);
}

#[test]
fn timestep_converges_geometrically() {
    let mut d = DeltaTime::new();
    let raw = 10_000;
    let mut gap = (d.time - raw).abs();
    for _ in 0..100 {
        d.update(raw);
        let g = (d.time - raw).abs();
        assert!(5 * g <= 4 * gap);
        gap = g;
    }
    assert_eq!(d.time, raw);
}

#[test]
fn preview_scale_shrinks_linearly() {
    assert_eq!(preview_scale(500, 0, 16), 500);
    assert_eq!(preview_scale(500, 8, 16), 250);
    assert_eq!(preview_scale(500, 15, 16), 31);
}

#[test]
fn prediction_is_deterministic() {
    let w = load_level(2).unwrap();
    let right = Vec3::new(10_000, 0, 0);
    let a = w.preview(Vec2::new(300_000, -200_000), right, DEFAULT_DT);
    let b = w.preview(Vec2::new(300_000, -200_000), right, DEFAULT_DT);
    assert_eq!(a, b);
    assert!(a.len() <= PREVIEW_SAMPLES);
}

#[test]
fn prediction_stops_before_entering_planet() {
    let bodies = vec![planet(0, 0, 0, 8_000_000, 10_000)];
    // straight down onto the planet from height 3
    let path = predict(&bodies, Vec3::new(0, 30_000, 0), Vec3::new(0, -50_000, 0), 16, 20, 167);
    assert!(path.len() < 16);
    for p in &path {
        assert!(!inside_any_planet(&bodies, *p));
    }
    // the same flight with no stopping: samples continue in order
    let far = vec![planet(0, 0, 0, 8_000_000, 1)];
    let full = predict(&far, Vec3::new(0, 30_000, 0), Vec3::new(0, -50_000, 0), 16, 20, 167);
    assert_eq!(&full[..path.len()], &path[..]);
    assert!(full.len() > path.len());
}

#[test]
fn prediction_matches_live_physics() {
    let bodies = vec![planet(0, 0, 0, 8_000_000, 10_000), planet(35_000, 10_000, 15_000, 7_500_000, 9_000)];
    let start = Vec3::new(0, 14_000, 0);
    let vel = Vec3::new(8_000, 12_000, 3_000);
    let path = predict(&bodies, start, vel, 3, 2, 167);
    let mut p = start;
    let mut v = vel;
    let mut live = Vec::new();
    for _ in 0..path.len() {
        for _ in 0..2 {
            let a = acceleration_at(p, &bodies, None);
            let (p2, v2) = integrate(p, v, a, 167).unwrap();
            p = p2;
            v = v2;
        }
        live.push(p);
    }
    assert_eq!(live, path);
}

#[test]
fn step_out_of_range_is_refused() {
    let level = LevelDef {
        planets: vec![planet(9_990_000_000, 0, 0, 1, 10_000)],
        start: PointOfInterest { planet: 0, direction: Vec3::new(1, 0, 0) },
        goal: PointOfInterest { planet: 0, direction: Vec3::new(-1, 0, 0) },
    };
    let mut w = load(level).unwrap();
    w.launch(Vec2::new(0, 1_000_000_000), Vec3::new(0, 0, 10_000)).unwrap();
    let before = w.ball;
    let mut refused = false;
    for _ in 0..1000 {
        match w.step(100_000) {
            Ok(()) => {}
            Err(e) => {
                assert_eq!(e, StepError::LeftRange);
                refused = true;
                break;
            }
        }
    }
    assert!(refused);
    assert_eq!(w.ball.radius, before.radius);
}

#[test]
fn resting_ball_falls_bounces_and_grounds() {
    let mut w = load(one_planet_level()).unwrap();
    let v0 = w.launch(Vec2::new(0, 0), Vec3::new(10_000, 0, 0)).unwrap();
    assert_eq!(v0, Vec3::zero());
    let dt = DEFAULT_DT;
    let mut bounces = 0;
    let mut grounded = false;
    let mut prev_dist = speed(w.ball.position);
    for frame in 0..10_000 {
        let v = match w.ball.state {
            BallState::Launched { velocity } => velocity,
            BallState::Grounded { planet } => {
                assert_eq!(planet, 0);
                grounded = true;
                break;
            }
        };
        let a = acceleration_at(w.ball.position, &w.planets, None);
        if frame == 0 {
            // the ball accelerates toward the planet
            assert!(a.x < 0 && a.y < 0 && a.z < 0);
        }
        let (p_free, v_free) = integrate(w.ball.position, v, a, dt).unwrap();
        w.step(dt).unwrap();
        match w.ball.state {
            BallState::Launched { velocity } if w.ball.position != p_free => {
                bounces += 1;
                assert!((speed(velocity) - 0.75 * speed(v_free)).abs() < 2.0);
            }
            BallState::Launched { velocity } => assert_eq!(velocity, v_free),
            BallState::Grounded { .. } => {}
        }
        prev_dist = speed(w.ball.position);
    }
    assert!(grounded);
    assert!(bounces >= 1);
    assert!((prev_dist - 11_000.0).abs() < 5.0);
}

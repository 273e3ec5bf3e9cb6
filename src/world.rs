//! The world of one level: its planets, the ball and the target, and one frame of
//! live physics.
use vstd::prelude::*;
use crate::aim::{launch_velocity, vel_from_delta};
use crate::ball::{BallState, Motion};
use crate::collision::{contacts_in_order, overlaps, resolve_collisions};
use crate::fixed::{abs, SCALE};
use crate::gravity::{acceleration_at, bodies_valid, field, Planet, MAX_BODIES, MAX_RADIUS};
use crate::integrator::{euler_step, integrate, next_velocity, MAX_DT};
use crate::level::{
    builtin_level, direction_ok, level_error, level_goal, level_planets, level_start, surface_point, LevelDef, LoadError, BALL_RADIUS,
    LEVEL_COUNT, TARGET_RADIUS,
};
use crate::predictor::{path, points_view, predict, substep};
use crate::vec3::{
    in_domain, norm2_u128, scale_to_length, vadd, within, IVec3, Vec2, Vec3, MAX_COORD,
};

verus! {

/// Samples in a trajectory preview.
pub const PREVIEW_SAMPLES: usize = 16;

/// Substeps between two preview samples.
pub const PREVIEW_SUBSTEPS: usize = 20;

#[derive(Clone, Copy, Debug, PartialEq, Eq)]
pub struct Ball {
    pub position: Vec3,
    pub radius: i64,
    pub state: BallState,
}

#[derive(Clone, Copy, Debug, PartialEq, Eq)]
pub struct Target {
    pub position: Vec3,
    pub radius: i64,
}

/// Everything a level holds while it is played.
#[derive(Clone, Debug)]
pub struct World {
    pub planets: Vec<Planet>,
    pub ball: Ball,
    pub target: Target,
}

/// Why a frame could not be simulated.
#[derive(Clone, Copy, Debug, PartialEq, Eq)]
pub enum StepError {
    /// The ball would leave the range that the simulation holds.
    LeftRange,
}

/// Why a launch was refused.
#[derive(Clone, Copy, Debug, PartialEq, Eq)]
pub enum LaunchError {
    /// The ball is already in flight.
    AlreadyLaunched,
}

/// Builds the world of the built-in level at `index`.
pub fn load_level(index: usize) -> (r: Result<World, LoadError>)
    ensures
        index >= LEVEL_COUNT ==> r == Err::<World, LoadError>(LoadError::UnknownLevel),
        index < LEVEL_COUNT ==> (r matches Ok(w) && {
            let planets = level_planets(index as int);
            &&& w.wf()
            &&& w.planets@ == planets
            &&& w.ball.state == BallState::Grounded { planet: level_start(index as int).planet }
            &&& w.ball.position@ == level_start(index as int).resolved(planets, BALL_RADIUS as int)
            &&& w.ball.radius == BALL_RADIUS
            &&& w.target.position@ == level_goal(index as int).resolved(planets, TARGET_RADIUS as int)
            &&& w.target.radius == TARGET_RADIUS
        }),
{
    match builtin_level(index) {
        Some(level) => load(level),
        None => Err(LoadError::UnknownLevel),
    }
}

/// One frame of live physics for a flying ball: the field of all the planets, one Euler
/// step, then the collisions in planet order.
pub open spec fn frame(planets: Seq<Planet>, pos: IVec3, radius: int, v: IVec3, dt: int) -> Option<(IVec3, Motion)> {
    match euler_step(pos, v, field(planets, pos, None), dt) {
        Some((p2, v2)) => contacts_in_order(p2, radius, v2, planets, planets.len()),
        None => None,
    }
}

impl World {
    pub open spec fn wf(&self) -> bool {
        &&& bodies_valid(self.planets@)
        &&& self.planets@.len() >= 1
        &&& in_domain(self.ball.position@)
        &&& 0 < self.ball.radius <= MAX_RADIUS
        &&& in_domain(self.target.position@)
        &&& match self.ball.state {
            BallState::Grounded { planet } => planet < self.planets@.len(),
            BallState::Launched { velocity } => in_domain(velocity@),
        }
    }
}

fn coord_ok(c: i64) -> (r: bool)
    ensures
        r == (abs(c as int) <= MAX_COORD),
{
    -MAX_COORD <= c && c <= MAX_COORD
}

fn in_range(v: Vec3) -> (r: bool)
    ensures
        r == in_domain(v@),
{
    coord_ok(v.x) && coord_ok(v.y) && coord_ok(v.z)
}

fn planet_ok(p: &Planet) -> (r: bool)
    ensures
        r == p.valid(),
{
    in_range(p.position) && -crate::gravity::MAX_MASS <= p.mass && p.mass <= crate::gravity::MAX_MASS
        && 0 < p.radius && p.radius <= MAX_RADIUS
}

/// The point `clearance` above `planet` along `direction`, if it lies in range.
fn surface_point_in_range(planet: &Planet, direction: Vec3, clearance: i64) -> (r: Option<Vec3>)
    requires
        planet.valid(),
        in_domain(direction@),
        0 <= clearance <= MAX_RADIUS,
    ensures
        r is Some <==> in_domain(surface_point(*planet, direction@, clearance as int)),
        r matches Some(v) ==> v@ == surface_point(*planet, direction@, clearance as int),
{
    let offset = scale_to_length(direction, planet.radius + clearance);
    let p = Vec3 {
        x: planet.position.x + offset.x,
        y: planet.position.y + offset.y,
        z: planet.position.z + offset.z,
    };
    assert(p@ == vadd(planet.position@, offset@));
    if in_range(p) {
        Some(p)
    } else {
        None
    }
}

fn direction_in_range(d: Vec3) -> (r: bool)
    ensures
        r == direction_ok(d@),
{
    if !in_range(d) {
        return false;
    }
    norm2_u128(d) != 0
}

/// Builds the world of `level`: the ball rests on the start planet at the start point,
/// the target sits at the goal point. A level with something wrong is refused with the
/// first error that `level_error` finds.
pub fn load(level: LevelDef) -> (r: Result<World, LoadError>)
    ensures
        match r {
            Err(e) => level_error(level) == Some(e),
            Ok(w) => {
                &&& level_error(level) is None
                &&& w.wf()
                &&& w.planets@ == level.planets@
                &&& w.ball.position@ == level.start.resolved(level.planets@, BALL_RADIUS as int)
                &&& w.ball.radius == BALL_RADIUS
                &&& w.ball.state == BallState::Grounded { planet: level.start.planet }
                &&& w.target.position@ == level.goal.resolved(level.planets@, TARGET_RADIUS as int)
                &&& w.target.radius == TARGET_RADIUS
            },
        },
{
    let n = level.planets.len();
    if n == 0 {
        return Err(LoadError::EmptyLevel);
    }
    if n > MAX_BODIES {
        return Err(LoadError::TooManyPlanets);
    }
    let mut i: usize = 0;
    while i < n
        invariant
            0 <= i <= n,
            n == level.planets@.len(),
            0 < n <= MAX_BODIES,
            forall|j: int| 0 <= j < i ==> (#[trigger] level.planets@[j]).valid(),
        decreases n - i,
    {
        if !planet_ok(&level.planets[i]) {
            assert(!level.planets@[i as int].valid());
            return Err(LoadError::InvalidPlanet);
        }
        i = i + 1;
    }
    let start = level.start;
    let goal = level.goal;
    if start.planet >= n || goal.planet >= n {
        return Err(LoadError::UnknownPlanet);
    }
    if !direction_in_range(start.direction) || !direction_in_range(goal.direction) {
        return Err(LoadError::BadDirection);
    }
    let from = surface_point_in_range(&level.planets[start.planet], start.direction, BALL_RADIUS);
    let to = surface_point_in_range(&level.planets[goal.planet], goal.direction, TARGET_RADIUS);
    match (from, to) {
        (Some(ball_at), Some(target_at)) => {
            let ball = Ball {
                position: ball_at,
                radius: BALL_RADIUS,
                state: BallState::Grounded { planet: start.planet },
            };
            let target = Target { position: target_at, radius: TARGET_RADIUS };
            Ok(World { planets: level.planets, ball, target })
        },
        _ => Err(LoadError::OutOfRange),
    }
}

/// Collisions keep the ball in range and settle it only on one of the planets checked.
pub proof fn lemma_resolve_in_range(pos: IVec3, radius: int, v: IVec3, planets: Seq<Planet>, n: nat)
    requires
        in_domain(pos),
        in_domain(v),
    ensures
        contacts_in_order(pos, radius, v, planets, n) matches Some((p, m)) ==> {
            &&& in_domain(p)
            &&& m matches Motion::Flight(w) ==> in_domain(w)
            &&& m matches Motion::Rest(i) ==> 0 <= i < n
        },
    decreases n,
{
    if n > 0 {
        lemma_resolve_in_range(pos, radius, v, planets, (n - 1) as nat);
    }
}

/// Collisions leave a ball that touches none of the planets as it was.
pub proof fn lemma_resolve_untouched(pos: IVec3, radius: int, v: IVec3, planets: Seq<Planet>, n: nat)
    requires
        n <= planets.len(),
        forall|i: int| 0 <= i < n ==> !overlaps(pos, radius, #[trigger] planets[i]),
    ensures
        contacts_in_order(pos, radius, v, planets, n) == Some((pos, Motion::Flight(v))),
    decreases n,
{
    if n > 0 {
        lemma_resolve_untouched(pos, radius, v, planets, (n - 1) as nat);
        assert(!overlaps(pos, radius, planets[n - 1]));
    }
}

/// A frame in which the ball touches no planet applies no damping: the ball flies on with
/// exactly the velocity of the Euler step, its old velocity plus the acceleration times
/// `dt`, so only a collision takes speed away.
pub proof fn lemma_free_flight_frame(planets: Seq<Planet>, pos: IVec3, radius: int, v: IVec3, dt: int)
    requires
        euler_step(pos, v, field(planets, pos, None), dt) is Some,
        forall|i: int|
            0 <= i < planets.len() ==> !overlaps(
                euler_step(pos, v, field(planets, pos, None), dt).unwrap().0,
                radius,
                #[trigger] planets[i],
            ),
    ensures
        frame(planets, pos, radius, v, dt) == Some(
            (
                euler_step(pos, v, field(planets, pos, None), dt).unwrap().0,
                Motion::Flight(next_velocity(v, field(planets, pos, None), dt)),
            ),
        ),
{
    let (p2, v2) = euler_step(pos, v, field(planets, pos, None), dt).unwrap();
    lemma_resolve_untouched(p2, radius, v2, planets, planets.len());
}

/// The preview runs the live equations: where a preview substep from a position and
/// velocity completes and the ball, at its new position, touches no planet, a live frame
/// of the same length from the same state ends in the same position and velocity.
pub proof fn lemma_preview_matches_live(planets: Seq<Planet>, pos: IVec3, radius: int, v: IVec3, dt: int)
    requires
        substep(planets, (pos, v), dt) is Some,
        forall|i: int|
            0 <= i < planets.len() ==> !overlaps(
                substep(planets, (pos, v), dt).unwrap().0,
                radius,
                #[trigger] planets[i],
            ),
    ensures
        frame(planets, pos, radius, v, dt) == Some(
            (
                substep(planets, (pos, v), dt).unwrap().0,
                Motion::Flight(substep(planets, (pos, v), dt).unwrap().1),
            ),
        ),
{
    lemma_free_flight_frame(planets, pos, radius, v, dt);
}

impl World {
    /// One frame of live physics with the frame's own time step `dt`. A grounded ball
    /// stays where it is. A flying ball moves as `frame` describes; where that would take
    /// it out of range the world stays as it was and the frame is refused.
    pub fn step(&mut self, dt: i64) -> (r: Result<(), StepError>)
        requires
            old(self).wf(),
            0 <= dt <= MAX_DT,
        ensures
            final(self).wf(),
            final(self).planets@ == old(self).planets@,
            final(self).target == old(self).target,
            final(self).ball.radius == old(self).ball.radius,
            match old(self).ball.state {
                BallState::Grounded { .. } => r is Ok && final(self).ball == old(self).ball,
                BallState::Launched { velocity } => match frame(
                    old(self).planets@,
                    old(self).ball.position@,
                    old(self).ball.radius as int,
                    velocity@,
                    dt as int,
                ) {
                    Some((p, m)) => r is Ok && final(self).ball.position@ == p && final(self).ball.state@ == m,
                    None => r == Err::<(), StepError>(StepError::LeftRange) && final(self).ball == old(self).ball,
                },
            },
    {
        let velocity = match self.ball.state {
            BallState::Grounded { .. } => {
                return Ok(());
            },
            BallState::Launched { velocity } => velocity,
        };
        let pos = self.ball.position;
        let acc = acceleration_at(pos, &self.planets, None);
        let moved = integrate(pos, velocity, acc, dt);
        let (p2, v2) = match moved {
            Some(pv) => pv,
            None => {
                return Err(StepError::LeftRange);
            },
        };
        let hit = resolve_collisions(p2, self.ball.radius, v2, &self.planets);
        proof {
            lemma_resolve_in_range(p2@, self.ball.radius as int, v2@, self.planets@, self.planets@.len());
        }
        match hit {
            Some((p3, state)) => {
                self.ball.position = p3;
                self.ball.state = state;
                Ok(())
            },
            None => Err(StepError::LeftRange),
        }
    }

    /// Launches a grounded ball with the velocity that the drag `drag` gives, seen with the
    /// camera's right-hand direction `camera_right`, and returns that velocity. A ball in
    /// flight cannot be launched.
    pub fn launch(&mut self, drag: Vec2, camera_right: Vec3) -> (r: Result<Vec3, LaunchError>)
        requires
            old(self).wf(),
            abs(drag.x as int) <= MAX_COORD,
            abs(drag.y as int) <= MAX_COORD,
            within(camera_right@, SCALE as int),
        ensures
            final(self).wf(),
            final(self).planets@ == old(self).planets@,
            final(self).target == old(self).target,
            final(self).ball.position == old(self).ball.position,
            final(self).ball.radius == old(self).ball.radius,
            match old(self).ball.state {
                BallState::Grounded { planet } => r matches Ok(v) && v@ == launch_velocity(
                    drag,
                    camera_right@,
                    old(self).ball.position@,
                    old(self).planets@[planet as int].position@,
                ) && final(self).ball.state == BallState::Launched { velocity: v },
                BallState::Launched { .. } => r == Err::<Vec3, LaunchError>(LaunchError::AlreadyLaunched)
                    && final(self).ball == old(self).ball,
            },
    {
        match self.ball.state {
            BallState::Grounded { planet } => {
                let center = self.planets[planet].position;
                let v = vel_from_delta(drag, camera_right, self.ball.position, center);
                self.ball.state = self.ball.state.on_event(crate::ball::BallEvent::Launch { velocity: v });
                Ok(v)
            },
            BallState::Launched { .. } => Err(LaunchError::AlreadyLaunched),
        }
    }

    /// The preview of the shot that the drag would launch, with the smoothed time step
    /// `dt`: `PREVIEW_SAMPLES` samples, `PREVIEW_SUBSTEPS` substeps apart. A ball in flight
    /// has no preview.
    pub fn preview(&self, drag: Vec2, camera_right: Vec3, dt: i64) -> (r: Vec<Vec3>)
        requires
            self.wf(),
            abs(drag.x as int) <= MAX_COORD,
            abs(drag.y as int) <= MAX_COORD,
            within(camera_right@, SCALE as int),
            0 <= dt <= MAX_DT,
        ensures
            match self.ball.state {
                BallState::Grounded { planet } => points_view(r@) == path(
                    self.planets@,
                    (
                        self.ball.position@,
                        launch_velocity(
                            drag,
                            camera_right@,
                            self.ball.position@,
                            self.planets@[planet as int].position@,
                        ),
                    ),
                    dt as int,
                    PREVIEW_SAMPLES as nat,
                    PREVIEW_SUBSTEPS as nat,
                ),
                BallState::Launched { .. } => r@.len() == 0,
            },
    {
        match self.ball.state {
            BallState::Grounded { planet } => {
                let center = self.planets[planet].position;
                let v = vel_from_delta(drag, camera_right, self.ball.position, center);
                predict(&self.planets, self.ball.position, v, PREVIEW_SAMPLES, PREVIEW_SUBSTEPS, dt)
            },
            BallState::Launched { .. } => Vec::new(),
        }
    }
}

/// The size of preview sample `i` of `count`: `base * (1 - i / count)`, rounded down.
pub fn preview_scale(base: i64, i: usize, count: usize) -> (r: i64)
    requires
        0 <= base <= MAX_COORD,
        i < count,
    ensures
        r == base * (count - i) / (count as int),
        0 <= r <= base,
{
    proof {
        assert(0 <= base * (count - i) <= base * count) by (nonlinear_arith)
            requires
                0 <= base,
                i < count,
        ;
        assert(base * (count - i) / (count as int) <= base) by {
            vstd::arithmetic::div_mod::lemma_div_is_ordered(base * (count - i), base * count, count as int);
            vstd::arithmetic::div_mod::lemma_div_by_multiple(base as int, count as int);
        }
        vstd::arithmetic::div_mod::lemma_div_pos_is_pos(base * (count - i), count as int);
        assert(base * (count - i) <= MAX_COORD * 0x1_0000_0000_0000_0000) by (nonlinear_arith)
            requires
                0 <= base <= MAX_COORD,
                count - i <= 0x1_0000_0000_0000_0000,
        ;
    }
    let n = base as i128 * (count - i) as i128;
    (n / count as i128) as i64
}

} // verus!

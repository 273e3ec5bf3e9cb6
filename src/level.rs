//! Level definitions, their validation, and moving from one level to the next.
use vstd::prelude::*;
use crate::fixed::abs;
use crate::gravity::{Planet, MAX_BODIES};
use crate::vec3::{
    in_domain, lemma_norm2_positive, lemma_scaled_to_within, norm2, scaled_to, vadd, IVec3, Vec3,
    MAX_COORD,
};

verus! {

/// The ball's radius in raw units (0.1).
pub const BALL_RADIUS: i64 = 1_000;

/// The target's radius in raw units (0.1).
pub const TARGET_RADIUS: i64 = 1_000;

/// A point on a planet's surface: on the ray from the planet's centre along `direction`.
#[derive(Clone, Copy, Debug, PartialEq, Eq)]
pub struct PointOfInterest {
    pub planet: usize,
    pub direction: Vec3,
}

/// A level as authored: the planets, where the ball starts and where the target sits.
#[derive(Clone, Debug)]
pub struct LevelDef {
    pub planets: Vec<Planet>,
    pub start: PointOfInterest,
    pub goal: PointOfInterest,
}

/// Why a level cannot be loaded.
#[derive(Clone, Copy, Debug, PartialEq, Eq)]
pub enum LoadError {
    /// The level has no planet.
    EmptyLevel,
    /// The level has more planets than a field holds.
    TooManyPlanets,
    /// A planet lies out of range, has a mass out of range, or a radius that is not
    /// positive or out of range.
    InvalidPlanet,
    /// A point of interest names a planet that the level does not have.
    UnknownPlanet,
    /// A point of interest has a zero direction, or one out of range.
    BadDirection,
    /// A point of interest resolves to a position out of range.
    OutOfRange,
    /// There is no level with the index asked for.
    UnknownLevel,
}

/// The point `clearance` above the surface of `planet` along `direction`:
/// `planet.position + direction / |direction| * (planet.radius + clearance)`.
pub open spec fn surface_point(planet: Planet, direction: IVec3, clearance: int) -> IVec3 {
    vadd(planet.position@, scaled_to(direction, planet.radius + clearance))
}

pub open spec fn direction_ok(d: IVec3) -> bool {
    in_domain(d) && norm2(d) != 0
}

impl PointOfInterest {
    /// The position this point stands for in `planets`, `clearance` above the surface.
    pub open spec fn resolved(self, planets: Seq<Planet>, clearance: int) -> IVec3 {
        surface_point(planets[self.planet as int], self.direction@, clearance)
    }
}

/// The first thing wrong with `level`, in the order the variants of `LoadError` are
/// listed, or none.
pub open spec fn level_error(level: LevelDef) -> Option<LoadError> {
    let ps = level.planets@;
    if ps.len() == 0 {
        Some(LoadError::EmptyLevel)
    } else if ps.len() > MAX_BODIES {
        Some(LoadError::TooManyPlanets)
    } else if exists|i: int| 0 <= i < ps.len() && !(#[trigger] ps[i]).valid() {
        Some(LoadError::InvalidPlanet)
    } else if level.start.planet >= ps.len() || level.goal.planet >= ps.len() {
        Some(LoadError::UnknownPlanet)
    } else if !direction_ok(level.start.direction@) || !direction_ok(level.goal.direction@) {
        Some(LoadError::BadDirection)
    } else if !in_domain(level.start.resolved(ps, BALL_RADIUS as int)) || !in_domain(
        level.goal.resolved(ps, TARGET_RADIUS as int),
    ) {
        Some(LoadError::OutOfRange)
    } else {
        None
    }
}

/// The level after the one at `current` among `count`: the next index, wrapping from the
/// last level to the first. Advancing needs a level being played.
pub fn next_level(current: usize, count: usize) -> (r: usize)
    requires
        current < count,
    ensures
        r == (current + 1) % (count as int),
{
    if current + 1 == count {
        assert((count as int) % (count as int) == 0) by {
            vstd::arithmetic::div_mod::lemma_mod_self_0(count as int);
        }
        0
    } else {
        assert((current + 1) % (count as int) == current + 1) by {
            vstd::arithmetic::div_mod::lemma_small_mod((current + 1) as nat, count as nat);
        }
        current + 1
    }
}

/// How many levels come built in.
pub const LEVEL_COUNT: usize = 3;

pub open spec fn planet_at(x: i64, y: i64, z: i64, mass: i64, radius: i64) -> Planet {
    Planet { position: Vec3 { x, y, z }, mass, radius }
}

pub open spec fn point_at(planet: usize, x: i64, y: i64, z: i64) -> PointOfInterest {
    PointOfInterest { planet, direction: Vec3 { x, y, z } }
}

/// The planets of built-in level `i`, in raw units: one planet of mass 800 and radius 1;
/// two planets; then four, the last of negative mass.
pub open spec fn level_planets(i: int) -> Seq<Planet> {
    if i == 0 {
        seq![planet_at(0, 0, 0, 8_000_000, 10_000)]
    } else if i == 1 {
        seq![planet_at(0, 0, 0, 8_000_000, 13_000), planet_at(35_000, 10_000, 15_000, 7_500_000, 9_000)]
    } else {
        seq![
            planet_at(0, 0, 0, 800_000, 12_000),
            planet_at(40_000, 10_000, 23_000, 10_000_000, 16_000),
            planet_at(30_000, 3_000, 57_000, 5_000_000, 7_500),
            planet_at(4_000, 14_000, 30_000, -2_000_000i64, 3_000),
        ]
    }
}

/// Where the ball starts in built-in level `i`.
pub open spec fn level_start(i: int) -> PointOfInterest {
    if i == 0 {
        point_at(0, 10_000, 10_000, 10_000)
    } else {
        point_at(0, 0, 10_000, 0)
    }
}

/// Where the target sits in built-in level `i`.
pub open spec fn level_goal(i: int) -> PointOfInterest {
    if i == 0 {
        point_at(0, -10_000i64, -10_000i64, -10_000i64)
    } else if i == 1 {
        point_at(1, 0, -10_000i64, 0)
    } else {
        point_at(2, -5_000i64, -10_000i64, -6_200i64)
    }
}

fn planet(x: i64, y: i64, z: i64, mass: i64, radius: i64) -> (r: Planet)
    ensures
        r == (Planet { position: Vec3 { x, y, z }, mass, radius }),
{
    Planet { position: Vec3 { x, y, z }, mass, radius }
}

fn point(planet: usize, x: i64, y: i64, z: i64) -> (r: PointOfInterest)
    ensures
        r == (PointOfInterest { planet, direction: Vec3 { x, y, z } }),
{
    PointOfInterest { planet, direction: Vec3 { x, y, z } }
}

proof fn lemma_points_in_range(level: LevelDef)
    requires
        level.start.planet < level.planets@.len(),
        level.goal.planet < level.planets@.len(),
        ({
            let a = level.planets@[level.start.planet as int];
            let b = level.planets@[level.goal.planet as int];
            &&& abs(a.position.x as int) + a.radius + BALL_RADIUS <= MAX_COORD
            &&& abs(a.position.y as int) + a.radius + BALL_RADIUS <= MAX_COORD
            &&& abs(a.position.z as int) + a.radius + BALL_RADIUS <= MAX_COORD
            &&& abs(b.position.x as int) + b.radius + TARGET_RADIUS <= MAX_COORD
            &&& abs(b.position.y as int) + b.radius + TARGET_RADIUS <= MAX_COORD
            &&& abs(b.position.z as int) + b.radius + TARGET_RADIUS <= MAX_COORD
            &&& a.radius >= 0
            &&& b.radius >= 0
        }),
    ensures
        in_domain(level.start.resolved(level.planets@, BALL_RADIUS as int)),
        in_domain(level.goal.resolved(level.planets@, TARGET_RADIUS as int)),
{
    let a = level.planets@[level.start.planet as int];
    let b = level.planets@[level.goal.planet as int];
    lemma_scaled_to_within(level.start.direction@, a.radius + BALL_RADIUS);
    lemma_scaled_to_within(level.goal.direction@, b.radius + TARGET_RADIUS);
}

/// The built-in level at `index`, counted from zero; each one loads without error.
pub fn builtin_level(index: usize) -> (r: Option<LevelDef>)
    ensures
        r is Some <==> index < LEVEL_COUNT,
        r matches Some(level) ==> {
            &&& level.planets@ == level_planets(index as int)
            &&& level.start == level_start(index as int)
            &&& level.goal == level_goal(index as int)
            &&& level_error(level) is None
        },
{
    if index == 0 {
        let planets = vec![planet(0, 0, 0, 8_000_000, 10_000)];
        let level = LevelDef {
            planets,
            start: point(0, 10_000, 10_000, 10_000),
            goal: point(0, -10_000, -10_000, -10_000),
        };
        proof {
            assert(level.planets@ =~= level_planets(index as int));
            assert(level.planets@[0].valid());
            lemma_points_in_range(level);
            assert(forall|i: int| 0 <= i < level.planets@.len() ==> (#[trigger] level.planets@[i]).valid());
            lemma_norm2_positive(level.start.direction@);
            lemma_norm2_positive(level.goal.direction@);
        }
        Some(level)
    } else if index == 1 {
        let planets = vec![
            planet(0, 0, 0, 8_000_000, 13_000),
            planet(35_000, 10_000, 15_000, 7_500_000, 9_000),
        ];
        let level = LevelDef {
            planets,
            start: point(0, 0, 10_000, 0),
            goal: point(1, 0, -10_000, 0),
        };
        proof {
            assert(level.planets@[0].valid());
            assert(level.planets@[1].valid());
            lemma_points_in_range(level);
            assert(forall|i: int| 0 <= i < level.planets@.len() ==> (#[trigger] level.planets@[i]).valid());
            lemma_norm2_positive(level.start.direction@);
            lemma_norm2_positive(level.goal.direction@);
        }
        Some(level)
    } else if index == 2 {
        let planets = vec![
            planet(0, 0, 0, 800_000, 12_000),
            planet(40_000, 10_000, 23_000, 10_000_000, 16_000),
            planet(30_000, 3_000, 57_000, 5_000_000, 7_500),
            planet(4_000, 14_000, 30_000, -2_000_000, 3_000),
        ];
        let level = LevelDef {
            planets,
            start: point(0, 0, 10_000, 0),
            goal: point(2, -5_000, -10_000, -6_200),
        };
        proof {
            assert(level.planets@[0].valid());
            assert(level.planets@[1].valid());
            assert(level.planets@[2].valid());
            assert(level.planets@[3].valid());
            lemma_points_in_range(level);
            assert(forall|i: int| 0 <= i < level.planets@.len() ==> (#[trigger] level.planets@[i]).valid());
            lemma_norm2_positive(level.start.direction@);
            lemma_norm2_positive(level.goal.direction@);
        }
        Some(level)
    } else {
        None
    }
}

} // verus!

//! Semi-implicit Euler integration.
use vstd::prelude::*;
use crate::fixed::{abs, lemma_tdiv_at_most, tdiv, SCALE};
use crate::gravity::MAX_ACCEL;
use crate::vec3::{div_each, in_domain, norm2, vadd, vscale, within, zero, IVec3, Vec3, MAX_COORD};

verus! {

/// The longest time step, in raw units (ten seconds).
pub const MAX_DT: i64 = 100_000;

/// Velocity after one step: `v + a * dt`, each component rounded toward zero.
pub open spec fn next_velocity(v: IVec3, a: IVec3, dt: int) -> IVec3 {
    vadd(v, div_each(vscale(a, dt), SCALE as int))
}

/// One semi-implicit Euler step from position `p` and velocity `v` under acceleration
/// `a`: the velocity is updated first and the position moves by the new velocity times
/// `dt`. The pair is (position, velocity); there is none when either leaves the range
/// that the simulation holds.
pub open spec fn euler_step(p: IVec3, v: IVec3, a: IVec3, dt: int) -> Option<(IVec3, IVec3)> {
    let v2 = next_velocity(v, a, dt);
    let p2 = vadd(p, div_each(vscale(v2, dt), SCALE as int));
    if in_domain(v2) && in_domain(p2) {
        Some((p2, v2))
    } else {
        None
    }
}

pub open spec fn pair_view(r: Option<(Vec3, Vec3)>) -> Option<(IVec3, IVec3)> {
    match r {
        Some((p, v)) => Some((p@, v@)),
        None => None,
    }
}

/// Integration applies no damping: the velocity changes by exactly the acceleration
/// times `dt`, rounded toward zero, so with no acceleration the velocity, and with it
/// the speed and the kinetic energy, stay exactly as they were.
pub proof fn lemma_free_flight_undamped(p: IVec3, v: IVec3, a: IVec3, dt: int)
    ensures
        euler_step(p, v, a, dt) matches Some((_, v2)) ==> v2 == next_velocity(v, a, dt),
        next_velocity(v, zero(), dt) == v,
        norm2(next_velocity(v, zero(), dt)) == norm2(v),
{
    assert(tdiv(0 * dt, SCALE as int) == 0) by {
        assert(0 * dt == 0);
    }
    assert(vscale(zero(), dt) == zero());
    assert(div_each(zero(), SCALE as int) == zero());
}

proof fn lemma_step_component(v: int, a: int, dt: int)
    requires
        abs(v) <= MAX_COORD,
        abs(a) <= MAX_ACCEL,
        0 <= dt <= MAX_DT,
    ensures
        abs(a * dt) <= MAX_ACCEL * MAX_DT,
        abs(tdiv(a * dt, SCALE as int)) <= MAX_ACCEL * MAX_DT,
        abs(v * dt) <= MAX_COORD * MAX_DT,
{
    assert(abs(a * dt) <= MAX_ACCEL * MAX_DT) by (nonlinear_arith)
        requires
            abs(a) <= MAX_ACCEL,
            0 <= dt <= MAX_DT,
    ;
    assert(abs(v * dt) <= MAX_COORD * MAX_DT) by (nonlinear_arith)
        requires
            abs(v) <= MAX_COORD,
            0 <= dt <= MAX_DT,
    ;
    lemma_tdiv_at_most(a * dt, SCALE as int, MAX_ACCEL * MAX_DT);
}

fn fits(c: i128) -> (r: bool)
    ensures
        r == (abs(c as int) <= MAX_COORD),
{
    -(MAX_COORD as i128) <= c && c <= MAX_COORD as i128
}

/// One semi-implicit Euler step, or `None` where the result leaves the range that the
/// simulation holds.
pub fn integrate(position: Vec3, velocity: Vec3, acceleration: Vec3, dt: i64) -> (r: Option<(Vec3, Vec3)>)
    requires
        in_domain(position@),
        in_domain(velocity@),
        within(acceleration@, MAX_ACCEL as int),
        0 <= dt <= MAX_DT,
    ensures
        pair_view(r) == euler_step(position@, velocity@, acceleration@, dt as int),
{
    proof {
        lemma_step_component(velocity.x as int, acceleration.x as int, dt as int);
        lemma_step_component(velocity.y as int, acceleration.y as int, dt as int);
        lemma_step_component(velocity.z as int, acceleration.z as int, dt as int);
    }
    let t = dt as i128;
    let s = SCALE as i128;
    let vx = velocity.x as i128 + (acceleration.x as i128 * t) / s;
    let vy = velocity.y as i128 + (acceleration.y as i128 * t) / s;
    let vz = velocity.z as i128 + (acceleration.z as i128 * t) / s;
    if !(fits(vx) && fits(vy) && fits(vz)) {
        return None;
    }
    proof {
        lemma_step_component(vx as int, 0, dt as int);
        lemma_step_component(vy as int, 0, dt as int);
        lemma_step_component(vz as int, 0, dt as int);
        lemma_tdiv_at_most(vx * dt, SCALE as int, MAX_COORD * MAX_DT);
        lemma_tdiv_at_most(vy * dt, SCALE as int, MAX_COORD * MAX_DT);
        lemma_tdiv_at_most(vz * dt, SCALE as int, MAX_COORD * MAX_DT);
    }
    let px = position.x as i128 + (vx * t) / s;
    let py = position.y as i128 + (vy * t) / s;
    let pz = position.z as i128 + (vz * t) / s;
    if !(fits(px) && fits(py) && fits(pz)) {
        return None;
    }
    let p2 = Vec3 { x: px as i64, y: py as i64, z: pz as i64 };
    let v2 = Vec3 { x: vx as i64, y: vy as i64, z: vz as i64 };
    assert(v2@ == next_velocity(velocity@, acceleration@, dt as int));
    Some((p2, v2))
}

} // verus!

//! The trajectory preview: a forward simulation on a copy of the ball's state that
//! runs the same field and integration as the live physics.
use vstd::prelude::*;
use crate::gravity::{acceleration_at, bodies_valid, field, Planet};
use crate::integrator::{euler_step, integrate, MAX_DT};
use crate::vec3::{in_domain, norm2, norm2_u128, vsub, IVec3, Vec3};

verus! {

/// The point `p` lies strictly inside one of the planets.
pub open spec fn inside_any(bodies: Seq<Planet>, p: IVec3) -> bool {
    exists|i: int|
        0 <= i < bodies.len() && #[trigger] norm2(vsub(p, bodies[i].position@)) < bodies[i].radius
            * bodies[i].radius
}

/// One substep from the (position, velocity) pair `s`: the field of all the planets, one
/// Euler step, then the check. There is none when the step leaves the range or ends
/// inside a planet.
pub open spec fn substep(bodies: Seq<Planet>, s: (IVec3, IVec3), dt: int) -> Option<(IVec3, IVec3)> {
    match euler_step(s.0, s.1, field(bodies, s.0, None), dt) {
        Some(t) => if inside_any(bodies, t.0) {
            None
        } else {
            Some(t)
        },
        None => None,
    }
}

/// The state after `k` substeps from `s`, none once a substep has stopped the run.
pub open spec fn run(bodies: Seq<Planet>, s: (IVec3, IVec3), dt: int, k: nat) -> Option<(IVec3, IVec3)>
    decreases k,
{
    if k == 0 {
        Some(s)
    } else {
        match run(bodies, s, dt, (k - 1) as nat) {
            Some(t) => substep(bodies, t, dt),
            None => None,
        }
    }
}

/// The preview of `count` samples with `sub` substeps between samples: sample `j` is the
/// position after `(j + 1) * sub` substeps, and the samples end where the run stops.
pub open spec fn path(bodies: Seq<Planet>, s: (IVec3, IVec3), dt: int, count: nat, sub: nat) -> Seq<IVec3>
    decreases count,
{
    if count == 0 {
        Seq::empty()
    } else {
        let prev = path(bodies, s, dt, (count - 1) as nat, sub);
        match run(bodies, s, dt, count * sub) {
            Some(t) => if prev.len() == count - 1 {
                prev.push(t.0)
            } else {
                prev
            },
            None => prev,
        }
    }
}

pub open spec fn points_view(r: Seq<Vec3>) -> Seq<IVec3> {
    r.map_values(|v: Vec3| v@)
}

/// A run that has stopped stays stopped.
pub proof fn lemma_run_stopped(bodies: Seq<Planet>, s: (IVec3, IVec3), dt: int, k: nat, m: nat)
    requires
        k <= m,
        run(bodies, s, dt, k) is None,
    ensures
        run(bodies, s, dt, m) is None,
    decreases m - k,
{
    if k < m {
        lemma_run_stopped(bodies, s, dt, k, (m - 1) as nat);
    }
}

/// Every state that a substep reached lies outside the planets.
pub proof fn lemma_run_outside(bodies: Seq<Planet>, s: (IVec3, IVec3), dt: int, k: nat)
    requires
        k >= 1,
        run(bodies, s, dt, k) is Some,
    ensures
        !inside_any(bodies, run(bodies, s, dt, k).unwrap().0),
{
}

/// Once the run stops inside macro-step `j`, no later sample is added.
proof fn lemma_path_stalls(bodies: Seq<Planet>, s: (IVec3, IVec3), dt: int, j: nat, m: nat, sub: nat)
    requires
        j <= m,
        run(bodies, s, dt, (j + 1) * sub) is None,
    ensures
        path(bodies, s, dt, m, sub) == path(bodies, s, dt, j, sub),
    decreases m - j,
{
    if j < m {
        lemma_path_stalls(bodies, s, dt, j, (m - 1) as nat, sub);
        assert((j + 1) * sub <= m * sub) by (nonlinear_arith)
            requires
                j + 1 <= m,
        ;
        lemma_run_stopped(bodies, s, dt, (j + 1) * sub, m * sub);
    }
}

/// `p` lies strictly inside one of `bodies`.
pub fn inside_any_planet(bodies: &Vec<Planet>, p: Vec3) -> (r: bool)
    requires
        bodies_valid(bodies@),
        in_domain(p@),
    ensures
        r == inside_any(bodies@, p@),
{
    let mut i: usize = 0;
    while i < bodies.len()
        invariant
            0 <= i <= bodies.len(),
            bodies_valid(bodies@),
            in_domain(p@),
            forall|j: int|
                0 <= j < i ==> !(#[trigger] norm2(vsub(p@, bodies@[j].position@)) < bodies@[j].radius
                    * bodies@[j].radius),
        decreases bodies.len() - i,
    {
        let b = &bodies[i];
        assert(b.valid());
        let d = Vec3 { x: p.x - b.position.x, y: p.y - b.position.y, z: p.z - b.position.z };
        assert(d@ == vsub(p@, b.position@));
        let n2 = norm2_u128(d);
        let r = b.radius as u128;
        assert(r * r <= 1_000_000_000 * 1_000_000_000) by (nonlinear_arith)
            requires
                0 < r <= 1_000_000_000,
        ;
        if n2 < r * r {
            return true;
        }
        i = i + 1;
    }
    false
}

/// The preview path from `start` with `velocity`: `count` samples, `sub` substeps of
/// `dt` between two samples, cut short where a substep ends inside a planet or leaves the
/// range. The world is only read.
pub fn predict(bodies: &Vec<Planet>, start: Vec3, velocity: Vec3, count: usize, sub: usize, dt: i64) -> (r: Vec<Vec3>)
    requires
        bodies_valid(bodies@),
        in_domain(start@),
        in_domain(velocity@),
        0 <= dt <= MAX_DT,
    ensures
        points_view(r@) == path(bodies@, (start@, velocity@), dt as int, count as nat, sub as nat),
{
    let ghost s0 = (start@, velocity@);
    let ghost bs = bodies@;
    let mut pos = start;
    let mut vel = velocity;
    let mut result: Vec<Vec3> = Vec::new();
    let mut j: usize = 0;
    while j < count
        invariant
            0 <= j <= count,
            bodies_valid(bodies@),
            bs == bodies@,
            s0 == (start@, velocity@),
            0 <= dt <= MAX_DT,
            in_domain(pos@),
            in_domain(vel@),
            result@.len() == j,
            points_view(result@) == path(bs, s0, dt as int, j as nat, sub as nat),
            run(bs, s0, dt as int, (j * sub) as nat) == Some((pos@, vel@)),
        decreases count - j,
    {
        let mut k: usize = 0;
        while k < sub
            invariant
                0 <= k <= sub,
                j < count,
                bodies_valid(bodies@),
                bs == bodies@,
                s0 == (start@, velocity@),
                0 <= dt <= MAX_DT,
                in_domain(pos@),
                in_domain(vel@),
                result@.len() == j,
                points_view(result@) == path(bs, s0, dt as int, j as nat, sub as nat),
                run(bs, s0, dt as int, (j * sub + k) as nat) == Some((pos@, vel@)),
            decreases sub - k,
        {
            let a = acceleration_at(pos, bodies, None);
            let ghost before = (pos@, vel@);
            let stopped = match integrate(pos, vel, a, dt) {
                Some((p2, v2)) => {
                    if inside_any_planet(bodies, p2) {
                        true
                    } else {
                        pos = p2;
                        vel = v2;
                        false
                    }
                },
                None => true,
            };
            assert(run(bs, s0, dt as int, (j * sub + k + 1) as nat) == substep(bs, before, dt as int));
            if stopped {
                proof {
                    assert(run(bs, s0, dt as int, (j * sub + k + 1) as nat) is None);
                    assert(j * sub + k + 1 <= (j + 1) * sub) by (nonlinear_arith)
                        requires
                            k < sub,
                    ;
                    lemma_run_stopped(bs, s0, dt as int, (j * sub + k + 1) as nat, ((j + 1) * sub) as nat);
                    lemma_path_stalls(bs, s0, dt as int, j as nat, count as nat, sub as nat);
                }
                return result;
            }
            k = k + 1;
        }
        proof {
            assert(j * sub + sub == (j + 1) * sub) by (nonlinear_arith);
        }
        let ghost prev = result@;
        result.push(pos);
        assert(points_view(result@) =~= points_view(prev).push(pos@));
        j = j + 1;
    }
    result
}

/// The preview depends on its arguments alone: two previews from the same planets, start,
/// velocity, sample count, substep count and time step are the same sequence.
pub proof fn lemma_prediction_deterministic(
    bodies: Seq<Planet>,
    s: (IVec3, IVec3),
    dt: int,
    count: nat,
    sub: nat,
    first: Seq<IVec3>,
    second: Seq<IVec3>,
)
    requires
        first == path(bodies, s, dt, count, sub),
        second == path(bodies, s, dt, count, sub),
    ensures
        first == second,
{
}

/// The samples of a preview are exactly those of the macro-steps that completed: sample
/// `j` exists exactly when the run lasted `(j + 1) * sub` substeps, and is the position
/// it reached then. With at least one substep per sample, no sample lies inside a planet.
pub proof fn lemma_prediction_truncates(bodies: Seq<Planet>, s: (IVec3, IVec3), dt: int, count: nat, sub: nat)
    ensures
        ({
            let p = path(bodies, s, dt, count, sub);
            &&& p.len() <= count
            &&& forall|j: int|
                0 <= j < count ==> (j < p.len() <==> #[trigger] run(bodies, s, dt, ((j + 1) * sub) as nat) is Some)
            &&& forall|j: int|
                0 <= j < p.len() ==> #[trigger] p[j] == run(bodies, s, dt, ((j + 1) * sub) as nat).unwrap().0
            &&& sub >= 1 ==> forall|j: int| 0 <= j < p.len() ==> !inside_any(bodies, #[trigger] p[j])
        }),
    decreases count,
{
    if count > 0 {
        let c = (count - 1) as nat;
        lemma_prediction_truncates(bodies, s, dt, c, sub);
        let prev = path(bodies, s, dt, c, sub);
        let p = path(bodies, s, dt, count, sub);
        if run(bodies, s, dt, count * sub) is Some && prev.len() < c {
            let j = prev.len();
            assert(run(bodies, s, dt, ((j + 1) * sub) as nat) is None);
            assert((j + 1) * sub <= count * sub) by (nonlinear_arith)
                requires
                    j + 1 <= count,
            ;
            lemma_run_stopped(bodies, s, dt, ((j + 1) * sub) as nat, count * sub);
        }
        assert forall|j: int| 0 <= j < count implies (j < p.len() <==> #[trigger] run(bodies, s, dt, ((j + 1) * sub) as nat) is Some) by {
            if j == c {
                assert((j + 1) * sub == count * sub);
            }
        }
        assert forall|j: int| 0 <= j < p.len() implies #[trigger] p[j] == run(bodies, s, dt, ((j + 1) * sub) as nat).unwrap().0 by {
            if j == c {
                assert((j + 1) * sub == count * sub);
            } else {
                assert(p[j] == prev[j]);
            }
        }
        if sub >= 1 {
            assert forall|j: int| 0 <= j < p.len() implies !inside_any(bodies, #[trigger] p[j]) by {
                assert((j + 1) * sub >= 1) by (nonlinear_arith)
                    requires
                        j >= 0,
                        sub >= 1,
                ;
                assert(p[j] == run(bodies, s, dt, ((j + 1) * sub) as nat).unwrap().0);
                lemma_run_outside(bodies, s, dt, ((j + 1) * sub) as nat);
            }
        }
    }
}

} // verus!

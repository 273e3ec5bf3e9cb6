//! Sphere-sphere contact between the flying ball and the planets.
use vstd::prelude::*;
use crate::ball::{BallState, Motion};
use crate::fixed::abs;
use crate::gravity::{Planet, MAX_RADIUS};
use crate::vec3::{
    div_each, dot, in_domain, ivec, norm2, norm2_u128, scale_to_length, scaled_to, vadd, vscale,
    vsub, within, IVec3, Vec3, MAX_COORD,
};

verus! {

/// Below this speed (0.2 units per second, in raw units) a bounce leaves the ball at rest.
pub const GROUNDING_SPEED: i64 = 2_000;

/// The normal used where the ball's centre lies exactly at the planet's centre.
pub open spec fn fallback_normal() -> IVec3 {
    ivec(0, 1, 0)
}

/// The contact normal: the offset from the planet's centre to the ball's, or the
/// fallback where that offset is zero.
pub open spec fn contact_normal(offset: IVec3) -> IVec3 {
    if norm2(offset) == 0 {
        fallback_normal()
    } else {
        offset
    }
}

/// `v` mirrored in the plane with normal `n`, times `|n|^2`: `v |n|^2 - 2 (n . v) n`.
pub open spec fn reflect_scaled(v: IVec3, n: IVec3) -> IVec3 {
    vsub(vscale(v, norm2(n)), vscale(n, 2 * dot(n, v)))
}

/// The velocity after a bounce on normal `n`: `v` mirrored, keeping three quarters of its
/// speed, each component rounded toward zero.
pub open spec fn bounce(v: IVec3, n: IVec3) -> IVec3 {
    div_each(vscale(reflect_scaled(v, n), 3), 4 * norm2(n))
}

/// The ball of centre `pos` and radius `radius` penetrates `planet`.
pub open spec fn overlaps(pos: IVec3, radius: int, planet: Planet) -> bool {
    let needed = radius + planet.radius;
    norm2(vsub(pos, planet.position@)) < needed * needed
}

/// Where a penetrating ball is put back: on the contact normal, at the sum of the two
/// radii from the planet's centre.
pub open spec fn pushed_out(pos: IVec3, radius: int, planet: Planet) -> IVec3 {
    vadd(
        planet.position@,
        scaled_to(contact_normal(vsub(pos, planet.position@)), radius + planet.radius),
    )
}

/// Too slow to fly on.
pub open spec fn settles(v: IVec3) -> bool {
    norm2(v) < GROUNDING_SPEED * GROUNDING_SPEED
}

/// The ball (centre `pos`, radius `radius`, velocity `v`) against the planet at `index`:
/// untouched where they do not overlap; else pushed out and bounced, and at rest on that
/// planet when the bounce leaves it slower than the grounding speed. There is none when
/// the result leaves the range that the simulation holds.
pub open spec fn contact(pos: IVec3, radius: int, v: IVec3, planet: Planet, index: int) -> Option<(IVec3, Motion)> {
    if !overlaps(pos, radius, planet) {
        Some((pos, Motion::Flight(v)))
    } else {
        let p2 = pushed_out(pos, radius, planet);
        let v2 = bounce(v, contact_normal(vsub(pos, planet.position@)));
        if !in_domain(p2) || !in_domain(v2) {
            None
        } else if settles(v2) {
            Some((p2, Motion::Rest(index)))
        } else {
            Some((p2, Motion::Flight(v2)))
        }
    }
}

/// The flying ball against the first `n` planets, one after the other in list order.
/// Once it is at rest the later planets leave it alone.
pub open spec fn contacts_in_order(pos: IVec3, radius: int, v: IVec3, planets: Seq<Planet>, n: nat) -> Option<(IVec3, Motion)>
    decreases n,
{
    if n == 0 {
        Some((pos, Motion::Flight(v)))
    } else {
        match contacts_in_order(pos, radius, v, planets, (n - 1) as nat) {
            Some((p, Motion::Flight(w))) => contact(p, radius, w, planets[n - 1], n - 1),
            other => other,
        }
    }
}

pub open spec fn outcome_view(r: Option<(Vec3, BallState)>) -> Option<(IVec3, Motion)> {
    match r {
        Some((p, s)) => Some((p@, s@)),
        None => None,
    }
}

proof fn lemma_mul_bound(a: int, b: int, ba: int, bb: int)
    requires
        abs(a) <= ba,
        abs(b) <= bb,
    ensures
        abs(a * b) <= ba * bb,
{
    assert(abs(a * b) <= ba * bb) by (nonlinear_arith)
        requires
            abs(a) <= ba,
            abs(b) <= bb,
    ;
}

/// Bounds on the terms of a bounce with a normal and a velocity in range.
proof fn lemma_bounce_terms(n: IVec3, v: IVec3)
    requires
        within(n, 2 * MAX_COORD),
        in_domain(v),
    ensures
        0 <= norm2(n) <= 12 * MAX_COORD * MAX_COORD,
        abs(dot(n, v)) <= 6 * MAX_COORD * MAX_COORD,
        within(vscale(reflect_scaled(v, n), 3), 108 * MAX_COORD * MAX_COORD * MAX_COORD),
{
    let m = MAX_COORD as int;
    lemma_mul_bound(n.x, n.x, 2 * m, 2 * m);
    lemma_mul_bound(n.y, n.y, 2 * m, 2 * m);
    lemma_mul_bound(n.z, n.z, 2 * m, 2 * m);
    assert(n.x * n.x >= 0 && n.y * n.y >= 0 && n.z * n.z >= 0) by (nonlinear_arith);
    lemma_mul_bound(n.x, v.x, 2 * m, m);
    lemma_mul_bound(n.y, v.y, 2 * m, m);
    lemma_mul_bound(n.z, v.z, 2 * m, m);
    let nn = norm2(n);
    assert((2 * m) * (2 * m) == 4 * m * m) by (nonlinear_arith);
    assert((2 * m) * m == 2 * m * m) by (nonlinear_arith);
    assert(abs(n.x * n.x) <= 4 * m * m && abs(n.y * n.y) <= 4 * m * m && abs(n.z * n.z) <= 4 * m * m);
    assert(0 <= nn <= 12 * m * m);
    assert(abs(n.x * v.x) <= 2 * m * m && abs(n.y * v.y) <= 2 * m * m && abs(n.z * v.z) <= 2 * m * m);
    let s = 2 * dot(n, v);
    assert(abs(s) <= 12 * m * m);
    lemma_reflected_component(v.x, n.x, nn, s);
    lemma_reflected_component(v.y, n.y, nn, s);
    lemma_reflected_component(v.z, n.z, nn, s);
    assert(v.x * nn - s * n.x == v.x * nn - n.x * s) by (nonlinear_arith);
    assert(v.y * nn - s * n.y == v.y * nn - n.y * s) by (nonlinear_arith);
    assert(v.z * nn - s * n.z == v.z * nn - n.z * s) by (nonlinear_arith);
}

proof fn lemma_reflected_component(vc: int, nc: int, nn: int, s: int)
    requires
        abs(vc) <= MAX_COORD,
        abs(nc) <= 2 * MAX_COORD,
        0 <= nn <= 12 * MAX_COORD * MAX_COORD,
        abs(s) <= 12 * MAX_COORD * MAX_COORD,
    ensures
        abs(vc * nn) <= 12 * MAX_COORD * MAX_COORD * MAX_COORD,
        abs(nc * s) <= 24 * MAX_COORD * MAX_COORD * MAX_COORD,
        abs(3 * (vc * nn - nc * s)) <= 108 * MAX_COORD * MAX_COORD * MAX_COORD,
{
    let m = MAX_COORD as int;
    lemma_mul_bound(vc, nn, m, 12 * m * m);
    lemma_mul_bound(nc, s, 2 * m, 12 * m * m);
    assert(m * (12 * m * m) == 12 * m * m * m) by (nonlinear_arith);
    assert(2 * m * (12 * m * m) == 24 * m * m * m) by (nonlinear_arith);
}

fn fits(c: i128) -> (r: bool)
    ensures
        r == (abs(c as int) <= MAX_COORD),
{
    -(MAX_COORD as i128) <= c && c <= MAX_COORD as i128
}

/// The flying ball against one planet, as `contact` describes.
pub fn collide_planet(position: Vec3, radius: i64, velocity: Vec3, planet: &Planet, index: usize) -> (r: Option<(Vec3, BallState)>)
    requires
        in_domain(position@),
        0 < radius <= MAX_RADIUS,
        in_domain(velocity@),
        planet.valid(),
    ensures
        outcome_view(r) == contact(position@, radius as int, velocity@, *planet, index as int),
{
    let offset = Vec3 {
        x: position.x - planet.position.x,
        y: position.y - planet.position.y,
        z: position.z - planet.position.z,
    };
    assert(offset@ == vsub(position@, planet.position@));
    let n2 = norm2_u128(offset);
    let needed = radius + planet.radius;
    assert(0 < needed as int * needed as int <= 4 * MAX_RADIUS * MAX_RADIUS) by (nonlinear_arith)
        requires
            0 < needed <= 2 * MAX_RADIUS,
    ;
    if n2 >= needed as u128 * needed as u128 {
        return Some((position, BallState::Launched { velocity }));
    }
    let normal = if n2 == 0 {
        Vec3 { x: 0, y: 1, z: 0 }
    } else {
        offset
    };
    assert(normal@ == contact_normal(offset@));
    let push = scale_to_length(normal, needed);
    let px = planet.position.x + push.x;
    let py = planet.position.y + push.y;
    let pz = planet.position.z + push.z;
    if !(fits(px as i128) && fits(py as i128) && fits(pz as i128)) {
        return None;
    }
    let p2 = Vec3 { x: px, y: py, z: pz };
    assert(p2@ == pushed_out(position@, radius as int, *planet));
    assert(within(normal@, 2 * MAX_COORD));
    proof {
        lemma_bounce_terms(normal@, velocity@);
        let m = MAX_COORD as int;
        let nn = norm2(normal@);
        let s = 2 * dot(normal@, velocity@);
        lemma_reflected_component(velocity.x as int, normal.x as int, nn, s);
        lemma_reflected_component(velocity.y as int, normal.y as int, nn, s);
        lemma_reflected_component(velocity.z as int, normal.z as int, nn, s);
        lemma_mul_bound(normal.x as int, velocity.x as int, 2 * m, m);
        lemma_mul_bound(normal.y as int, velocity.y as int, 2 * m, m);
        lemma_mul_bound(normal.z as int, velocity.z as int, 2 * m, m);
    }
    let nn = norm2_u128(normal) as i128;
    let dv = normal.x as i128 * velocity.x as i128 + normal.y as i128 * velocity.y as i128
        + normal.z as i128 * velocity.z as i128;
    let s = 2 * dv;
    let rx = 3 * (velocity.x as i128 * nn - s * normal.x as i128);
    let ry = 3 * (velocity.y as i128 * nn - s * normal.y as i128);
    let rz = 3 * (velocity.z as i128 * nn - s * normal.z as i128);
    assert(ivec(rx as int, ry as int, rz as int) == vscale(reflect_scaled(velocity@, normal@), 3));
    let den = 4 * nn;
    let bx = rx / den;
    let by = ry / den;
    let bz = rz / den;
    if !(fits(bx) && fits(by) && fits(bz)) {
        return None;
    }
    let v2 = Vec3 { x: bx as i64, y: by as i64, z: bz as i64 };
    assert(v2@ == bounce(velocity@, normal@));
    let g = GROUNDING_SPEED as i128;
    proof {
        let m = MAX_COORD as int;
        lemma_mul_bound(bx as int, bx as int, m, m);
        lemma_mul_bound(by as int, by as int, m, m);
        lemma_mul_bound(bz as int, bz as int, m, m);
    }
    if bx * bx + by * by + bz * bz < g * g {
        Some((p2, BallState::Grounded { planet: index }))
    } else {
        Some((p2, BallState::Launched { velocity: v2 }))
    }
}

/// Once the ball rests, or has left the range, more planets change nothing.
proof fn lemma_resolve_settled(pos: IVec3, radius: int, v: IVec3, planets: Seq<Planet>, k: nat, n: nat)
    requires
        k <= n,
        !(contacts_in_order(pos, radius, v, planets, k) matches Some((_, Motion::Flight(_)))),
    ensures
        contacts_in_order(pos, radius, v, planets, n) == contacts_in_order(pos, radius, v, planets, k),
    decreases n - k,
{
    if k < n {
        lemma_resolve_settled(pos, radius, v, planets, k, (n - 1) as nat);
    }
}

/// The flying ball against every planet in list order, as `contacts_in_order` describes.
pub fn resolve_collisions(position: Vec3, radius: i64, velocity: Vec3, planets: &Vec<Planet>) -> (r: Option<(Vec3, BallState)>)
    requires
        in_domain(position@),
        0 < radius <= MAX_RADIUS,
        in_domain(velocity@),
        forall|i: int| 0 <= i < planets@.len() ==> (#[trigger] planets@[i]).valid(),
    ensures
        outcome_view(r) == contacts_in_order(position@, radius as int, velocity@, planets@, planets@.len()),
{
    let mut p = position;
    let mut v = velocity;
    let mut i: usize = 0;
    while i < planets.len()
        invariant
            0 <= i <= planets.len(),
            0 < radius <= MAX_RADIUS,
            forall|j: int| 0 <= j < planets@.len() ==> (#[trigger] planets@[j]).valid(),
            in_domain(p@),
            in_domain(v@),
            contacts_in_order(position@, radius as int, velocity@, planets@, i as nat) == Some(
                (p@, Motion::Flight(v@)),
            ),
        decreases planets.len() - i,
    {
        let c = collide_planet(p, radius, v, &planets[i], i);
        match c {
            Some((p2, BallState::Launched { velocity: v2 })) => {
                p = p2;
                v = v2;
            },
            _ => {
                proof {
                    lemma_resolve_settled(
                        position@,
                        radius as int,
                        velocity@,
                        planets@,
                        (i + 1) as nat,
                        planets@.len(),
                    );
                }
                return c;
            },
        }
        i = i + 1;
    }
    Some((p, BallState::Launched { velocity: v }))
}

proof fn lemma_square_of_difference(x: int, y: int)
    ensures
        (x - y) * (x - y) == x * x - 2 * (x * y) + y * y,
{
    assert((x - y) * (x - y) == x * x - 2 * (x * y) + y * y) by (nonlinear_arith);
}

proof fn lemma_swap_middle(a: int, b: int, c: int, d: int)
    ensures
        (a * b) * (c * d) == (a * c) * (b * d),
{
    assert((a * b) * (c * d) == (a * c) * (b * d)) by (nonlinear_arith);
}

proof fn lemma_reflect_component(a: int, b: int, nn: int, s: int)
    ensures
        (a * nn - b * s) * (a * nn - b * s) == (a * a) * (nn * nn) - 2 * ((a * b) * (nn * s)) + (b
            * b) * (s * s),
{
    lemma_square_of_difference(a * nn, b * s);
    lemma_swap_middle(a, nn, a, nn);
    lemma_swap_middle(a, nn, b, s);
    lemma_swap_middle(b, s, b, s);
}

proof fn lemma_factor_three(x: int, y: int, z: int, k: int)
    ensures
        x * k + y * k + z * k == (x + y + z) * k,
{
    assert(x * k + y * k + z * k == (x + y + z) * k) by (nonlinear_arith);
}

/// Mirroring keeps the speed: `|reflect_scaled(v, n)| = |n|^2 |v|`. A bounce therefore
/// leaves the ball, before rounding, with exactly three quarters of its speed:
/// `|3 R / (4 |n|^2)| = 3/4 |v|` with `R = reflect_scaled(v, n)`.
pub proof fn lemma_reflection_keeps_speed(v: IVec3, n: IVec3)
    ensures
        norm2(reflect_scaled(v, n)) == norm2(n) * norm2(n) * norm2(v),
        16 * norm2(vscale(reflect_scaled(v, n), 3)) == 9 * norm2(v) * ((4 * norm2(n)) * (4
            * norm2(n))),
{
    let nn = norm2(n);
    let d = dot(n, v);
    let s = 2 * d;
    let r = reflect_scaled(v, n);
    lemma_reflect_component(v.x, n.x, nn, s);
    lemma_reflect_component(v.y, n.y, nn, s);
    lemma_reflect_component(v.z, n.z, nn, s);
    assert(v.x * n.x == n.x * v.x && v.y * n.y == n.y * v.y && v.z * n.z == n.z * v.z) by (nonlinear_arith);
    assert(n.x * s == s * n.x && n.y * s == s * n.y && n.z * s == s * n.z) by (nonlinear_arith);
    let p = nn * nn;
    let q = nn * s;
    let t = s * s;
    lemma_factor_three(v.x * v.x, v.y * v.y, v.z * v.z, p);
    lemma_factor_three(v.x * n.x, v.y * n.y, v.z * n.z, q);
    lemma_factor_three(n.x * n.x, n.y * n.y, n.z * n.z, t);
    assert(norm2(r) == norm2(v) * p - 2 * (d * q) + nn * t);
    assert(d * q == d * (nn * (2 * d)));
    assert(nn * t == nn * ((2 * d) * (2 * d)));
    assert(2 * (d * (nn * (2 * d))) == nn * ((2 * d) * (2 * d))) by (nonlinear_arith);
    assert(norm2(v) * p == p * norm2(v)) by (nonlinear_arith);
    let r3 = vscale(r, 3);
    assert(r3.x * r3.x == 9 * (r.x * r.x) && r3.y * r3.y == 9 * (r.y * r.y) && r3.z * r3.z == 9 * (r.z
        * r.z)) by (nonlinear_arith)
        requires
            r3 == vscale(r, 3),
    ;
    assert(16 * (9 * (p * norm2(v))) == 9 * norm2(v) * ((4 * nn) * (4 * nn))) by (nonlinear_arith)
        requires
            p == nn * nn,
    ;
}

/// A bounce settles the ball on the planet it hit exactly when it leaves the ball slower
/// than the grounding speed; otherwise the ball flies on with the bounced velocity.
pub proof fn lemma_grounding(pos: IVec3, radius: int, v: IVec3, planet: Planet, index: int)
    requires
        overlaps(pos, radius, planet),
        contact(pos, radius, v, planet, index) is Some,
    ensures
        ({
            let v2 = bounce(v, contact_normal(vsub(pos, planet.position@)));
            let (_, m) = contact(pos, radius, v, planet, index).unwrap();
            &&& settles(v2) ==> m == Motion::Rest(index)
            &&& !settles(v2) ==> m == Motion::Flight(v2)
        }),
{
}

} // verus!

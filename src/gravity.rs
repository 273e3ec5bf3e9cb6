//! The gravitational field of a set of planets.
use vstd::prelude::*;
use crate::fixed::{abs, isqrt, isqrt_u128, lemma_isqrt, lemma_tdiv, lemma_tdiv_at_most, tdiv, SCALE};
use crate::vec3::{
    div_each, dot, in_domain, ivec, lemma_component_at_most_length, norm2, norm2_u128, vadd, vscale,
    vsub, within, zero, IVec3, Vec3,
};

verus! {

/// The gravitational constant in raw units (0.0667).
pub const GRAVITY: i64 = 667;

/// The largest absolute mass of a planet, in raw units.
pub const MAX_MASS: i64 = 1_000_000_000;

/// The largest planet or ball radius, in raw units.
pub const MAX_RADIUS: i64 = 1_000_000_000;

/// The most planets a field holds.
pub const MAX_BODIES: usize = 1000;

/// The largest absolute pull `GRAVITY * mass * SCALE` of one planet.
pub const MAX_PULL: i64 = 6_670_000_000_000_000;

/// A bound on every component of an acceleration: `MAX_BODIES * MAX_PULL`.
pub const MAX_ACCEL: i64 = 6_670_000_000_000_000_000;

/// A massive sphere. A negative mass pushes instead of pulling.
#[derive(Clone, Copy, Debug, PartialEq, Eq)]
pub struct Planet {
    pub position: Vec3,
    pub mass: i64,
    pub radius: i64,
}

impl Planet {
    pub open spec fn valid(self) -> bool {
        &&& in_domain(self.position@)
        &&& -MAX_MASS <= self.mass <= MAX_MASS
        &&& 0 < self.radius <= MAX_RADIUS
    }

    pub fn new(position: Vec3, mass: i64, radius: i64) -> (r: Planet)
        ensures
            r == (Planet { position, mass, radius }),
    {
        Planet { position, mass, radius }
    }
}

/// A list of planets that a field can be computed from.
pub open spec fn bodies_valid(bodies: Seq<Planet>) -> bool {
    &&& bodies.len() <= MAX_BODIES
    &&& forall|i: int| 0 <= i < bodies.len() ==> (#[trigger] bodies[i]).valid()
}

/// `GRAVITY * mass * SCALE`: the numerator of a planet's acceleration.
pub open spec fn pull(mass: int) -> int {
    GRAVITY * mass * SCALE
}

/// The acceleration that planet `b` gives a point `p`: `delta * pull / (|delta|^2 * |delta|)`
/// with `delta = b.position - p` and the length `|delta|` rounded down. It is zero at the
/// planet's centre.
pub open spec fn contribution(b: Planet, p: IVec3) -> IVec3 {
    let delta = vsub(b.position@, p);
    let d2 = norm2(delta);
    if d2 == 0 {
        zero()
    } else {
        div_each(vscale(delta, pull(b.mass as int)), d2 * isqrt(d2 as nat))
    }
}

/// The sum of the contributions of `bodies` at `p`, leaving out the one at index `skip`.
pub open spec fn field(bodies: Seq<Planet>, p: IVec3, skip: Option<usize>) -> IVec3
    decreases bodies.len(),
{
    if bodies.len() == 0 {
        zero()
    } else {
        let last = bodies.len() - 1;
        let rest = field(bodies.drop_last(), p, skip);
        if skip == Some(last as usize) {
            rest
        } else {
            vadd(rest, contribution(bodies[last], p))
        }
    }
}

/// No component of one planet's contribution exceeds its absolute pull.
pub proof fn lemma_contribution_bounded(b: Planet, p: IVec3)
    requires
        b.valid(),
        in_domain(p),
    ensures
        within(contribution(b, p), abs(pull(b.mass as int))),
        within(contribution(b, p), MAX_PULL as int),
{
    let delta = vsub(b.position@, p);
    let d2 = norm2(delta);
    let k = pull(b.mass as int);
    assert(abs(k) <= MAX_PULL) by (nonlinear_arith)
        requires
            k == 667 * b.mass * 10000,
            -1_000_000_000 <= b.mass <= 1_000_000_000,
    ;
    if d2 != 0 {
        let d = isqrt(d2 as nat) as int;
        assert(d2 >= 0) by (nonlinear_arith)
            requires
                d2 == delta.x * delta.x + delta.y * delta.y + delta.z * delta.z,
        ;
        lemma_isqrt(d2 as nat);
        lemma_component_at_most_length(delta);
        assert(0 < d <= d2) by (nonlinear_arith)
            requires
                d2 < (d + 1) * (d + 1),
                d * d <= d2,
                d2 > 0,
                d >= 0,
        ;
        let den = d2 * d;
        assert(d2 <= den) by (nonlinear_arith)
            requires
                den == d2 * d,
                d >= 1,
                d2 > 0,
        ;
        lemma_quotient_at_most_pull(delta.x, k, d, den);
        lemma_quotient_at_most_pull(delta.y, k, d, den);
        lemma_quotient_at_most_pull(delta.z, k, d, den);
    }
}

proof fn lemma_quotient_at_most_pull(c: int, k: int, d: int, den: int)
    requires
        abs(c) <= d,
        0 < d <= den,
    ensures
        abs(tdiv(c * k, den)) <= abs(k),
{
    assert(abs(c * k) <= abs(k) * den) by (nonlinear_arith)
        requires
            abs(c) <= d,
            d <= den,
    ;
    lemma_tdiv_at_most(c * k, den, abs(k));
}

/// The field of valid planets is bounded by the number of planets times the largest pull.
pub proof fn lemma_field_bounded(bodies: Seq<Planet>, p: IVec3, skip: Option<usize>)
    requires
        bodies_valid(bodies),
        in_domain(p),
    ensures
        within(field(bodies, p, skip), bodies.len() * MAX_PULL),
    decreases bodies.len(),
{
    if bodies.len() > 0 {
        let rest = bodies.drop_last();
        assert forall|i: int| 0 <= i < rest.len() implies (#[trigger] rest[i]).valid() by {
            assert(rest[i] == bodies[i]);
        }
        lemma_field_bounded(rest, p, skip);
        lemma_contribution_bounded(bodies[bodies.len() - 1], p);
    }
}

/// One planet's contribution at `p`.
pub fn contribution_at(b: &Planet, p: Vec3) -> (r: Vec3)
    requires
        b.valid(),
        in_domain(p@),
    ensures
        r@ == contribution(*b, p@),
        within(r@, MAX_PULL as int),
{
    proof {
        lemma_contribution_bounded(*b, p@);
    }
    let delta = Vec3 { x: b.position.x - p.x, y: b.position.y - p.y, z: b.position.z - p.z };
    assert(delta@ == vsub(b.position@, p@));
    let n2 = norm2_u128(delta);
    if n2 == 0 {
        return Vec3::zero();
    }
    let s = isqrt_u128(n2);
    proof {
        lemma_isqrt(n2 as nat);
        assert(0 < s <= n2) by (nonlinear_arith)
            requires
                n2 < (s + 1) * (s + 1),
                s * s <= n2,
                n2 > 0,
        ;
        assert(0 < n2 * s <= 100_000_000_000_000_000_000_000_000_000_000_000) by (nonlinear_arith)
            requires
                s * s <= n2,
                n2 <= 3 * 100_000_000_000 * 100_000_000_000,
                0 < s <= n2,
        {
            if s > 200_000_000_000 {
                assert(s * s > 200_000_000_000 * 200_000_000_000);
            }
        }
        let m = 100_000_000_000int;
        assert(abs(delta.x * (b.mass * 6670000)) <= m * 6670000000000000
            && abs(delta.y * (b.mass * 6670000)) <= m * 6670000000000000
            && abs(delta.z * (b.mass * 6670000)) <= m * 6670000000000000) by (nonlinear_arith)
            requires
                abs(delta.x as int) <= m,
                abs(delta.y as int) <= m,
                abs(delta.z as int) <= m,
                -1_000_000_000 <= b.mass <= 1_000_000_000,
        ;
    }
    let den = n2 as i128 * s as i128;
    let k = b.mass as i128 * 6_670_000;
    assert(k == pull(b.mass as int));
    let x = (delta.x as i128 * k) / den;
    let y = (delta.y as i128 * k) / den;
    let z = (delta.z as i128 * k) / den;
    Vec3 { x: x as i64, y: y as i64, z: z as i64 }
}

/// The acceleration at `p` from every planet of `bodies` but the one at index `exclude`.
pub fn acceleration_at(p: Vec3, bodies: &Vec<Planet>, exclude: Option<usize>) -> (r: Vec3)
    requires
        bodies_valid(bodies@),
        in_domain(p@),
    ensures
        r@ == field(bodies@, p@, exclude),
        within(r@, MAX_ACCEL as int),
{
    let mut x: i128 = 0;
    let mut y: i128 = 0;
    let mut z: i128 = 0;
    let mut i: usize = 0;
    while i < bodies.len()
        invariant
            0 <= i <= bodies.len(),
            bodies_valid(bodies@),
            in_domain(p@),
            ivec(x as int, y as int, z as int) == field(bodies@.subrange(0, i as int), p@, exclude),
            within(ivec(x as int, y as int, z as int), i * MAX_PULL),
        decreases bodies.len() - i,
    {
        let ghost prefix = bodies@.subrange(0, i as int + 1);
        assert(prefix.drop_last() == bodies@.subrange(0, i as int));
        assert(prefix[i as int] == bodies@[i as int]);
        let skipped = match exclude {
            Some(j) => j == i,
            None => false,
        };
        if !skipped {
            let c = contribution_at(&bodies[i], p);
            x = x + c.x as i128;
            y = y + c.y as i128;
            z = z + c.z as i128;
        }
        i = i + 1;
    }
    assert(bodies@.subrange(0, bodies@.len() as int) == bodies@);
    assert(i * MAX_PULL <= MAX_ACCEL) by (nonlinear_arith)
        requires
            i <= 1000,
    ;
    Vec3 { x: x as i64, y: y as i64, z: z as i64 }
}

/// A list of one planet gives that planet's contribution.
pub proof fn lemma_field_single(b: Planet, p: IVec3)
    ensures
        field(seq![b], p, None) == contribution(b, p),
{
    let s = seq![b];
    assert(s.drop_last() =~= Seq::<Planet>::empty());
    assert(field(s.drop_last(), p, None) == zero());
}

proof fn lemma_component_sign(c: int, k: int, den: int)
    requires
        den > 0,
    ensures
        k > 0 ==> tdiv(c * k, den) * c >= 0,
        k < 0 ==> tdiv(c * k, den) * c <= 0,
        c == 0 ==> tdiv(c * k, den) == 0,
{
    lemma_tdiv(c * k, den);
    let q = tdiv(c * k, den);
    assert(k > 0 ==> q * c >= 0) by (nonlinear_arith)
        requires
            c * k >= 0 ==> q >= 0,
            c * k <= 0 ==> q <= 0,
    ;
    assert(k < 0 ==> q * c <= 0) by (nonlinear_arith)
        requires
            c * k >= 0 ==> q >= 0,
            c * k <= 0 ==> q <= 0,
    ;
    if c == 0 {
        assert(c * k == 0);
        assert(abs(0int) / den == 0);
    }
}

/// A single planet of positive mass accelerates a point toward itself, and one of
/// negative mass away from itself: each component of the acceleration has the sign of
/// the same component of the offset toward the planet (the opposite sign for a negative
/// mass), and is zero where that component of the offset is zero.
pub proof fn lemma_single_planet_direction(b: Planet, p: IVec3)
    ensures
        ({
            let a = field(seq![b], p, None);
            let delta = vsub(b.position@, p);
            &&& b.mass > 0 ==> a.x * delta.x >= 0 && a.y * delta.y >= 0 && a.z * delta.z >= 0
                && dot(a, delta) >= 0
            &&& b.mass < 0 ==> a.x * delta.x <= 0 && a.y * delta.y <= 0 && a.z * delta.z <= 0
                && dot(a, delta) <= 0
            &&& delta.x == 0 ==> a.x == 0
            &&& delta.y == 0 ==> a.y == 0
            &&& delta.z == 0 ==> a.z == 0
        }),
{
    lemma_field_single(b, p);
    let delta = vsub(b.position@, p);
    let d2 = norm2(delta);
    let k = pull(b.mass as int);
    assert(b.mass > 0 ==> k > 0) by (nonlinear_arith)
        requires
            k == 667 * b.mass * 10000,
    ;
    assert(b.mass < 0 ==> k < 0) by (nonlinear_arith)
        requires
            k == 667 * b.mass * 10000,
    ;
    if d2 != 0 {
        let d = isqrt(d2 as nat) as int;
        assert(d2 >= 0) by (nonlinear_arith)
            requires
                d2 == delta.x * delta.x + delta.y * delta.y + delta.z * delta.z,
        ;
        lemma_isqrt(d2 as nat);
        assert(d2 * d > 0) by (nonlinear_arith)
            requires
                d2 < (d + 1) * (d + 1),
                d2 > 0,
                d >= 0,
        ;
        lemma_component_sign(delta.x, k, d2 * d);
        lemma_component_sign(delta.y, k, d2 * d);
        lemma_component_sign(delta.z, k, d2 * d);
    }
}

proof fn lemma_nonzero_product(x: int, y: int)
    requires
        x != 0,
        y != 0,
    ensures
        x * y != 0,
{
    assert(x * y != 0) by (nonlinear_arith)
        requires
            x != 0,
            y != 0,
    ;
}

/// Wherever a single planet's acceleration does not round to zero, it points strictly
/// toward the planet for a positive mass and strictly away for a negative one: its dot
/// product with the offset toward the planet is positive, respectively negative.
pub proof fn lemma_single_planet_strict_direction(b: Planet, p: IVec3)
    ensures
        ({
            let a = field(seq![b], p, None);
            let delta = vsub(b.position@, p);
            &&& a != zero() && b.mass > 0 ==> dot(a, delta) > 0
            &&& a != zero() && b.mass < 0 ==> dot(a, delta) < 0
        }),
{
    lemma_single_planet_direction(b, p);
    let a = field(seq![b], p, None);
    let delta = vsub(b.position@, p);
    if a.x != 0 && delta.x != 0 {
        lemma_nonzero_product(a.x, delta.x);
    }
    if a.y != 0 && delta.y != 0 {
        lemma_nonzero_product(a.y, delta.y);
    }
    if a.z != 0 && delta.z != 0 {
        lemma_nonzero_product(a.z, delta.z);
    }
}

/// For a single planet at a distance of exactly `d` raw units from `p`, the acceleration
/// before rounding, `N / d^3` with `N = delta * pull`, has magnitude `pull / d^2`: the
/// gravitational constant times the mass over the squared distance. Each computed
/// component is the matching component of `N / d^3` rounded toward zero.
pub proof fn lemma_single_planet_magnitude(b: Planet, p: IVec3, d: int)
    requires
        d > 0,
        norm2(vsub(b.position@, p)) == d * d,
    ensures
        ({
            let n = vscale(vsub(b.position@, p), pull(b.mass as int));
            let k = pull(b.mass as int);
            &&& field(seq![b], p, None) == div_each(n, d * d * d)
            &&& norm2(n) * (d * d * d * d) == (k * k) * ((d * d * d) * (d * d * d))
        }),
{
    lemma_field_single(b, p);
    let delta = vsub(b.position@, p);
    let k = pull(b.mass as int);
    let n = vscale(delta, k);
    let d2 = d * d;
    lemma_isqrt(d2 as nat);
    let r = isqrt(d2 as nat) as int;
    assert(r == d) by (nonlinear_arith)
        requires
            r * r <= d * d,
            d * d < (r + 1) * (r + 1),
            r >= 0,
            d > 0,
    ;
    assert(d2 * r == d * d * d) by (nonlinear_arith)
        requires
            r == d,
            d2 == d * d,
    ;
    let (dx, dy, dz) = (delta.x, delta.y, delta.z);
    assert((dx * k) * (dx * k) == k * k * (dx * dx)) by (nonlinear_arith);
    assert((dy * k) * (dy * k) == k * k * (dy * dy)) by (nonlinear_arith);
    assert((dz * k) * (dz * k) == k * k * (dz * dz)) by (nonlinear_arith);
    assert(k * k * (dx * dx) + k * k * (dy * dy) + k * k * (dz * dz) == k * k * (dx * dx + dy * dy
        + dz * dz)) by (nonlinear_arith);
    assert(norm2(n) * (d * d * d * d) == (k * k) * ((d * d * d) * (d * d * d))) by (nonlinear_arith)
        requires
            norm2(n) == k * k * (d * d),
    ;
}

} // verus!

//! Fixed-point vectors and their integer model.
use vstd::prelude::*;
use crate::fixed::{abs, isqrt, isqrt_u128, lemma_isqrt, lemma_isqrt_dominates, lemma_tdiv_at_most, tdiv};

verus! {

/// The largest absolute value of a coordinate, velocity or acceleration component
/// that the simulation holds (one million units).
pub const MAX_COORD: i64 = 10_000_000_000;

/// The largest absolute component and length accepted by `scale_to_length`.
pub const MAX_SCALABLE: i64 = 100_000_000_000;

/// A point or direction in space, each component in raw fixed-point units.
#[derive(Clone, Copy, Debug, PartialEq, Eq)]
pub struct Vec3 {
    pub x: i64,
    pub y: i64,
    pub z: i64,
}

/// A point or offset on the screen, in raw fixed-point pixels.
#[derive(Clone, Copy, Debug, PartialEq, Eq)]
pub struct Vec2 {
    pub x: i64,
    pub y: i64,
}

/// An exact integer vector: the mathematical model of `Vec3`.
pub struct IVec3 {
    pub x: int,
    pub y: int,
    pub z: int,
}

impl View for Vec3 {
    type V = IVec3;

    open spec fn view(&self) -> IVec3 {
        IVec3 { x: self.x as int, y: self.y as int, z: self.z as int }
    }
}

pub open spec fn ivec(x: int, y: int, z: int) -> IVec3 {
    IVec3 { x, y, z }
}

pub open spec fn zero() -> IVec3 {
    ivec(0, 0, 0)
}

pub open spec fn vadd(a: IVec3, b: IVec3) -> IVec3 {
    ivec(a.x + b.x, a.y + b.y, a.z + b.z)
}

pub open spec fn vsub(a: IVec3, b: IVec3) -> IVec3 {
    ivec(a.x - b.x, a.y - b.y, a.z - b.z)
}

pub open spec fn vscale(a: IVec3, k: int) -> IVec3 {
    ivec(a.x * k, a.y * k, a.z * k)
}

pub open spec fn dot(a: IVec3, b: IVec3) -> int {
    a.x * b.x + a.y * b.y + a.z * b.z
}

pub open spec fn cross(a: IVec3, b: IVec3) -> IVec3 {
    ivec(a.y * b.z - a.z * b.y, a.z * b.x - a.x * b.z, a.x * b.y - a.y * b.x)
}

/// The squared length.
pub open spec fn norm2(a: IVec3) -> int {
    dot(a, a)
}

/// Each component divided by `d`, rounding toward zero.
pub open spec fn div_each(a: IVec3, d: int) -> IVec3 {
    ivec(tdiv(a.x, d), tdiv(a.y, d), tdiv(a.z, d))
}

/// Every component lies within `bound` of zero.
pub open spec fn within(a: IVec3, bound: int) -> bool {
    &&& abs(a.x) <= bound
    &&& abs(a.y) <= bound
    &&& abs(a.z) <= bound
}

/// The vector lies in the range that the simulation holds.
pub open spec fn in_domain(a: IVec3) -> bool {
    within(a, MAX_COORD as int)
}

/// `a` pointed the same way with length `len` (up to rounding): `a * len / |a|`, with
/// `|a|` rounded down; the zero vector stays zero.
pub open spec fn scaled_to(a: IVec3, len: int) -> IVec3 {
    if norm2(a) == 0 {
        zero()
    } else {
        div_each(vscale(a, len), isqrt(norm2(a) as nat) as int)
    }
}

/// A vector with a nonzero component has a positive squared length.
pub proof fn lemma_norm2_positive(a: IVec3)
    requires
        a.x != 0 || a.y != 0 || a.z != 0,
    ensures
        norm2(a) > 0,
{
    assert(norm2(a) > 0) by (nonlinear_arith)
        requires
            a.x != 0 || a.y != 0 || a.z != 0,
            norm2(a) == a.x * a.x + a.y * a.y + a.z * a.z,
    ;
}

/// Every component of `a` is at most the length of `a`, rounded down.
pub proof fn lemma_component_at_most_length(a: IVec3)
    ensures
        abs(a.x) <= isqrt(norm2(a) as nat),
        abs(a.y) <= isqrt(norm2(a) as nat),
        abs(a.z) <= isqrt(norm2(a) as nat),
{
    assert(a.x * a.x >= 0 && a.y * a.y >= 0 && a.z * a.z >= 0) by (nonlinear_arith);
    lemma_isqrt_dominates(a.x, norm2(a) as nat);
    lemma_isqrt_dominates(a.y, norm2(a) as nat);
    lemma_isqrt_dominates(a.z, norm2(a) as nat);
}

proof fn lemma_scaled_component(c: int, len: int, d: int)
    requires
        abs(c) <= d,
        d > 0,
        len >= 0,
    ensures
        abs(tdiv(c * len, d)) <= len,
{
    assert(abs(c * len) <= len * d) by (nonlinear_arith)
        requires
            abs(c) <= d,
            len >= 0,
    ;
    lemma_tdiv_at_most(c * len, d, len);
}

/// A vector scaled to `len` has no component longer than `len`.
pub proof fn lemma_scaled_to_within(a: IVec3, len: int)
    requires
        len >= 0,
    ensures
        within(scaled_to(a, len), len),
{
    if norm2(a) != 0 {
        lemma_component_at_most_length(a);
        let d = isqrt(norm2(a) as nat) as int;
        assert(norm2(a) >= 0) by (nonlinear_arith);
        lemma_isqrt(norm2(a) as nat);
        assert(d > 0) by (nonlinear_arith)
            requires
                norm2(a) < (d + 1) * (d + 1),
                norm2(a) > 0,
                d >= 0,
        ;
        lemma_scaled_component(a.x, len, d);
        lemma_scaled_component(a.y, len, d);
        lemma_scaled_component(a.z, len, d);
    }
}

impl Vec3 {
    pub fn new(x: i64, y: i64, z: i64) -> (r: Vec3)
        ensures
            r@ == ivec(x as int, y as int, z as int),
    {
        Vec3 { x, y, z }
    }

    pub fn zero() -> (r: Vec3)
        ensures
            r@ == zero(),
    {
        Vec3 { x: 0, y: 0, z: 0 }
    }
}

impl Vec2 {
    pub fn new(x: i64, y: i64) -> (r: Vec2)
        ensures
            r.x == x,
            r.y == y,
    {
        Vec2 { x, y }
    }
}

/// The squared length of a vector whose components are at most `MAX_SCALABLE`.
pub fn norm2_u128(a: Vec3) -> (r: u128)
    requires
        within(a@, MAX_SCALABLE as int),
    ensures
        r == norm2(a@),
        r <= 3 * (MAX_SCALABLE as int) * (MAX_SCALABLE as int),
{
    let x = a.x as i128;
    let y = a.y as i128;
    let z = a.z as i128;
    proof {
        let m = MAX_SCALABLE as int;
        assert(x * x <= m * m && y * y <= m * m && z * z <= m * m && x * x >= 0 && y * y >= 0
            && z * z >= 0) by (nonlinear_arith)
            requires
                abs(x as int) <= m,
                abs(y as int) <= m,
                abs(z as int) <= m,
        ;
    }
    (x * x + y * y + z * z) as u128
}

/// `a` turned to length `len`, as `scaled_to` describes.
pub fn scale_to_length(a: Vec3, len: i64) -> (r: Vec3)
    requires
        within(a@, MAX_SCALABLE as int),
        0 <= len <= MAX_SCALABLE,
    ensures
        r@ == scaled_to(a@, len as int),
        within(r@, len as int),
{
    proof {
        lemma_scaled_to_within(a@, len as int);
    }
    let n2 = norm2_u128(a);
    if n2 == 0 {
        return Vec3::zero();
    }
    let s = isqrt_u128(n2);
    proof {
        lemma_isqrt(n2 as nat);
        assert(0 < s <= n2) by (nonlinear_arith)
            requires
                n2 < (s + 1) * (s + 1),
                s * s <= n2,
                n2 > 0,
        ;
        let m = MAX_SCALABLE as int;
        assert(abs(a.x * len) <= m * m && abs(a.y * len) <= m * m && abs(a.z * len) <= m * m) by (nonlinear_arith)
            requires
                abs(a.x as int) <= m,
                abs(a.y as int) <= m,
                abs(a.z as int) <= m,
                0 <= len <= m,
        ;
    }
    let d = s as i128;
    let l = len as i128;
    let x = (a.x as i128 * l) / d;
    let y = (a.y as i128 * l) / d;
    let z = (a.z as i128 * l) / d;
    Vec3 { x: x as i64, y: y as i64, z: z as i64 }
}

} // verus!

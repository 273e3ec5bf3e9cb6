//! Aiming: the drag gesture and the launch velocity it gives.
use vstd::prelude::*;
use crate::fixed::{abs, isqrt, isqrt_u128, lemma_isqrt, lemma_tdiv_at_most, tdiv, SCALE};
use crate::vec3::{
    cross, div_each, in_domain, norm2, norm2_u128, scale_to_length, scaled_to, vadd, vscale,
    vsub, within, IVec3, Vec2, Vec3, MAX_COORD,
};

verus! {

/// Screen distance, in raw pixels, per unit of launch speed: a drag of fifty pixels gives
/// one unit per second.
pub const AIM_SENSITIVITY: i64 = 50;

/// The largest absolute cursor coordinate, in raw pixels.
pub const MAX_SCREEN: i64 = 1_000_000_000;

/// The launch velocity for a screen drag `drag`, with the camera's right-hand direction
/// `right`, for a ball at `ball` resting on the planet centred at `center`. With `up` the
/// unit vector from the planet's centre to the ball, `dir_up` the unit vector along
/// `up x right` and `dir_around` the one along `up x dir_up`, the drag moves the shot along
/// `-drag.x * dir_around - drag.y * dir_up`, divided by the sensitivity; a component
/// into the planet, as long as that vector, is added. Unit vectors have length `SCALE`.
pub open spec fn launch_velocity(drag: Vec2, right: IVec3, ball: IVec3, center: IVec3) -> IVec3 {
    let up = scaled_to(vsub(ball, center), SCALE as int);
    let dir_up = scaled_to(cross(up, right), SCALE as int);
    let dir_around = scaled_to(cross(up, dir_up), SCALE as int);
    let planar = div_each(
        vadd(vscale(dir_around, -drag.x), vscale(dir_up, -drag.y)),
        AIM_SENSITIVITY * SCALE,
    );
    let inward = isqrt(norm2(planar) as nat) as int;
    vadd(planar, div_each(vscale(up, -inward), SCALE as int))
}

proof fn lemma_cross_term(a: int, b: int, c: int, d: int)
    requires
        abs(a) <= SCALE,
        abs(b) <= SCALE,
        abs(c) <= SCALE,
        abs(d) <= SCALE,
    ensures
        abs(a * b) <= SCALE * SCALE,
        abs(c * d) <= SCALE * SCALE,
        abs(a * b - c * d) <= 2 * SCALE * SCALE,
{
    assert(abs(a * b) <= SCALE * SCALE && abs(c * d) <= SCALE * SCALE) by (nonlinear_arith)
        requires
            abs(a) <= SCALE,
            abs(b) <= SCALE,
            abs(c) <= SCALE,
            abs(d) <= SCALE,
    ;
}

/// The cross product of two vectors no longer than a unit in any component.
fn cross_units(a: Vec3, b: Vec3) -> (r: Vec3)
    requires
        within(a@, SCALE as int),
        within(b@, SCALE as int),
    ensures
        r@ == cross(a@, b@),
        within(r@, 2 * SCALE * SCALE),
{
    proof {
        lemma_cross_term(a.y as int, b.z as int, a.z as int, b.y as int);
        lemma_cross_term(a.z as int, b.x as int, a.x as int, b.z as int);
        lemma_cross_term(a.x as int, b.y as int, a.y as int, b.x as int);
    }
    Vec3 { x: a.y * b.z - a.z * b.y, y: a.z * b.x - a.x * b.z, z: a.x * b.y - a.y * b.x }
}

proof fn lemma_planar_term(dx: int, dy: int, a: int, u: int)
    requires
        abs(dx) <= MAX_COORD,
        abs(dy) <= MAX_COORD,
        abs(a) <= SCALE,
        abs(u) <= SCALE,
    ensures
        abs(a * -dx) <= MAX_COORD * SCALE,
        abs(u * -dy) <= MAX_COORD * SCALE,
        abs(a * -dx + u * -dy) <= 2 * MAX_COORD * SCALE,
        abs(tdiv(a * -dx + u * -dy, AIM_SENSITIVITY * SCALE)) <= 400_000_000,
{
    assert(abs(a * -dx) <= MAX_COORD * SCALE && abs(u * -dy) <= MAX_COORD * SCALE) by (nonlinear_arith)
        requires
            abs(dx) <= MAX_COORD,
            abs(dy) <= MAX_COORD,
            abs(a) <= SCALE,
            abs(u) <= SCALE,
    ;
    lemma_tdiv_at_most(a * -dx + u * -dy, AIM_SENSITIVITY * SCALE, 400_000_000);
}

/// The launch velocity for a drag, as `launch_velocity` describes.
pub fn vel_from_delta(drag: Vec2, right: Vec3, ball: Vec3, center: Vec3) -> (r: Vec3)
    requires
        abs(drag.x as int) <= MAX_COORD,
        abs(drag.y as int) <= MAX_COORD,
        within(right@, SCALE as int),
        in_domain(ball@),
        in_domain(center@),
    ensures
        r@ == launch_velocity(drag, right@, ball@, center@),
        in_domain(r@),
{
    let offset = Vec3 { x: ball.x - center.x, y: ball.y - center.y, z: ball.z - center.z };
    assert(offset@ == vsub(ball@, center@));
    let up = scale_to_length(offset, SCALE);
    let dir_up = scale_to_length(cross_units(up, right), SCALE);
    let dir_around = scale_to_length(cross_units(up, dir_up), SCALE);
    proof {
        lemma_planar_term(drag.x as int, drag.y as int, dir_around.x as int, dir_up.x as int);
        lemma_planar_term(drag.x as int, drag.y as int, dir_around.y as int, dir_up.y as int);
        lemma_planar_term(drag.x as int, drag.y as int, dir_around.z as int, dir_up.z as int);
    }
    let den = AIM_SENSITIVITY * SCALE;
    let dx = -(drag.x as i128);
    let dy = -(drag.y as i128);
    let px = (dir_around.x as i128 * dx + dir_up.x as i128 * dy) / den as i128;
    let py = (dir_around.y as i128 * dx + dir_up.y as i128 * dy) / den as i128;
    let pz = (dir_around.z as i128 * dx + dir_up.z as i128 * dy) / den as i128;
    let planar = Vec3 { x: px as i64, y: py as i64, z: pz as i64 };
    let n2 = norm2_u128(planar);
    let inward = isqrt_u128(n2);
    proof {
        let b = 400_000_000int;
        assert(planar.x * planar.x <= b * b && planar.y * planar.y <= b * b && planar.z * planar.z
            <= b * b) by (nonlinear_arith)
            requires
                within(planar@, b),
        ;
        lemma_isqrt(n2 as nat);
        assert(inward <= 700_000_000) by (nonlinear_arith)
            requires
                inward * inward <= n2,
                n2 <= 3 * 400_000_000 * 400_000_000,
        {
            if inward > 700_000_000 {
                assert(inward * inward > 700_000_000 * 700_000_000);
            }
        }
        assert(abs(up.x * -inward) <= 700_000_000 * SCALE && abs(up.y * -inward) <= 700_000_000 * SCALE
            && abs(up.z * -inward) <= 700_000_000 * SCALE) by (nonlinear_arith)
            requires
                within(up@, SCALE as int),
                0 <= inward <= 700_000_000,
        ;
        lemma_tdiv_at_most(up.x * -inward, SCALE as int, 700_000_000);
        lemma_tdiv_at_most(up.y * -inward, SCALE as int, 700_000_000);
        lemma_tdiv_at_most(up.z * -inward, SCALE as int, 700_000_000);
    }
    let m = inward as i64;
    let x = px as i64 + (up.x * -m) / SCALE;
    let y = py as i64 + (up.y * -m) / SCALE;
    let z = pz as i64 + (up.z * -m) / SCALE;
    Vec3 { x, y, z }
}

/// The drag gesture: where the drag started, if one is held, and the cursor.
#[derive(Clone, Copy, Debug, PartialEq, Eq)]
pub struct InputState {
    pub start: Option<Vec2>,
    pub cursor_pos: Vec2,
}

/// What a frame of aiming asks for.
#[derive(Clone, Copy, Debug, PartialEq, Eq)]
pub enum AimCommand {
    /// Nothing to launch or preview.
    Idle,
    /// A drag is held: preview the shot for this screen offset.
    Preview { drag: Vec2 },
    /// A drag was released: launch the shot for this screen offset.
    Launch { drag: Vec2 },
}

pub open spec fn on_screen(p: Vec2) -> bool {
    abs(p.x as int) <= MAX_SCREEN && abs(p.y as int) <= MAX_SCREEN
}

/// `to - from`.
pub open spec fn offset(from: Vec2, to: Vec2) -> Vec2 {
    Vec2 { x: (to.x - from.x) as i64, y: (to.y - from.y) as i64 }
}

/// One frame of aiming. While the ball is not grounded any drag is dropped and nothing
/// else happens. Otherwise the cursor moves to `cursor` if it moved; a press starts a
/// drag at the cursor; a release ends a held drag and launches it; a drag still held
/// asks for a preview.
pub open spec fn aim_frame(s: InputState, grounded: bool, cursor: Option<Vec2>, pressed: bool, released: bool) -> (InputState, AimCommand) {
    if !grounded {
        (InputState { start: None, ..s }, AimCommand::Idle)
    } else {
        let c = match cursor {
            Some(p) => p,
            None => s.cursor_pos,
        };
        let start = if pressed {
            Some(c)
        } else {
            s.start
        };
        if released && start is Some {
            (InputState { start: None, cursor_pos: c }, AimCommand::Launch { drag: offset(start.unwrap(), c) })
        } else if start is Some {
            (InputState { start, cursor_pos: c }, AimCommand::Preview { drag: offset(start.unwrap(), c) })
        } else {
            (InputState { start, cursor_pos: c }, AimCommand::Idle)
        }
    }
}

impl InputState {
    pub open spec fn wf(self) -> bool {
        &&& on_screen(self.cursor_pos)
        &&& self.start matches Some(p) ==> on_screen(p)
    }

    pub fn new() -> (r: InputState)
        ensures
            r.start is None,
            r.cursor_pos == (Vec2 { x: 0, y: 0 }),
            r.wf(),
    {
        InputState { start: None, cursor_pos: Vec2 { x: 0, y: 0 } }
    }

    /// One frame of aiming, as `aim_frame` describes.
    pub fn frame(&mut self, grounded: bool, cursor: Option<Vec2>, pressed: bool, released: bool) -> (r: AimCommand)
        requires
            old(self).wf(),
            cursor matches Some(p) ==> on_screen(p),
        ensures
            (*final(self), r) == aim_frame(*old(self), grounded, cursor, pressed, released),
            final(self).wf(),
            r matches AimCommand::Preview { drag } ==> abs(drag.x as int) <= MAX_COORD && abs(
                drag.y as int,
            ) <= MAX_COORD,
            r matches AimCommand::Launch { drag } ==> abs(drag.x as int) <= MAX_COORD && abs(
                drag.y as int,
            ) <= MAX_COORD,
    {
        if !grounded {
            self.start = None;
            return AimCommand::Idle;
        }
        if let Some(p) = cursor {
            self.cursor_pos = p;
        }
        if pressed {
            self.start = Some(self.cursor_pos);
        }
        let c = self.cursor_pos;
        match self.start {
            Some(s) => {
                let drag = Vec2 { x: c.x - s.x, y: c.y - s.y };
                if released {
                    self.start = None;
                    AimCommand::Launch { drag }
                } else {
                    AimCommand::Preview { drag }
                }
            },
            None => AimCommand::Idle,
        }
    }
}

} // verus!

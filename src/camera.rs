//! What the camera rig follows.
use vstd::prelude::*;
use crate::vec3::Vec3;

verus! {

/// The camera follows the ball, or frames a fixed point of interest.
#[derive(Clone, Copy, Debug, PartialEq, Eq)]
pub enum CameraState {
    Follow,
    Around { pos: Vec3, id: usize },
}

impl CameraState {
    /// The point the rig should move toward and the point it should look at, which are the
    /// same: the ball's position while following, else the fixed point.
    pub fn targets(&self, ball: Vec3) -> (r: (Vec3, Vec3))
        ensures
            r.0 == r.1,
            *self matches CameraState::Follow ==> r.0 == ball,
            *self matches CameraState::Around { pos, .. } ==> r.0 == pos,
    {
        match self {
            CameraState::Follow => (ball, ball),
            CameraState::Around { pos, .. } => (*pos, *pos),
        }
    }
}

} // verus!

//! The ball's two states and the transitions between them.
use vstd::prelude::*;
use crate::vec3::{IVec3, Vec3};

verus! {

/// The ball rests on a planet or flies with a velocity; never both.
#[derive(Clone, Copy, Debug, PartialEq, Eq)]
pub enum BallState {
    /// At rest on the surface of the planet with this index; its velocity is zero.
    Grounded { planet: usize },
    /// In flight under gravity and collisions.
    Launched { velocity: Vec3 },
}

/// The model of `BallState`.
pub enum Motion {
    Rest(int),
    Flight(IVec3),
}

impl View for BallState {
    type V = Motion;

    open spec fn view(&self) -> Motion {
        match *self {
            BallState::Grounded { planet } => Motion::Rest(planet as int),
            BallState::Launched { velocity } => Motion::Flight(velocity@),
        }
    }
}

/// What can happen to the ball.
#[derive(Clone, Copy, Debug, PartialEq, Eq)]
pub enum BallEvent {
    /// The player released a drag: the ball leaves with this velocity.
    Launch { velocity: Vec3 },
    /// A bounce left the ball too slow to fly on: it settles on this planet.
    Settle { planet: usize },
}

/// The transition function: a launch applies only to a grounded ball and settling only
/// to a flying one; any other event leaves the state as it is.
pub open spec fn transition(s: BallState, e: BallEvent) -> BallState {
    match (s, e) {
        (BallState::Grounded { .. }, BallEvent::Launch { velocity }) => BallState::Launched { velocity },
        (BallState::Launched { .. }, BallEvent::Settle { planet }) => BallState::Grounded { planet },
        _ => s,
    }
}

impl BallState {
    pub open spec fn is_grounded(self) -> bool {
        self is Grounded
    }

    /// The state after `event`.
    pub fn on_event(self, event: BallEvent) -> (r: BallState)
        ensures
            r == transition(self, event),
    {
        match (self, event) {
            (BallState::Grounded { .. }, BallEvent::Launch { velocity }) => BallState::Launched {
                velocity,
            },
            (BallState::Launched { .. }, BallEvent::Settle { planet }) => BallState::Grounded {
                planet,
            },
            _ => self,
        }
    }

    pub fn grounded(&self) -> (r: bool)
        ensures
            r == self.is_grounded(),
    {
        match self {
            BallState::Grounded { .. } => true,
            BallState::Launched { .. } => false,
        }
    }
}

} // verus!

//! A gravity-puzzle physics core in fixed-point arithmetic: the field of a set of
//! planets, semi-implicit integration, sphere collisions, the ball's states, and a
//! trajectory preview that runs the same equations.
pub mod fixed;
pub mod vec3;
pub mod gravity;
pub mod integrator;
pub mod ball;
pub mod collision;
pub mod timestep;
pub mod predictor;
pub mod aim;
pub mod camera;
pub mod level;
pub mod world;

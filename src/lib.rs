//! A flocking simulation core in fixed-point arithmetic: a spatial hash grid
//! that tells each agent which peers it can see, the separation, alignment
//! and cohesion rules computed from those peers, a velocity integrator with
//! soft containment, and smooth-damped flight steering towards a goal
//! velocity.
//!
//! Every quantity is a fixed-point integer (see `fixed`), so that each step
//! is exact and its contract can say precisely what it computes.
pub mod fixed;
pub mod vector;
pub mod observe;
pub mod boids;
pub mod velocitate;
pub mod jaymath;
pub mod flight;
pub mod flock;

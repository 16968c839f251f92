//! A verified 2D boids simulation: a flock of agents steering by local
//! alignment, cohesion and separation, nudged away from the arena edges,
//! optionally drawn toward a live attraction point, and physically contained
//! by border collisions. All state is fixed-point (`vec2::SCALE` steps to one
//! unit), every tick is proved equal to its mathematical model, and the
//! host (rendering, input, timing) talks to it through plain values.

pub mod math;
pub mod vec2;
pub mod geom;
pub mod config;
pub mod boid;
pub mod border;
pub mod forces;
pub mod flocking;
pub mod world;
pub mod tick;
pub mod laws;

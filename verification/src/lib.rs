//! Per-tick simulation core of a small arcade shooter: an entity-component
//! store with typed queries, a deferred mutation queue, and the gameplay
//! systems that run over it once per tick (movement, waypoint seeking,
//! weapon cooldown and targeting, lifetime expiry, explosion growth, and a
//! collision resolver that is generic over the projectile kind).
//!
//! All quantities are integers: positions and velocities in world units,
//! times in milliseconds, explosion radii in thousandths of a unit.
use vstd::prelude::*;

pub mod bundles;
pub mod collision;
pub mod components;
pub mod geom;
pub mod laws;
pub mod pipeline;
pub mod rng;
pub mod shoot;
pub mod spawn;
pub mod systems;
pub mod waypoints;
pub mod world;

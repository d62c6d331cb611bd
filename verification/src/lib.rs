//! A verified core for a real-time space-combat simulation: an
//! entity-component store with generation-stamped entity handles, a
//! dependency-ordered system scheduler, rigid-body physics, collision and
//! raycast queries with category filtering, render-resource synchronization
//! with deferred entity removal, per-gadget state machines (mining turret,
//! laser, cooler) and a procedural asteroid-field spawner.
//!
//! All spatial quantities are fixed-point integers in milli-units
//! (1000 = 1.0 world unit); angles are milliradians.

use vstd::prelude::*;

pub mod block;
pub mod ecs;
pub mod collision;
pub mod components;
pub mod events;
pub mod gameplay;
pub mod laws;
pub mod math;
pub mod model_sync;
pub mod physics;
pub mod render;
pub mod ship;
pub mod scheduler;
pub mod sparse;
pub mod ui;
pub mod world;

verus! {

/// Bound on every stored or queried coordinate, in milli-units.
/// Keeps all collision arithmetic (dot products and their squares,
/// evaluated in 128 bits) free of overflow.
pub const COORD_LIMIT: i64 = 268435456;

/// Bound on every rigid-body velocity component, in milli-units per tick.
pub const VEL_LIMIT: i64 = 1048576;

/// One whole world unit in milli-units.
pub const MILLI: i64 = 1000;

/// Half a turn, in milliradians.
pub const PI_MILLI: i64 = 3142;

/// A full turn, in milliradians.
pub const TAU_MILLI: i64 = 6283;

/// The fixed timestep, in ticks: velocities are expressed per tick.
pub const FIXED_DT: i64 = 1;

} // verus!

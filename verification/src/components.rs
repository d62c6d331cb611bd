//! The component records attachable to entities, together with their
//! well-formedness predicates, and the per-tick input snapshot the gadget
//! systems read.

use vstd::prelude::*;
use crate::math::Vec3;
use crate::world::Entity;
use crate::{COORD_LIMIT, VEL_LIMIT};

verus! {

/// How an entity is oriented. The simulation never needs trigonometry:
/// it either stores a yaw angle directly (milliradians about the z axis)
/// or the horizontal direction toward a point of interest, and the
/// rendering shell turns either form into a rotation matrix.
#[derive(Clone, Copy, Debug, PartialEq, Eq, Structural)]
pub enum Rotation {
    /// A yaw angle in milliradians.
    Yaw(i64),
    /// Facing along the horizontal direction `(dx, dy)`.
    Facing { dx: i64, dy: i64 },
}

/// An entity's position, rotation, and scale within space.
#[derive(Clone, Copy, Debug, PartialEq, Eq, Structural)]
pub struct Transform {
    pub position: Vec3,
    pub rotation: Rotation,
    pub scale: Vec3,
}

impl Transform {
    pub open spec fn wf(self) -> bool {
        self.position.in_bounds(COORD_LIMIT as int)
    }

    /// A transform at the given position with no rotation and unit scale.
    pub fn from_position(x: i64, y: i64, z: i64) -> (r: Transform)
        ensures
            r.position == (Vec3 { x, y, z }),
            r.rotation == Rotation::Yaw(0),
            r.scale == (Vec3 { x: 1000, y: 1000, z: 1000 }),
    {
        Transform {
            position: Vec3 { x, y, z },
            rotation: Rotation::Yaw(0),
            scale: Vec3 { x: 1000, y: 1000, z: 1000 },
        }
    }
}

/// Association between an entity and a mesh, plus the render handle the
/// model-sync system maintains for it. The handle is `None` until the
/// model's insertion has been observed, and is cleared when the handle
/// is released.
#[derive(Clone, Copy, Debug, PartialEq, Eq, Structural)]
pub struct Model {
    pub mesh_id: u64,
    pub model_id: Option<u64>,
}

impl Model {
    /// A model that has not yet been given a render handle.
    pub fn new(mesh_id: u64) -> (r: Model)
        ensures
            r.mesh_id == mesh_id,
            r.model_id is None,
    {
        Model { mesh_id, model_id: None }
    }
}

/// A constant per-tick velocity, integrated into the transform by the
/// physics system.
#[derive(Clone, Copy, Debug, PartialEq, Eq, Structural)]
pub struct RigidBody {
    pub velocity: Vec3,
}

impl RigidBody {
    pub open spec fn wf(self) -> bool {
        self.velocity.in_bounds(VEL_LIMIT as int)
    }
}

/// A collider's geometric shape: a sphere of the given radius, or an
/// axis-aligned cuboid of the given half-extents (milli-units).
#[derive(Clone, Copy, Debug, PartialEq, Eq, Structural)]
pub enum ColliderShape {
    Sphere(i64),
    Cuboid(Vec3),
}

impl ColliderShape {
    pub open spec fn wf(self) -> bool {
        match self {
            ColliderShape::Sphere(r) => 0 <= r <= COORD_LIMIT,
            ColliderShape::Cuboid(h) => {
                &&& 0 <= h.x <= COORD_LIMIT
                &&& 0 <= h.y <= COORD_LIMIT
                &&& 0 <= h.z <= COORD_LIMIT
            },
        }
    }
}

/// A shape plus a local, axis-aligned offset from the owning transform.
#[derive(Clone, Copy, Debug, PartialEq, Eq, Structural)]
pub struct Hitbox {
    pub shape: ColliderShape,
    pub offset: Vec3,
}

impl Hitbox {
    pub open spec fn wf(self) -> bool {
        self.shape.wf() && self.offset.in_bounds(COORD_LIMIT as int)
    }

    pub fn new(shape: ColliderShape, offset: Vec3) -> (r: Hitbox)
        ensures
            r == (Hitbox { shape, offset }),
    {
        Hitbox { shape, offset }
    }

    /// A hitbox with no offset.
    pub fn with_shape(shape: ColliderShape) -> (r: Hitbox)
        ensures
            r == (Hitbox { shape, offset: Vec3 { x: 0, y: 0, z: 0 } }),
    {
        Hitbox { shape, offset: Vec3 { x: 0, y: 0, z: 0 } }
    }
}

/// A hitbox plus a collision category bit and a mask of the categories
/// this collider is allowed to hit.
#[derive(Clone, Copy, Debug, PartialEq, Eq, Structural)]
pub struct Collider {
    pub hitbox: Hitbox,
    pub category: u32,
    pub mask: u32,
}

/// Collision category of ships and their blocks.
pub const CATEGORY_SHIP: u32 = 1;

/// Collision category of asteroids.
pub const CATEGORY_ASTEROID: u32 = 2;

/// Collision category of missiles.
pub const CATEGORY_MISSILE: u32 = 4;

impl Collider {
    pub open spec fn wf(self) -> bool {
        self.hitbox.wf()
    }

    pub fn new(hitbox: Hitbox, category: u32, mask: u32) -> (r: Collider)
        ensures
            r == (Collider { hitbox, category, mask }),
    {
        Collider { hitbox, category, mask }
    }
}

/// Integer hit points; damage reduces them. Turning exhausted health into
/// a removal request is the business of a system outside this core.
#[derive(Clone, Copy, Debug, PartialEq, Eq, Structural)]
pub struct Health(pub i64);

/// A ship aggregate: carries the shared heat resource (milli-heat,
/// never negative) written by the laser and cooler gadgets.
#[derive(Clone, Copy, Debug, PartialEq, Eq, Structural)]
pub struct Ship {
    pub heat: u64,
}

/// Back-reference from a gadget block entity to its owning ship entity.
/// A non-owning relation used only for lookup.
#[derive(Clone, Copy, Debug, PartialEq, Eq, Structural)]
pub struct GadgetEntity {
    pub ship: Entity,
}

/// A visible beam segment from `pt` to `pt2` with an RGB color in
/// milli-intensity.
#[derive(Clone, Copy, Debug, PartialEq, Eq, Structural)]
pub struct Line {
    pub pt: Vec3,
    pub pt2: Vec3,
    pub color: Vec3,
}

/// Mining-turret state: a charge counter advanced once per tick.
#[derive(Clone, Copy, Debug, PartialEq, Eq, Structural, Default)]
pub struct Miner {
    pub shoot_time: u16,
}

/// Marker component of laser gadget blocks.
#[derive(Clone, Copy, Debug, PartialEq, Eq, Structural)]
pub struct Laser;

/// Marker component of cooler gadget blocks.
#[derive(Clone, Copy, Debug, PartialEq, Eq, Structural)]
pub struct Cooler;

/// A mining missile in flight, remembering its designated target.
#[derive(Clone, Copy, Debug, PartialEq, Eq, Structural)]
pub struct MiningMissile {
    pub target: Entity,
}

/// The mineable item kinds an asteroid can carry.
#[derive(Clone, Copy, Debug, PartialEq, Eq, Structural)]
pub enum GameItem {
    Iron,
    Copper,
}

/// Marker component of asteroid entities: the item they carry.
#[derive(Clone, Copy, Debug, PartialEq, Eq, Structural)]
pub struct Asteroid(pub GameItem);

/// Highest difficulty level the asteroid field ever reaches.
pub const MAX_LEVEL: u16 = 30;

/// Baseline of the spawn countdown, in ticks.
pub const SPAWN_BASE: u16 = 200;

/// Ticks taken off the spawn countdown per difficulty level.
pub const SPAWN_FACTOR: u16 = 6;

/// The asteroid field: the roster of live asteroid entities, the spawn
/// countdown, the difficulty level, and the playfield half-width beyond
/// which an asteroid has drifted off. A singleton-like component on a
/// dedicated entity, mutated only by the field spawner.
pub struct AsteroidField {
    pub asteroids: Vec<Entity>,
    pub tick: u16,
    pub level: u16,
    pub x_range: i64,
}

impl AsteroidField {
    pub open spec fn wf(self) -> bool {
        &&& 1 <= self.level <= MAX_LEVEL
        &&& 0 <= self.x_range <= COORD_LIMIT
    }
}

/// The globally asserted input action, as the input shell reports it
/// for the current tick.
#[derive(Clone, Copy, Debug, PartialEq, Eq, Structural)]
pub enum InputAction {
    Idle,
    Mining,
    Laser,
}

/// Read-only per-tick input state: the asserted action and, when
/// applicable, the currently selected target entity.
#[derive(Clone, Copy, Debug, PartialEq, Eq, Structural)]
pub struct InputManager {
    pub action: InputAction,
    pub target: Option<Entity>,
}

} // verus!

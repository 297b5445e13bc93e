//! The attributes that the rigid-body engine reads and writes.

use vstd::prelude::*;
use crate::math::{Quat, Vec3};

verus! {

/// Where an entity is in the simulated world.
#[derive(Debug, Clone, Copy, PartialEq, Eq, Structural)]
pub struct Transform {
    pub translation: Vec3,
    pub rotation: Quat,
    pub scale: Vec3,
}

/// The collision shape of a body.
#[derive(Debug, Clone, Copy, PartialEq, Eq, Structural)]
pub enum Collider {
    /// A ball of the given radius.
    Ball(i64),
}

/// How much of its speed a body keeps when it bounces.
#[derive(Debug, Clone, Copy, PartialEq, Eq, Structural)]
pub struct Restitution {
    pub coefficient: i64,
}

/// How the engine moves a body.
#[derive(Debug, Clone, Copy, PartialEq, Eq, Structural)]
pub enum RigidBody {
    /// Moved by forces and contacts.
    Dynamic,
    /// Never moved.
    Fixed,
}

/// Which events a body emits.
#[derive(Debug, Clone, Copy, PartialEq, Eq, Structural)]
pub struct ActiveEvents {
    pub collision_events: bool,
}

/// Linear and angular velocity of a body.
#[derive(Debug, Clone, Copy, PartialEq, Eq, Structural)]
pub struct Velocity {
    pub linvel: Vec3,
    pub angvel: Vec3,
}

/// Force and torque accumulated on a body.
#[derive(Debug, Clone, Copy, PartialEq, Eq, Structural)]
pub struct ExternalForce {
    pub force: Vec3,
    pub torque: Vec3,
}

/// The factor applied to gravity for one body.
#[derive(Debug, Clone, Copy, PartialEq, Eq, Structural)]
pub struct GravityScale(pub i64);

/// Continuous collision detection.
#[derive(Debug, Clone, Copy, PartialEq, Eq, Structural)]
pub struct Ccd {
    pub enabled: bool,
}

impl Transform {
    /// The transform at `translation`, unrotated and unscaled.
    pub open spec fn at(translation: Vec3) -> Transform {
        Transform { translation, rotation: Quat::identity(), scale: Vec3::one() }
    }

    /// The transform at `translation`, unrotated and unscaled.
    #[verifier::when_used_as_spec(at)]
    pub fn from_translation(translation: Vec3) -> (t: Transform)
        ensures
            t == Transform::at(translation),
    {
        Transform { translation, rotation: Quat::identity(), scale: Vec3::one() }
    }
}

} // verus!

use vstd::prelude::*;

verus! {

/// Usage tag: the gravity of the physics world
pub enum Gravity {
    Tag,
}

/// Usage tag: the linear velocity of a body
pub enum LinearVelocity {
    Tag,
}

/// Usage tag: the angular velocity of a body
pub enum AngularVelocity {
    Tag,
}

/// Usage tag: the rigid body that a collider is attached to
pub enum ColliderParent {
    Tag,
}

/// Usage tag: a rigid body
pub enum RigidBodyTag {
    Tag,
}

} // verus!

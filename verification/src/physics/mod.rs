use vstd::prelude::*;
use std::cell::RefCell;

pub mod collision;
pub mod movement;
pub mod physics;

verus! {

/// `RefCell` of std, so that the worlds below can share their bodies with
/// the code that moves them. Its contents are opaque here.
#[verifier::external_type_specification]
#[verifier::external_body]
#[verifier::reject_recursive_types(T)]
pub struct ExRefCell<T: ?Sized>(RefCell<T>);

/// Marks an entity whose body moves.
pub struct DynamicObject {}

impl Default for DynamicObject {
    fn default() -> (r: Self)
        ensures
            r == (DynamicObject {}),
    {
        DynamicObject {}
    }
}

/// Pulls rigid bodies down.
pub struct GravitySystem {}

/// Eases the velocity of rigid bodies towards their desired velocity.
pub struct MovementSystem {}

/// Moves positions by the velocity of their rigid bodies.
pub struct PositionSystem {}

/// Moves sprites to their positions.
pub struct SpriteMove {}

} // verus!

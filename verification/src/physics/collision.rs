use vstd::prelude::*;
use std::cell::RefCell;
use std::rc::Rc;

verus! {

/// The bodies of a level, with a count of the solid ones.
#[verifier::reject_recursive_types(T)]
#[verifier::reject_recursive_types(U)]
pub struct CollisionWorld<T, U> {
    collidables: Vec<Rc<RefCell<T>>>,
    pub entities: Vec<Rc<RefCell<U>>>,
    num_collidables: u16,
}

impl<T, U> CollisionWorld<T, U> {
    /// The number of solid bodies.
    pub closed spec fn collidable_count(&self) -> nat {
        self.collidables@.len()
    }

    /// The number of moving bodies.
    pub closed spec fn entity_count(&self) -> nat {
        self.entities@.len()
    }

    pub closed spec fn recorded_collidables(&self) -> u16 {
        self.num_collidables
    }

    pub fn new() -> (r: Self)
        ensures
            r.collidable_count() == 0,
            r.recorded_collidables() == 0,
            r.entity_count() == 0,
    {
        Self { collidables: Vec::new(), entities: Vec::new(), num_collidables: 0 }
    }
}

} // verus!

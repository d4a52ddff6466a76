use vstd::prelude::*;
use std::cell::RefCell;
use std::rc::Rc;

verus! {

/// The bodies of a level: the solid ones (`T`) and the moving ones (`U`).
#[verifier::reject_recursive_types(T)]
#[verifier::reject_recursive_types(U)]
pub struct CollisionWorld<T, U> {
    pub collidables: Vec<Rc<RefCell<T>>>,
    pub entities: Vec<Rc<RefCell<U>>>,
}

impl<T, U> CollisionWorld<T, U> {
    pub fn new() -> (r: Self)
        ensures
            r.collidables@.len() == 0,
            r.entities@.len() == 0,
    {
        Self { collidables: Vec::new(), entities: Vec::new() }
    }
}

} // verus!

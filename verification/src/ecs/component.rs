use vstd::prelude::*;
use crate::ecs::storage::DynamicStorage;

verus! {

/// A component type, with the storage its values are kept in.
pub trait Component: Sized {
    type Storage: DynamicStorage<Self>;
}

} // verus!

use vstd::prelude::*;

verus! {

/// A system runs over the data it fetches from the world.
pub trait System<'a> {
    type SystemData;

    fn run(&mut self, data: Self::SystemData);
}

} // verus!

use vstd::prelude::*;

pub mod level;
pub mod stack;

verus! {

/// A scene of a game over a world of type `C`.
pub trait Scene<C> {}

} // verus!

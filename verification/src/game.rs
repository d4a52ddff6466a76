use vstd::prelude::*;
use crate::scene::stack::SceneStack;

verus! {

/// The state of a running game: its stack of spaces (of type `S`, such as
/// `Box<dyn Scene<World>>`).
pub struct GameState<S> {
    space_stack: SceneStack<S>,
}

impl<S> GameState<S> {
    /// The spaces of the game, the most recent last.
    pub closed spec fn spaces(&self) -> Seq<S> {
        self.space_stack.scenes@
    }

    pub fn new() -> (r: Self)
        ensures
            r.spaces().len() == 0,
    {
        Self { space_stack: SceneStack::new() }
    }

    /// Puts a space on top of the stack.
    pub fn add_space(&mut self, scene: S)
        ensures
            final(self).spaces() == old(self).spaces().push(scene),
    {
        self.space_stack.push(scene);
    }
}

} // verus!

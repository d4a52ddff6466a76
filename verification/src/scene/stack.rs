use vstd::prelude::*;
use crate::scene::Scene;

verus! {

/// The scenes of a game, the most recent last. A stack of the scenes of a
/// world `C` of any kind is a `SceneStack<Box<dyn Scene<C>>>`.
pub struct SceneStack<S> {
    pub scenes: Vec<S>,
}

impl<S> SceneStack<S> {
    pub fn new() -> (r: Self)
        ensures
            r.scenes@.len() == 0,
    {
        Self { scenes: Vec::new() }
    }

    /// Puts the scene on top of the stack.
    pub fn push(&mut self, scene: S)
        ensures
            final(self).scenes@ == old(self).scenes@.push(scene),
    {
        self.scenes.push(scene)
    }
}

/// What a scene asks of the stack after an update (`Keep`: nothing).
#[verifier::reject_recursive_types(C)]
pub enum SceneSwitch<C> {
    Keep,
    Push(Box<dyn Scene<C>>),
    Replace(Box<dyn Scene<C>>),
    Pop,
}

impl<C> SceneSwitch<C> {
    /// Asks for the top scene to be replaced by `scene`.
    pub fn replace<S>(scene: S) -> (r: Self) where S: Scene<C> + 'static
        ensures
            ({
                let boxed: Box<dyn Scene<C>> = Box::new(scene);
                r == SceneSwitch::Replace(boxed)
            }),
    {
        let boxed: Box<dyn Scene<C>> = Box::new(scene);
        SceneSwitch::Replace(boxed)
    }

    /// Asks for `scene` to be pushed on top.
    pub fn push<S>(scene: S) -> (r: Self) where S: Scene<C> + 'static
        ensures
            ({
                let boxed: Box<dyn Scene<C>> = Box::new(scene);
                r == SceneSwitch::Push(boxed)
            }),
    {
        let boxed: Box<dyn Scene<C>> = Box::new(scene);
        SceneSwitch::Push(boxed)
    }
}

} // verus!

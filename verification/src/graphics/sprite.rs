use vstd::prelude::*;

verus! {

/// Many sprites drawn from one image (of type `I`) in one call: the
/// per-sprite instance data (of type `S`) in drawing order.
pub struct SpriteBatch<I, S> {
    image: I,
    sprites: Vec<S>,
}

impl<I, S> SpriteBatch<I, S> {
    /// The instance data of the sprites, in drawing order.
    pub closed spec fn sprites(&self) -> Seq<S> {
        self.sprites@
    }

    /// The image the sprites are drawn from.
    pub closed spec fn image(&self) -> I {
        self.image
    }

    pub fn new(image: I) -> (r: Self)
        ensures
            r.sprites().len() == 0,
            r.image() == image,
    {
        Self { image, sprites: Vec::new() }
    }

    /// Adds a sprite at the end and returns the number of sprites.
    pub fn insert(&mut self, info: S) -> (r: usize)
        ensures
            final(self).sprites() == old(self).sprites().push(info),
            final(self).image() == old(self).image(),
            r == final(self).sprites().len(),
    {
        self.sprites.push(info);
        self.sprites.len()
    }

    /// Removes the sprite at `idx`; the later ones move down by one.
    pub fn remove(&mut self, idx: usize)
        requires
            idx < old(self).sprites().len(),
        ensures
            final(self).sprites() == old(self).sprites().remove(idx as int),
            final(self).image() == old(self).image(),
    {
        self.sprites.remove(idx);
    }

    pub fn clear(&mut self)
        ensures
            final(self).sprites().len() == 0,
            final(self).image() == old(self).image(),
    {
        self.sprites.clear();
    }

    pub fn count(&self) -> (r: usize)
        ensures
            r == self.sprites().len(),
    {
        self.sprites.len()
    }
}

} // verus!

use vstd::prelude::*;

verus! {

/// Builds a level.
pub struct LevelBuilder {
    pub inner: Level,
    pub is_built: bool,
}

impl LevelBuilder {
    pub fn new() -> (r: Self)
        ensures
            r.inner == (Level {}),
            !r.is_built,
    {
        Self { inner: Level::default(), is_built: false }
    }

    /// Reads the level from the configuration; there is nothing to read yet.
    pub fn from_conf(&mut self)
        ensures
            *final(self) == *old(self),
    {
    }

    /// Adds to the level; there is nothing to add yet.
    pub fn with(&mut self)
        ensures
            *final(self) == *old(self),
    {
    }

    /// Reads the level from a configuration file; there is nothing to read yet.
    pub fn from_conf_file(&mut self)
        ensures
            *final(self) == *old(self),
    {
    }

    pub fn build(self) -> (r: Level)
        ensures
            r == self.inner,
    {
        self.inner
    }
}

#[derive(Clone, Copy)]
pub struct Level {}

impl Default for Level {
    fn default() -> (r: Self)
        ensures
            r == (Level {}),
    {
        Level {}
    }
}

} // verus!

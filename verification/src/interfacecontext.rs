use vstd::prelude::*;

verus! {

/// Builds the context of the interface.
pub struct ContextBuilder {}

impl ContextBuilder {
    pub fn new() -> (r: Self)
        ensures
            r == (ContextBuilder {}),
    {
        Self {}
    }
}

} // verus!

use vstd::prelude::*;

verus! {

/// Anything that can be stored as an asset.
pub trait Asset {}

impl<T> Asset for T where T: 'static {}

} // verus!

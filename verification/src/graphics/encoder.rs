use vstd::prelude::*;

verus! {

/// A command for the GPU.
pub struct GpuCommand {}

} // verus!

use vstd::prelude::*;

verus! {

/// The errors of the graphics back end.
#[derive(Debug)]
pub enum GraphicsError {
    PipelineError(String),
    DrawError(String),
}

} // verus!

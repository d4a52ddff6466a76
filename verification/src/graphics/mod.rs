use vstd::prelude::*;

pub mod animation;
pub mod document;
pub mod encoder;
pub mod error;
pub mod image;
pub mod renderer;
pub mod shader;
pub mod sprite;
pub mod text;

verus! {

/// How a drawn color is combined with what is already there.
#[derive(Clone, Copy, PartialEq, Hash, Eq)]
pub enum BlendMode {
    Add,
    Subtract,
    Alpha,
    Invert,
}

/// A packed color.
pub struct Color(u16);

} // verus!

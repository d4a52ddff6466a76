//! A small game-engine core: a hierarchical bitset for entity joins, entity
//! bookkeeping, component storage, scene stacks and the integer logic of
//! animation, text layout and image decoding.

pub mod animation;
pub mod asset;
pub mod conf;
pub mod ecs;
pub mod event;
pub mod game;
pub mod graphics;
pub mod input;
pub mod interfacecontext;
pub mod physics;
pub mod scene;

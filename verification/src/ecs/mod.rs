pub mod bits;
pub mod component;
pub mod entity;
pub mod join;
pub mod layeredbitmap;
pub mod storage;
pub mod system;

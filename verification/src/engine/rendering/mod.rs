//! Frames and the renderer's view of them.

pub mod frame;
pub mod renderer;

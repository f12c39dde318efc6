//! The decisions of the rendering engine. The calls into the graphics device
//! are the caller's; what is drawn, in which order the steps run, and what a
//! failure means, is decided here.

pub mod command;
pub mod pipeline;
pub mod raster;
pub mod renderer;
pub mod teardown;
pub mod vulkan;

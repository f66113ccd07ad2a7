//! A software render engine: a pixel framebuffer, a small rasterizer, typed
//! drawing commands and the per-frame state machine that applies them.

pub mod framebuffer;
pub mod raster;
pub mod command;
pub mod engine;
pub mod laws;

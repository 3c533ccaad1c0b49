//! A minimal real-time raster core: an RGBA pixel canvas with alpha
//! compositing, a double-buffered input state machine with frame-accurate
//! edge detection, and a rolling frame-time clock.
//!
//! The host environment (windowing, GPU presentation, event delivery, file
//! encoding) is an external collaborator: it feeds plain values into these
//! components and reads plain values back out.

pub mod canvas;
pub mod input;
pub mod media;
pub mod time;

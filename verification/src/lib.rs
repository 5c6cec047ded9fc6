//! Core of a live-coding shader render tool: a declarative stage/buffer
//! graph is validated and installed atomically, each frame is planned as a
//! sequence of render commands, shader sources are expanded through a
//! recursive inclusion preprocessor with cycle detection, and per-stage timing
//! is smoothed by a fixed-capacity running average.
//!
//! Everything here is plain data and verified logic; the graphics context,
//! window system and file watcher live outside and talk to this crate
//! through plain values.

pub mod average;
pub mod parse;
pub mod pipeline;
pub mod preprocess;
pub mod reload;
pub mod render;
pub mod util;

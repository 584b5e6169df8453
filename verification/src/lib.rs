//! Boundary layer of a tile-based GPU rendering engine.
//!
//! This crate defines how GPU texture resources are identified, how
//! mutations to those resources are queued and handed off between a
//! scene-processing producer thread and a GPU-driving consumer thread,
//! and the data model behind a capability-uniform wrapper over several
//! native graphics-context backends.

pub mod ids;
pub mod batching;
pub mod updates;
pub mod cache;
pub mod frame;
pub mod channel;
pub mod context;
pub mod misc;

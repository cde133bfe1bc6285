//! Worker-side state for a browser canvas rendering surface.
//!
//! A canvas worker owns exactly one rendering backend for its lifetime:
//! either a compositor-resident GPU context ("direct") or a locally owned
//! CPU-readable context whose frames are copied out and published as
//! compositor images ("readback"). This crate holds the verified core of
//! that worker: the backend state machine, the epoch-based lifecycle of
//! published image keys, the resize policy, the frame pixel transform, and
//! the command router. The unverifiable edges (GL calls, the compositor
//! transport, channels and threads) live outside and hand this crate plain
//! values.

pub mod backend;
pub mod dispatch;
pub mod geom;
pub mod keys;
pub mod pixels;

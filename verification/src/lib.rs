//! Retained-mode incremental renderer core: a per-frame virtual tree built in
//! a frame arena, a double-buffered pair of arenas, a structural diff engine
//! that emits document mutation commands, a revocable callback registry, and a
//! coalescing render scheduler, composed by a top-level render loop.
//!
//! The host environment (document tree, event delivery, frame ticks) stays
//! outside: the library computes what must happen and hands the host plain
//! commands to perform.

pub mod diff;
pub mod model;
pub mod registry;
pub mod render_loop;
pub mod sched;
pub mod text;
pub mod view;
pub mod tree;

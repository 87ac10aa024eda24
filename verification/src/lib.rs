//! Per-frame input tracking, a list of windows that live across frames, and
//! the decisions of a frame loop, for applications drawn with glium and egui.
//!
//! The library holds no window and runs no event loop. A host feeds it the
//! events that the windowing backend delivers and carries out the actions
//! that [`frame::FrameDriver`] answers with.

pub mod context;
pub mod frame;
pub mod io;
pub mod utils;

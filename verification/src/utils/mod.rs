//! Helpers built on the per-frame callbacks.

pub mod persistent_window;

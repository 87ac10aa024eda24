//! Input state, kept up to date from the stream of platform events.

pub mod event;
pub mod keyboard;
pub mod mouse;

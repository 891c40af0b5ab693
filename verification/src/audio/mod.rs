//! Recording sessions and the choice of a capture device.

pub mod controller;
pub mod process;
pub mod recording;
pub mod vad;

pub use recording::Session;

//! Core logic of a voice-transcription daemon: the command state machine,
//! the decisions of the daemon loop, token filtering and post-processing of
//! transcriptions, and the parsers for its command-line options.

pub mod audio;
pub mod client;
pub mod config;
pub mod daemon;
pub mod number;
pub mod socket;
pub mod text;
pub mod timing;
pub mod transport;
pub mod whisper;

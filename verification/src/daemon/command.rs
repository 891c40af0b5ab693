//! What a client asks of the daemon.

use super::response::Response;
use super::state::Mode;
use crate::audio::recording::{clone_text, Session};
use crate::whisper::transcription::Model;
use vstd::prelude::*;

verus! {

#[derive(Debug, PartialEq, Eq)]
pub enum Command {
    /// Begin a recording with these parameters.
    Start(Session),
    /// End the recording and transcribe it.
    Stop,
    /// Leave the loop so that the daemon is started afresh.
    Reset,
    /// Switch to this mode.
    Mode(Mode),
    /// Send this response as it is.
    Respond(Response),
}

impl Clone for Command {
    fn clone(&self) -> (c: Self)
        ensures
            c == *self,
    {
        match self {
            Command::Start(session) => Command::Start(session.clone()),
            Command::Stop => Command::Stop,
            Command::Reset => Command::Reset,
            Command::Mode(mode) => Command::Mode(*mode),
            Command::Respond(response) => Command::Respond(response.clone()),
        }
    }
}

impl Command {
    /// The response that the command carries in itself, if any: the new
    /// mode for a mode switch, and the response to pass on.
    #[must_use]
    pub fn as_response(&self) -> (r: Option<Response>)
        ensures
            r == match *self {
                Command::Mode(mode) => Some(Response::NewMode(mode)),
                Command::Respond(response) => Some(response),
                _ => None,
            },
    {
        match self {
            Command::Mode(mode) => Some(Response::NewMode(*mode)),
            Command::Respond(response) => Some(response.clone()),
            _ => None,
        }
    }
}

/// The parameters of a transcription that is asked for without a recording.
#[derive(Debug, PartialEq, Eq)]
pub struct TranscriptionParams {
    pub model: Option<Model>,
    pub sample_rate: Option<u32>,
    pub prompt: Option<String>,
}

impl Clone for TranscriptionParams {
    fn clone(&self) -> (p: Self)
        ensures
            p == *self,
    {
        TranscriptionParams {
            model: self.model,
            sample_rate: self.sample_rate,
            prompt: clone_text(&self.prompt),
        }
    }
}

} // verus!

//! What the daemon tells a client.

use super::state::Mode;
use crate::audio::recording::{clone_text, joined_text};
use crate::number::{decimal, decimal_string};
use crate::timing::Timing;
use vstd::prelude::*;
use vstd::string::StringExecFns;

verus! {

#[derive(Debug, PartialEq, Eq)]
pub enum Response {
    /// A recording has started, at this many milliseconds since the epoch.
    Ack(u128),
    /// The command changed nothing.
    Nil,
    /// The command failed, with the reason.
    Error(String),
    /// The daemon leaves its loop, with its exit code.
    Exit(u8),
    /// The mode is now this one.
    NewMode(Mode),
    /// What was heard, if anything, and the mode it was heard in.
    Transcription { content: Option<String>, mode: Mode },
}

impl Clone for Response {
    fn clone(&self) -> (r: Self)
        ensures
            r == *self,
    {
        match self {
            Response::Ack(ms) => Response::Ack(*ms),
            Response::Nil => Response::Nil,
            Response::Error(message) => Response::Error(message.clone()),
            Response::Exit(code) => Response::Exit(*code),
            Response::NewMode(mode) => Response::NewMode(*mode),
            Response::Transcription { content, mode } => Response::Transcription {
                content: clone_text(content),
                mode: *mode,
            },
        }
    }
}

/// The time now in milliseconds since the Unix epoch, read from the
/// system clock (`SystemTime::now` against `UNIX_EPOCH`); nothing where
/// the clock stands before the epoch. Nothing is claimed of the value.
#[verifier::external_body]
fn epoch_millis() -> Option<u128> {
    std::time::SystemTime::now().duration_since(std::time::UNIX_EPOCH).ok().map(|d| d.as_millis())
}

impl Response {
    /// The acknowledgement for a reading of the clock at or after the
    /// epoch: it carries the milliseconds read. A clock that stands before
    /// the epoch gives no reading to acknowledge.
    #[must_use]
    pub fn ack_at(now: Option<u128>) -> (r: Self)
        requires
            now is Some,
        ensures
            r == Response::Ack(now->0),
    {
        match now {
            Some(ms) => Response::Ack(ms),
            None => vstd::pervasive::unreached(),
        }
    }

    /// An acknowledgement that carries the time now; nothing where the
    /// clock stands before the epoch.
    #[must_use]
    pub fn ack() -> (r: Option<Self>)
        ensures
            r is Some ==> r->0 is Ack,
    {
        let now = epoch_millis();
        if now.is_some() {
            Some(Response::ack_at(now))
        } else {
            None
        }
    }

    /// The transcription that one timing stands for, in the default mode.
    pub fn from_timing(t: &Timing) -> (r: Self)
        ensures
            r matches Response::Transcription { content, mode } && content is Some && content->0@
                == t@.content() && mode == Mode::LiveTyping,
    {
        Response::Transcription {
            content: Some(String::from_str(t.content())),
            mode: Mode::default(),
        }
    }
}

impl Response {
    /// The response as one line of text.
    pub open spec fn line(self) -> Seq<char> {
        match self {
            Response::Ack(ms) => "ACK "@ + decimal(ms as nat),
            Response::Nil => "NIL"@,
            Response::Error(message) => "ERROR "@ + message@,
            Response::Exit(code) => "EXIT "@ + decimal(code as nat),
            Response::NewMode(mode) => "NEW_MODE "@ + mode.name(),
            Response::Transcription { content: Some(text), mode: Mode::Standard } => "TX "@
                + text@,
            Response::Transcription { content: Some(text), mode: Mode::LiveTyping } => "TX_LIVE "@
                + text@,
            Response::Transcription { content: None, .. } => "TX_EMPTY"@,
        }
    }

    pub fn to_text(&self) -> (s: String)
        ensures
            s@ == self.line(),
    {
        match self {
            Response::Ack(ms) => joined_text("ACK ", decimal_string(*ms).as_str()),
            Response::Nil => "NIL".to_owned(),
            Response::Error(message) => joined_text("ERROR ", message.as_str()),
            Response::Exit(code) => joined_text("EXIT ", decimal_string(*code as u128).as_str()),
            Response::NewMode(mode) => joined_text("NEW_MODE ", mode.to_text().as_str()),
            Response::Transcription { content: Some(text), mode } => match mode {
                Mode::Standard => joined_text("TX ", text.as_str()),
                Mode::LiveTyping => joined_text("TX_LIVE ", text.as_str()),
            },
            Response::Transcription { content: None, .. } => "TX_EMPTY".to_owned(),
        }
    }
}

} // verus!

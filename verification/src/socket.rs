//! The socket transport's decisions: what to do with the socket path at
//! startup, how a response is framed, and which failures end only the
//! connection at hand.

use crate::audio::recording::joined_text;
use vstd::prelude::*;

verus! {

/// The kinds of I/O failure that the transport tells apart.
#[derive(Debug, Clone, Copy, PartialEq, Eq, Structural)]
pub enum IoErrorKind {
    NotFound,
    BrokenPipe,
    Other,
}

/// An I/O failure: its kind and what the system said of it.
#[derive(Debug, PartialEq, Eq)]
pub struct IoError {
    pub kind: IoErrorKind,
    pub message: String,
}

#[derive(Debug, PartialEq, Eq)]
pub enum ReadError {
    /// A line was no command, and why.
    Parse(String),
    /// The command could not be handed to the daemon.
    Send,
}

#[derive(Debug, PartialEq, Eq)]
pub enum WriteError {
    Io(IoError),
    /// A response could not be written down as a line, and why.
    Json(String),
}

#[derive(Debug, PartialEq, Eq)]
pub enum Error {
    Stream(IoError),
    Read(ReadError),
    Write(WriteError),
    NotASocket,
    NonexistentSocket,
}

impl Error {
    /// The failure is a write to a connection that the client has closed.
    pub open spec fn broken_pipe(self) -> bool {
        self matches Error::Write(WriteError::Io(e)) && e.kind == IoErrorKind::BrokenPipe
    }

    /// The failure ends the connection at hand and nothing else: a write
    /// to a closed connection, or a line that was no command.
    pub open spec fn is_recoverable(self) -> bool {
        self.broken_pipe() || self matches Error::Read(ReadError::Parse(_))
    }

    pub fn is_broken_pipe(&self) -> (b: bool)
        ensures
            b == self.broken_pipe(),
    {
        match self {
            Error::Write(WriteError::Io(e)) => e.kind == IoErrorKind::BrokenPipe,
            _ => false,
        }
    }

    pub fn recoverable(&self) -> (b: bool)
        ensures
            b == self.is_recoverable(),
    {
        if self.is_broken_pipe() {
            return true;
        }
        matches!(self, Error::Read(ReadError::Parse(_)))
    }
}

/// The listener goes on after a connection that ended well or in a
/// recoverable failure; any other failure ends the listener.
pub fn after_connection(outcome: Result<(), Error>) -> (r: Result<(), Error>)
    ensures
        r == match outcome {
            Ok(()) => Ok(()),
            Err(e) => if e.is_recoverable() {
                Ok(())
            } else {
                Err(e)
            },
        },
{
    match outcome {
        Ok(()) => Ok(()),
        Err(e) => if e.recoverable() {
            Ok(())
        } else {
            Err(e)
        },
    }
}

/// What was found at the socket path.
#[derive(Debug, PartialEq, Eq)]
pub enum PathProbe {
    /// A socket, left over from an earlier run.
    Socket,
    /// Something that is no socket.
    NotSocket,
    /// Nothing.
    Missing,
    /// The path could not be looked at.
    Failed(IoError),
}

/// What to do before binding the socket.
#[derive(Debug, Clone, Copy, PartialEq, Eq, Structural)]
pub enum Preparation {
    /// Remove the socket that is there.
    Remove,
    /// Nothing is in the way.
    Nothing,
}

/// Decides what to do with the socket path at startup: a socket that is
/// there is removed, anything else that is there is refused, and a path
/// that cannot be looked at is a failure.
pub fn prepare_socket(probe: PathProbe) -> (r: Result<Preparation, Error>)
    ensures
        r == match probe {
            PathProbe::Socket => Ok(Preparation::Remove),
            PathProbe::NotSocket => Err(Error::NotASocket),
            PathProbe::Missing => Ok(Preparation::Nothing),
            PathProbe::Failed(e) => Err(Error::Stream(e)),
        },
{
    match probe {
        PathProbe::Socket => Ok(Preparation::Remove),
        PathProbe::NotSocket => Err(Error::NotASocket),
        PathProbe::Missing => Ok(Preparation::Nothing),
        PathProbe::Failed(e) => Err(Error::Stream(e)),
    }
}

/// A response on the wire: its text, a comma and a line feed.
pub fn frame_line(json: &str) -> (line: String)
    ensures
        line@ == json@ + ",\n"@,
{
    joined_text(json, ",\n")
}

/// The name of a thread for a message, if the thread has one.
#[derive(Debug, Clone, Copy)]
pub struct ThreadName<'a>(pub Option<&'a str>);

impl<'a> ThreadName<'a> {
    pub fn new(name: Option<&'a str>) -> (t: Self)
        ensures
            t.0 == name,
    {
        ThreadName(name)
    }

    pub open spec fn text(self) -> Seq<char> {
        match self.0 {
            Some(name) => "thread named "@ + name@,
            None => "thread"@,
        }
    }

    /// How the thread is called in a message.
    pub fn realize(self) -> (s: String)
        ensures
            s@ == self.text(),
    {
        match self.0 {
            Some(name) => joined_text("thread named ", name),
            None => "thread".to_owned(),
        }
    }
}

} // verus!

//! The client's side of a command: which request it makes, and what it
//! takes for an answer.

use crate::audio::recording::{clone_text, Session};
use crate::daemon::response::Response;
use crate::daemon::state::Mode;
use crate::whisper::transcription::Model;
use vstd::prelude::*;
use vstd::string::StringExecFns;

verus! {

/// What the user asks the client to do.
#[derive(Debug, PartialEq, Eq)]
pub enum Commands {
    Start { input_device: Option<String>, sample_rate: Option<u32>, model: Option<Model> },
    Stop,
    Reset,
    ChangeMode { mode: Mode },
}

/// The client's command line: a command, and the host of the daemon.
#[derive(Debug, PartialEq, Eq)]
pub struct App {
    pub command: Commands,
    pub host: String,
}

/// What a request carries.
#[derive(Debug, PartialEq, Eq)]
pub enum Body {
    Empty,
    /// The session to start, as a JSON object.
    Session(Session),
    /// The mode to switch to, as the member `mode` of a JSON object.
    Mode(Mode),
}

/// A request to the daemon: where to post, and what.
#[derive(Debug, PartialEq, Eq)]
pub struct Request {
    pub url: String,
    pub body: Body,
}

/// The address of a path on a host.
pub fn route(host: &str, path: &str) -> (url: String)
    ensures
        url@ == "http://"@ + host@ + path@,
{
    let mut url = String::from_str("http://");
    url.append(host);
    url.append(path);
    url
}

/// A command on its way to a daemon.
#[derive(Debug, PartialEq, Eq)]
pub struct RunningApp {
    pub command: Commands,
    pub host: String,
}

impl RunningApp {
    pub fn new(app: App) -> (r: Self)
        ensures
            r.command == app.command,
            r.host == app.host,
    {
        RunningApp { command: app.command, host: app.host }
    }

    /// The path that the command is posted to.
    pub open spec fn path(self) -> Seq<char> {
        match self.command {
            Commands::Start { .. } => "/voice/start"@,
            Commands::Stop => "/voice/stop"@,
            Commands::Reset => "/voice/reset"@,
            Commands::ChangeMode { .. } => "/voice/mode"@,
        }
    }

    /// The request that the command makes: a start carries its session,
    /// without a prompt; a change of mode carries the mode.
    pub fn request(&self) -> (r: Request)
        ensures
            r.url@ == "http://"@ + self.host@ + self.path(),
            r.body == match self.command {
                Commands::Start { input_device, sample_rate, model } => Body::Session(
                    Session { input_device, sample_rate, prompt: None, model },
                ),
                Commands::Stop | Commands::Reset => Body::Empty,
                Commands::ChangeMode { mode } => Body::Mode(mode),
            },
    {
        match &self.command {
            Commands::Start { input_device, sample_rate, model } => Request {
                url: route(self.host.as_str(), "/voice/start"),
                body: Body::Session(
                    Session::new(clone_text(input_device), *sample_rate, None, *model),
                ),
            },
            Commands::Stop => Request {
                url: route(self.host.as_str(), "/voice/stop"),
                body: Body::Empty,
            },
            Commands::Reset => Request {
                url: route(self.host.as_str(), "/voice/reset"),
                body: Body::Empty,
            },
            Commands::ChangeMode { mode } => Request {
                url: route(self.host.as_str(), "/voice/mode"),
                body: Body::Mode(*mode),
            },
        }
    }

    /// What the client makes of the daemon's answer.
    pub fn settle(&self, response: Response) -> (r: Result<Outcome, Response>)
        ensures
            r == match self.command {
                Commands::Start { .. } => if response is Ack {
                    Ok(Outcome::Done)
                } else {
                    Err(response)
                },
                Commands::Stop => match response {
                    Response::Transcription { content: Some(text), .. } => Ok(Outcome::Print(text)),
                    Response::Transcription { content: None, .. } => Ok(Outcome::Silence),
                    _ => Err(response),
                },
                _ => Ok(Outcome::Done),
            },
    {
        match &self.command {
            Commands::Start { .. } => match response {
                Response::Ack(_) => Ok(Outcome::Done),
                other => Err(other),
            },
            Commands::Stop => match response {
                Response::Transcription { content: Some(text), .. } => Ok(Outcome::Print(text)),
                Response::Transcription { content: None, .. } => Ok(Outcome::Silence),
                other => Err(other),
            },
            _ => Ok(Outcome::Done),
        }
    }
}

/// What the client does once the daemon has answered as expected.
#[derive(Debug, PartialEq, Eq)]
pub enum Outcome {
    /// Nothing more.
    Done,
    /// Print what was heard.
    Print(String),
    /// Say that nothing was heard.
    Silence,
}

} // verus!

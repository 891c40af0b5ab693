//! The state machine: whether a recording runs, with which session, and
//! in which mode; and which commands it accepts.

use super::command::Command;
use crate::audio::recording::{clone_text, Session};
use vstd::prelude::*;

verus! {

/// A label on transcriptions that tells the client how to use them.
#[derive(Debug, Clone, Copy, PartialEq, Eq, Structural)]
pub enum Mode {
    Standard,
    LiveTyping,
}

impl Default for Mode {
    fn default() -> (m: Self)
        ensures
            m == Mode::LiveTyping,
    {
        Mode::LiveTyping
    }
}

impl Mode {
    pub open spec fn name(self) -> Seq<char> {
        match self {
            Mode::Standard => "standard"@,
            Mode::LiveTyping => "live_typing"@,
        }
    }

    /// The mode's name on the wire.
    pub fn to_text(&self) -> (s: String)
        ensures
            s@ == self.name(),
    {
        match self {
            Mode::Standard => "standard".to_owned(),
            Mode::LiveTyping => "live_typing".to_owned(),
        }
    }
}

/// Where the recording stands. The session of a recording that has
/// stopped is kept, so that its prompt and model reach the transcription.
#[derive(Debug, PartialEq, Eq)]
pub enum Audio {
    Idle,
    Started(Session),
    Stopped(Session),
}

impl Default for Audio {
    fn default() -> (a: Self)
        ensures
            a == Audio::Idle,
    {
        Audio::Idle
    }
}

impl Clone for Audio {
    fn clone(&self) -> (a: Self)
        ensures
            a == *self,
    {
        match self {
            Audio::Idle => Audio::Idle,
            Audio::Started(s) => Audio::Started(s.clone()),
            Audio::Stopped(s) => Audio::Stopped(s.clone()),
        }
    }
}

#[derive(Debug, PartialEq, Eq)]
pub struct State {
    pub audio: Audio,
    pub mode: Mode,
}

impl Default for State {
    fn default() -> (s: Self)
        ensures
            s == (State { audio: Audio::Idle, mode: Mode::LiveTyping }),
    {
        State { audio: Audio::Idle, mode: Mode::LiveTyping }
    }
}

impl Clone for State {
    fn clone(&self) -> (s: Self)
        ensures
            s == *self,
    {
        State { audio: self.audio.clone(), mode: self.mode }
    }
}

impl State {
    /// A recording runs exactly while the audio is started.
    pub open spec fn is_running(self) -> bool {
        self.audio is Started
    }

    /// The session of the recording that runs or has stopped.
    pub open spec fn session_of(self) -> Option<Session> {
        match self.audio {
            Audio::Started(s) | Audio::Stopped(s) => Some(s),
            Audio::Idle => None,
        }
    }

    /// Whether the state machine accepts the command: a start while no
    /// recording runs, a stop while one runs, a switch to another mode
    /// while none runs, and every reset and every response to pass on.
    pub open spec fn accepts(self, cmd: Command) -> bool {
        match cmd {
            Command::Start(_) => !self.is_running(),
            Command::Stop => self.is_running(),
            Command::Mode(mode) => !self.is_running() && mode != self.mode,
            Command::Reset | Command::Respond(_) => true,
        }
    }

    /// The state after the command: an accepted start, stop or mode switch
    /// takes effect; everything else leaves the state as it is.
    pub open spec fn after(self, cmd: Command) -> State {
        if !self.accepts(cmd) {
            self
        } else {
            match cmd {
                Command::Start(session) => State { audio: Audio::Started(session), mode: self.mode },
                Command::Stop => State { audio: Audio::Stopped(self.audio->Started_0), mode: self.mode },
                Command::Mode(mode) => State { audio: self.audio, mode },
                Command::Reset | Command::Respond(_) => self,
            }
        }
    }

    #[must_use]
    pub fn running(&self) -> (r: bool)
        ensures
            r == self.is_running(),
    {
        matches!(self.audio, Audio::Started(_))
    }

    #[must_use]
    pub fn mode(&self) -> (m: Mode)
        ensures
            m == self.mode,
    {
        self.mode
    }

    #[must_use]
    pub fn session(&self) -> (r: Option<&Session>)
        ensures
            r is Some == self.session_of() is Some,
            r is Some ==> *r->0 == self.session_of()->0,
    {
        match &self.audio {
            Audio::Started(s) | Audio::Stopped(s) => Some(s),
            Audio::Idle => None,
        }
    }

    /// The prompt of the session, where there is a session and it has one.
    pub fn prompt(&self) -> (r: Option<String>)
        ensures
            r == match self.session_of() {
                Some(s) => s.prompt,
                None => None,
            },
    {
        match &self.audio {
            Audio::Started(s) | Audio::Stopped(s) => clone_text(&s.prompt),
            Audio::Idle => None,
        }
    }

    /// Starts a recording with `session` unless one runs already.
    pub fn start(&mut self, session: Session) -> (accepted: bool)
        ensures
            accepted == old(self).accepts(Command::Start(session)),
            *final(self) == old(self).after(Command::Start(session)),
    {
        match self.audio {
            Audio::Idle | Audio::Stopped(_) => {
                self.audio = Audio::Started(session);
                true
            },
            Audio::Started(_) => false,
        }
    }

    /// Stops the recording that runs, if one does, and keeps its session.
    pub fn stop(&mut self) -> (accepted: bool)
        ensures
            accepted == old(self).accepts(Command::Stop),
            *final(self) == old(self).after(Command::Stop),
    {
        let stopped = match &self.audio {
            Audio::Started(s) => Some(Audio::Stopped(s.clone())),
            _ => None,
        };
        match stopped {
            Some(audio) => {
                self.audio = audio;
                true
            },
            None => false,
        }
    }

    /// Switches to `mode` where no recording runs and `mode` is another
    /// mode than the one at hand; else nothing changes.
    pub fn change_mode(&mut self, mode: Mode) -> (changed: bool)
        ensures
            changed == (!old(self).is_running() && mode != old(self).mode),
            changed ==> *final(self) == (State { audio: old(self).audio, mode }),
            !changed ==> *final(self) == *old(self),
    {
        if self.running() || self.mode == mode {
            false
        } else {
            self.mode = mode;
            true
        }
    }

    /// Applies one command to the state machine and tells whether the
    /// command was accepted.
    pub fn next_state(&mut self, cmd: &Command) -> (accepted: bool)
        ensures
            accepted == old(self).accepts(*cmd),
            *final(self) == old(self).after(*cmd),
    {
        match cmd {
            Command::Start(session) => self.start(session.clone()),
            Command::Stop => self.stop(),
            Command::Mode(mode) => self.change_mode(*mode),
            Command::Reset | Command::Respond(_) => true,
        }
    }
}

impl State {
    /// The state after a run of commands, applied in order.
    pub open spec fn after_all(self, cmds: Seq<Command>) -> State
        decreases cmds.len(),
    {
        if cmds.len() == 0 {
            self
        } else {
            self.after_all(cmds.drop_last()).after(cmds.last())
        }
    }
}

/// The transition table, row by row: what each command does in each state,
/// and that nothing else ever happens.
pub proof fn lemma_transition_table(s: State, cmd: Command)
    ensures
        match cmd {
            Command::Start(session) => if s.audio is Started {
                !s.accepts(cmd) && s.after(cmd) == s
            } else {
                s.accepts(cmd) && s.after(cmd) == (State {
                    audio: Audio::Started(session),
                    mode: s.mode,
                })
            },
            Command::Stop => match s.audio {
                Audio::Started(session) => s.accepts(cmd) && s.after(cmd) == (State {
                    audio: Audio::Stopped(session),
                    mode: s.mode,
                }),
                _ => !s.accepts(cmd) && s.after(cmd) == s,
            },
            Command::Mode(mode) => if !(s.audio is Started) && mode != s.mode {
                s.accepts(cmd) && s.after(cmd) == (State { audio: s.audio, mode })
            } else {
                !s.accepts(cmd) && s.after(cmd) == s
            },
            Command::Reset | Command::Respond(_) => s.accepts(cmd) && s.after(cmd) == s,
        },
        !s.accepts(cmd) ==> s.after(cmd) == s,
        s.after(cmd).is_running() <==> s.after(cmd).audio is Started,
{
}

/// A start while a recording runs changes nothing, however often it comes;
/// and after one stop a second stop changes nothing.
pub proof fn lemma_repeated_start_or_stop(s: State, first: Session, second: Session)
    ensures
        s.is_running() ==> s.after(Command::Start(first)) == s && s.after(
            Command::Start(first),
        ).after(Command::Start(second)) == s,
        !s.after(Command::Stop).accepts(Command::Stop),
        s.after(Command::Stop).after(Command::Stop) == s.after(Command::Stop),
{
}

/// Runs the commands through the state machine, in order. Each command
/// comes back with the state that it led to, or with nothing where the
/// state machine refused it.
pub fn run_state_machine(commands: &Vec<Command>, state: &mut State) -> (out: Vec<
    (Command, Option<State>),
>)
    ensures
        *final(state) == old(state).after_all(commands@),
        out@.len() == commands@.len(),
        forall|i: int|
            0 <= i < out@.len() ==> {
                let before = old(state).after_all(commands@.take(i));
                &&& (#[trigger] out@[i]).0 == commands@[i]
                &&& out@[i].1 == if before.accepts(commands@[i]) {
                    Some(before.after(commands@[i]))
                } else {
                    None
                }
            },
{
    let mut out: Vec<(Command, Option<State>)> = Vec::new();
    let mut i: usize = 0;
    assert(commands@.take(0) =~= Seq::<Command>::empty());
    while i < commands.len()
        invariant
            i <= commands.len(),
            *state == old(state).after_all(commands@.take(i as int)),
            out@.len() == i,
            forall|j: int|
                0 <= j < out@.len() ==> {
                    let before = old(state).after_all(commands@.take(j));
                    &&& (#[trigger] out@[j]).0 == commands@[j]
                    &&& out@[j].1 == if before.accepts(commands@[j]) {
                        Some(before.after(commands@[j]))
                    } else {
                        None
                    }
                },
        decreases commands.len() - i,
    {
        let cmd = commands[i].clone();
        let accepted = state.next_state(&cmd);
        let reached = if accepted {
            Some(state.clone())
        } else {
            None
        };
        proof {
            let upto = commands@.take(i + 1);
            assert(upto.drop_last() =~= commands@.take(i as int));
            assert(upto.last() == commands@[i as int]);
        }
        out.push((cmd, reached));
        i += 1;
    }
    assert(commands@.take(commands@.len() as int) =~= commands@);
    out
}

} // verus!

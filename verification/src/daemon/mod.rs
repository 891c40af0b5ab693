//! The daemon: its commands and responses, the state machine that accepts
//! or refuses a command, and the decisions of its loop.
//!
//! The loop itself waits on channels, records and transcribes, which this
//! library does not do. It is cut into steps: whoever runs the loop hands
//! in what happened as an [`Event`] and carries out the [`Action`] that
//! comes back.

pub mod command;
pub mod input;
pub mod response;
pub mod state;

use crate::audio::recording::{as_deref, Session};
use crate::timing::{
    all_well_formed, collect_sentences, drop_meta, join_continuations, joined,
    lemma_steps_keep_spans_in_order, reduce, reduced, sentences, speech, views, Timing,
    TimingView,
};
use crate::whisper::transcription::{Job, Model, StrategyOpt, StrategyView};
use command::Command;
use response::Response;
use state::{Audio, Mode, State};
use vstd::prelude::*;
use vstd::string::StringExecFns;

verus! {

/// What the daemon is started with.
#[derive(Debug)]
pub struct DaemonInit {
    pub strategy: Option<StrategyOpt>,
    pub model_dir: String,
    pub socket_path: Option<String>,
}

impl DaemonInit {
    /// The strategy to transcribe with: the one given, or else a beam
    /// search with five beams and no patience.
    pub open spec fn strategy_view(self) -> StrategyView {
        match self.strategy {
            Some(strategy) => strategy@,
            None => StrategyView::Beam { beam_size: 5, patience: "0.0"@ },
        }
    }

    pub fn new(strategy: Option<StrategyOpt>, model_dir: String, socket_path: Option<String>) -> (c:
        Self)
        ensures
            c == (DaemonInit { strategy, model_dir, socket_path }),
    {
        DaemonInit { strategy, model_dir, socket_path }
    }

    #[must_use]
    pub fn strategy(&self) -> (s: StrategyOpt)
        ensures
            s@ == self.strategy_view(),
    {
        match &self.strategy {
            Some(strategy) => strategy.clone(),
            None => StrategyOpt::default(),
        }
    }

    #[must_use]
    pub fn socket_path(&self) -> (r: Option<&str>)
        ensures
            r is Some == self.socket_path is Some,
            r is Some ==> r->0@ == self.socket_path->0@,
    {
        as_deref(&self.socket_path)
    }

    #[must_use]
    pub fn model_dir(&self) -> (r: &str)
        ensures
            r@ == self.model_dir@,
    {
        self.model_dir.as_str()
    }
}

/// What was said in a recording, from the timings of its tokens: the
/// continuations joined, the pieces grouped into sentences, the engine's
/// remarks dropped, and what is left merged into one; nothing where
/// nothing is left.
pub open spec fn heard(ts: Seq<TimingView>) -> Option<TimingView> {
    reduced(speech(sentences(joined(ts))))
}

/// The timings of the tokens of one recording.
#[derive(Debug)]
pub struct Transcription(pub Vec<Timing>);

impl Transcription {
    /// Turns the timings of the tokens into what was said.
    pub fn process(self) -> (r: Option<Timing>)
        ensures
            r is Some == heard(views(self.0@)) is Some,
            r is Some ==> r->0@ == heard(views(self.0@))->0,
    {
        let joined = join_continuations(&self.0);
        let sentences = collect_sentences(&joined);
        let speech = drop_meta(&sentences);
        reduce(&speech)
    }
}

/// What is heard of timings whose spans are in order has its span in order.
pub proof fn lemma_heard_span_in_order(ts: Seq<TimingView>)
    requires
        all_well_formed(ts),
    ensures
        heard(ts) is Some ==> heard(ts)->0.well_formed(),
{
    lemma_steps_keep_spans_in_order(ts);
    lemma_steps_keep_spans_in_order(joined(ts));
    lemma_steps_keep_spans_in_order(sentences(joined(ts)));
    lemma_steps_keep_spans_in_order(speech(sentences(joined(ts))));
}

/// No sentence whose content starts with an opening bracket is heard:
/// what is merged into the result are exactly the sentences that are
/// speech, each of which is a sentence of the recording.
pub proof fn lemma_meta_is_not_heard(ts: Seq<TimingView>)
    ensures
        forall|i: int|
            0 <= i < speech(sentences(joined(ts))).len() ==> {
                let kept = #[trigger] speech(sentences(joined(ts)))[i];
                !kept.is_meta() && sentences(joined(ts)).contains(kept)
            },
        forall|i: int|
            0 <= i < sentences(joined(ts)).len() && (#[trigger] sentences(joined(ts))[i]).is_meta()
                ==> !speech(sentences(joined(ts))).contains(sentences(joined(ts))[i]),
        forall|i: int|
            0 <= i < sentences(joined(ts)).len() && !(#[trigger] sentences(
                joined(ts),
            )[i]).is_meta() ==> speech(sentences(joined(ts))).contains(sentences(joined(ts))[i]),
{
    let all = sentences(joined(ts));
    let pred = |t: TimingView| !t.is_meta();
    let kept = all.filter(pred);
    #[allow(deprecated)]
    all.filter_lemma(pred);
    assert forall|i: int| 0 <= i < kept.len() implies all.contains(#[trigger] kept[i]) by {
        assert(kept.contains(kept[i]));
        all.lemma_filter_contains_rev(pred, kept[i]);
    }
    assert forall|i: int| 0 <= i < all.len() && (#[trigger] all[i]).is_meta() implies !kept.contains(
        all[i],
    ) by {
        if kept.contains(all[i]) {
            let j = choose|j: int| 0 <= j < kept.len() && kept[j] == all[i];
            assert(pred(kept[j]));
        }
    }
}

/// Where the daemon stands in the handling of a command.
#[derive(Debug, PartialEq, Eq)]
pub enum Phase {
    /// The last command is answered; the next one can be taken.
    Ready,
    /// A recording is being built and started. `previous` is where the
    /// audio stood before, to go back to if that fails.
    Starting { previous: Audio },
    /// The recording is being stopped.
    Stopping,
    /// The job is with the worker.
    Transcribing,
    /// The loop has ended.
    Finished,
}

impl Clone for Phase {
    fn clone(&self) -> (p: Self)
        ensures
            p == *self,
    {
        match self {
            Phase::Ready => Phase::Ready,
            Phase::Starting { previous } => Phase::Starting { previous: previous.clone() },
            Phase::Stopping => Phase::Stopping,
            Phase::Transcribing => Phase::Transcribing,
            Phase::Finished => Phase::Finished,
        }
    }
}

/// What happened outside the daemon.
#[derive(Debug)]
pub enum Event<A> {
    /// A client sent this command.
    Command(Command),
    /// No command will come any more.
    Closed,
    /// The last response could not be sent: nobody listens any more.
    Unsent,
    /// The recording runs, since this time in milliseconds since the epoch.
    Started(u128),
    /// The recording could not be built or started, and why.
    StartFailed(String),
    /// The recording has stopped: the sample rate of its stream and its audio.
    Stopped { sample_rate: u32, audio: Vec<A> },
    /// The recording ended in a failure, and which.
    StopFailed(String),
    /// The worker has answered the job: with the timings of the tokens,
    /// or with nothing where the job failed.
    Transcribed(Option<Vec<Timing>>),
    /// The worker is gone and will not answer.
    WorkerGone,
}

/// What is to be done outside the daemon.
#[derive(Debug)]
pub enum Action<A> {
    /// Send the response; then hand in the next command.
    Reply(Response),
    /// Build and start a recording for the session; then report how it went.
    Record(Session),
    /// Stop the recording; then report what it gave.
    Finish,
    /// Hand the job to the worker; then report its answer.
    Transcribe(Job<A>),
    /// Send the response and leave the loop. `reinitialize` asks for the
    /// daemon to be started afresh.
    Exit { response: Response, reinitialize: bool },
}

/// The daemon between two steps of its loop.
#[derive(Debug)]
pub struct Daemon {
    config: DaemonInit,
    state: State,
    phase: Phase,
    exit_code: u8,
}

impl Daemon {
    pub closed spec fn config_of(self) -> DaemonInit {
        self.config
    }

    pub closed spec fn state_of(self) -> State {
        self.state
    }

    pub closed spec fn phase_of(self) -> Phase {
        self.phase
    }

    /// The code that the daemon leaves with when the commands run out.
    pub closed spec fn exit_code_of(self) -> u8 {
        self.exit_code
    }

    /// The events that can come in a phase: a command, or the end of the
    /// commands, only once the last command is answered; the outcome of a
    /// piece of work only while that work is under way.
    pub open spec fn expects<A>(self, event: Event<A>) -> bool {
        match self.phase_of() {
            Phase::Ready => event is Command || event is Closed || event is Unsent,
            Phase::Starting { .. } => event is Started || event is StartFailed,
            Phase::Stopping => event is Stopped || event is StopFailed,
            Phase::Transcribing => event is Transcribed || event is WorkerGone,
            Phase::Finished => false,
        }
    }

    /// The job for the recording that has stopped: the model and the
    /// prompt of its session, the daemon's strategy, and the audio at the
    /// stream's sample rate.
    pub open spec fn is_job_for<A>(self, job: Job<A>, sample_rate: u32, audio: Vec<A>) -> bool {
        &&& job.model == match self.state_of().session_of() {
            Some(Session { model: Some(model), .. }) => model,
            _ => Model::Base,
        }
        &&& job.audio == audio
        &&& job.strategy@ == self.config_of().strategy_view()
        &&& job.sample_rate == sample_rate
        &&& job.prompt == match self.state_of().session_of() {
            Some(session) => session.prompt,
            None => None,
        }
    }

    /// The response to a transcription: what was heard, if anything, in
    /// the daemon's mode.
    pub open spec fn is_transcription_of(self, response: Response, timings: Seq<TimingView>) -> bool {
        response matches Response::Transcription { content, mode } && mode == self.state_of().mode
            && (content is Some <==> heard(timings) is Some) && (content is Some ==> content->0@
            == heard(timings)->0.content())
    }

    /// One step of the loop: from the daemon `self` and `event` to the
    /// daemon `next` and `action`.
    pub open spec fn follows<A>(self, event: Event<A>, next: Daemon, action: Action<A>) -> bool {
        let state = self.state_of();
        let silent = Response::Transcription { content: None, mode: state.mode };
        &&& next.config_of() == self.config_of()
        &&& match event {
            Event::Command(cmd) => if !state.accepts(cmd) {
                &&& next.state_of() == state
                &&& next.phase_of() == Phase::Ready
                &&& next.exit_code_of() == self.exit_code_of()
                &&& action == Action::<A>::Reply(Response::Nil)
            } else {
                &&& next.state_of() == state.after(cmd)
                &&& next.exit_code_of() == self.exit_code_of()
                &&& match cmd {
                    Command::Start(session) => next.phase_of() == (Phase::Starting {
                        previous: state.audio,
                    }) && action == Action::<A>::Record(session),
                    Command::Stop => next.phase_of() == Phase::Stopping && action == Action::<
                        A,
                    >::Finish,
                    Command::Mode(mode) => next.phase_of() == Phase::Ready && action == Action::<
                        A,
                    >::Reply(Response::NewMode(mode)),
                    Command::Reset => next.phase_of() == Phase::Finished && action == (Action::<
                        A,
                    >::Exit { response: Response::Exit(1), reinitialize: true }),
                    Command::Respond(response) => next.phase_of() == Phase::Ready && action
                        == Action::<A>::Reply(response),
                }
            },
            Event::Closed | Event::Unsent => {
                &&& next.state_of() == state
                &&& next.phase_of() == Phase::Finished
                &&& next.exit_code_of() == self.exit_code_of()
                &&& action == (Action::<A>::Exit {
                    response: Response::Exit(self.exit_code_of()),
                    reinitialize: false,
                })
            },
            Event::Started(now) => {
                &&& next.state_of() == state
                &&& next.phase_of() == Phase::Ready
                &&& next.exit_code_of() == self.exit_code_of()
                &&& action == Action::<A>::Reply(Response::Ack(now))
            },
            Event::StartFailed(message) => {
                &&& next.state_of() == (State {
                    audio: match self.phase_of() {
                        Phase::Starting { previous } => previous,
                        _ => state.audio,
                    },
                    mode: state.mode,
                })
                &&& next.phase_of() == Phase::Ready
                &&& next.exit_code_of() == self.exit_code_of()
                &&& action == Action::<A>::Reply(Response::Error(message))
            },
            Event::Stopped { sample_rate, audio } => {
                &&& next.state_of() == state
                &&& next.phase_of() == Phase::Transcribing
                &&& next.exit_code_of() == self.exit_code_of()
                &&& action matches Action::Transcribe(job) && self.is_job_for(
                    job,
                    sample_rate,
                    audio,
                )
            },
            Event::StopFailed(_) => {
                &&& next.state_of() == state
                &&& next.phase_of() == Phase::Ready
                &&& next.exit_code_of() == self.exit_code_of()
                &&& action == Action::<A>::Reply(silent)
            },
            Event::Transcribed(Some(timings)) => {
                &&& next.state_of() == state
                &&& next.phase_of() == Phase::Ready
                &&& next.exit_code_of() == self.exit_code_of()
                &&& action matches Action::Reply(response) && self.is_transcription_of(
                    response,
                    views(timings@),
                )
            },
            Event::Transcribed(None) => {
                &&& next.state_of() == state
                &&& next.phase_of() == Phase::Ready
                &&& next.exit_code_of() == 1
                &&& action == Action::<A>::Reply(silent)
            },
            Event::WorkerGone => {
                &&& next.state_of() == state
                &&& next.phase_of() == Phase::Finished
                &&& next.exit_code_of() == 1
                &&& action == (Action::<A>::Exit {
                    response: Response::Exit(1),
                    reinitialize: false,
                })
            },
        }
    }

    /// A daemon that has seen no command yet: idle, in the default mode,
    /// and ready for the first command.
    #[must_use]
    pub fn new(config: DaemonInit) -> (d: Self)
        ensures
            d.config_of() == config,
            d.state_of() == (State { audio: Audio::Idle, mode: Mode::LiveTyping }),
            d.phase_of() == Phase::Ready,
            d.exit_code_of() == 0,
    {
        Daemon { config, state: State::default(), phase: Phase::Ready, exit_code: 0 }
    }

    pub fn config(&self) -> (c: &DaemonInit)
        ensures
            *c == self.config_of(),
    {
        &self.config
    }

    pub fn state(&self) -> (s: &State)
        ensures
            *s == self.state_of(),
    {
        &self.state
    }

    pub fn phase(&self) -> (p: &Phase)
        ensures
            *p == self.phase_of(),
    {
        &self.phase
    }

    pub fn exit_code(&self) -> (code: u8)
        ensures
            code == self.exit_code_of(),
    {
        self.exit_code
    }

    /// Whether `event` can be handed to `step` now.
    pub fn can_take<A>(&self, event: &Event<A>) -> (b: bool)
        ensures
            b == self.expects(*event),
    {
        match self.phase {
            Phase::Ready => matches!(event, Event::Command(_) | Event::Closed | Event::Unsent),
            Phase::Starting { .. } => matches!(event, Event::Started(_) | Event::StartFailed(_)),
            Phase::Stopping => matches!(event, Event::Stopped { .. } | Event::StopFailed(_)),
            Phase::Transcribing => matches!(event, Event::Transcribed(_) | Event::WorkerGone),
            Phase::Finished => false,
        }
    }

    fn job<A>(&self, sample_rate: u32, audio: Vec<A>) -> (job: Job<A>)
        ensures
            self.is_job_for(job, sample_rate, audio),
    {
        let model = match self.state.session() {
            Some(session) => match session.model() {
                Some(model) => model,
                None => Model::default(),
            },
            None => Model::default(),
        };
        let built = Job::builder().model(model).strategy(self.config.strategy()).audio(
            audio,
        ).prompt(self.state.prompt()).sample_rate(sample_rate).build();
        match built {
            Ok(job) => job,
            Err(_) => vstd::pervasive::unreached(),
        }
    }

    fn transcription(&self, timings: Vec<Timing>) -> (response: Response)
        ensures
            self.is_transcription_of(response, views(timings@)),
    {
        let content = match Transcription(timings).process() {
            Some(t) => Some(String::from_str(t.content())),
            None => None,
        };
        Response::Transcription { content, mode: self.state.mode() }
    }

    /// One step of the loop. Takes what happened and says what to do next.
    pub fn step<A>(&mut self, event: Event<A>) -> (action: Action<A>)
        requires
            old(self).expects(event),
        ensures
            old(self).follows(event, *final(self), action),
    {
        match event {
            Event::Command(cmd) => {
                let previous = self.state.audio.clone();
                if !self.state.next_state(&cmd) {
                    return Action::Reply(Response::Nil);
                }
                match cmd {
                    Command::Start(session) => {
                        self.phase = Phase::Starting { previous };
                        Action::Record(session)
                    },
                    Command::Stop => {
                        self.phase = Phase::Stopping;
                        Action::Finish
                    },
                    Command::Mode(mode) => Action::Reply(Response::NewMode(mode)),
                    Command::Reset => {
                        self.phase = Phase::Finished;
                        Action::Exit { response: Response::Exit(1), reinitialize: true }
                    },
                    Command::Respond(response) => Action::Reply(response),
                }
            },
            Event::Closed | Event::Unsent => {
                self.phase = Phase::Finished;
                Action::Exit { response: Response::Exit(self.exit_code), reinitialize: false }
            },
            Event::Started(now) => {
                self.phase = Phase::Ready;
                Action::Reply(Response::Ack(now))
            },
            Event::StartFailed(message) => {
                let previous = match &self.phase {
                    Phase::Starting { previous } => previous.clone(),
                    _ => self.state.audio.clone(),
                };
                self.state.audio = previous;
                self.phase = Phase::Ready;
                Action::Reply(Response::Error(message))
            },
            Event::Stopped { sample_rate, audio } => {
                self.phase = Phase::Transcribing;
                Action::Transcribe(self.job(sample_rate, audio))
            },
            Event::StopFailed(_) => {
                self.phase = Phase::Ready;
                Action::Reply(Response::Transcription { content: None, mode: self.state.mode() })
            },
            Event::Transcribed(Some(timings)) => {
                self.phase = Phase::Ready;
                Action::Reply(self.transcription(timings))
            },
            Event::Transcribed(None) => {
                self.phase = Phase::Ready;
                self.exit_code = 1;
                Action::Reply(Response::Transcription { content: None, mode: self.state.mode() })
            },
            Event::WorkerGone => {
                self.phase = Phase::Finished;
                self.exit_code = 1;
                Action::Exit { response: Response::Exit(1), reinitialize: false }
            },
        }
    }
}

/// The number of commands among the events.
pub open spec fn commands_in<A>(events: Seq<Event<A>>) -> nat
    decreases events.len(),
{
    if events.len() == 0 {
        0
    } else {
        commands_in(events.drop_last()) + if events.last() is Command {
            1nat
        } else {
            0nat
        }
    }
}

/// The number of responses among the actions: a reply and an exit carry one each.
pub open spec fn responses_in<A>(actions: Seq<Action<A>>) -> nat
    decreases actions.len(),
{
    if actions.len() == 0 {
        0
    } else {
        responses_in(actions.drop_last()) + if actions.last() is Reply || actions.last() is Exit {
            1nat
        } else {
            0nat
        }
    }
}

/// A run of the loop from a daemon that is ready: every event is one that
/// the daemon expects, and every step goes as `follows` has it.
pub open spec fn is_run<A>(daemons: Seq<Daemon>, events: Seq<Event<A>>, actions: Seq<Action<A>>) -> bool {
    &&& daemons.len() == events.len() + 1
    &&& actions.len() == events.len()
    &&& daemons[0].phase_of() == Phase::Ready
    &&& forall|i: int|
        0 <= i < events.len() ==> (#[trigger] daemons[i]).expects(events[i]) && daemons[i].follows(
            events[i],
            daemons[i + 1],
            actions[i],
        )
}

proof fn lemma_run_balance<A>(
    daemons: Seq<Daemon>,
    events: Seq<Event<A>>,
    actions: Seq<Action<A>>,
    n: int,
)
    requires
        is_run(daemons, events, actions),
        0 <= n <= events.len(),
    ensures
        match daemons[n].phase_of() {
            Phase::Ready => responses_in(actions.take(n)) == commands_in(events.take(n)),
            Phase::Finished => true,
            _ => responses_in(actions.take(n)) + 1 == commands_in(events.take(n)),
        },
    decreases n,
{
    if n == 0 {
        assert(events.take(0).len() == 0);
        assert(actions.take(0).len() == 0);
    } else {
        lemma_run_balance(daemons, events, actions, n - 1);
        assert(events.take(n).drop_last() =~= events.take(n - 1));
        assert(actions.take(n).drop_last() =~= actions.take(n - 1));
        assert(events.take(n).last() == events[n - 1]);
        assert(actions.take(n).last() == actions[n - 1]);
        assert(daemons[n - 1].expects(events[n - 1]));
        assert(daemons[n - 1].follows(events[n - 1], daemons[n], actions[n - 1]));
    }
}

/// Every command has its one response before the next command is taken:
/// in every run, at each command as many responses have gone out as
/// commands came before it; and so they have whenever the daemon is ready.
pub proof fn lemma_one_response_per_command<A>(
    daemons: Seq<Daemon>,
    events: Seq<Event<A>>,
    actions: Seq<Action<A>>,
    i: int,
)
    requires
        is_run(daemons, events, actions),
        0 <= i <= events.len(),
    ensures
        i < events.len() && events[i] is Command ==> responses_in(actions.take(i)) == commands_in(
            events.take(i),
        ),
        daemons[i].phase_of() == Phase::Ready ==> responses_in(actions.take(i)) == commands_in(
            events.take(i),
        ),
        i < events.len() && events[i] is Command ==> (actions[i] is Reply || actions[i] is Exit
            || daemons[i + 1].phase_of() is Starting || daemons[i + 1].phase_of() is Stopping),
{
    lemma_run_balance(daemons, events, actions, i);
    if i < events.len() {
        assert(daemons[i].expects(events[i]));
        assert(daemons[i].follows(events[i], daemons[i + 1], actions[i]));
    }
}

} // verus!

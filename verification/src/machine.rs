//! The playback state machine of one speaker, as a mathematical model.
//!
//! A speaker is idle, or it runs a playback loop. The loop belongs to the
//! caller: it hands the machine a [`Signal`], gets a [`Command`] back, carries
//! it out and reports what it then saw. Everything the loop decides is decided
//! here.

use crate::request::Request;
use vstd::prelude::*;

verus! {

/// Length of one poll tick in milliseconds: the time a loop sleeps when it is
/// told to poll or to pause, and so the bound on how late a stop is noticed.
pub const POLL_INTERVAL_MS: u64 = 10;

/// Where a speaker stands.
#[derive(Clone, Copy, Debug, PartialEq, Eq, Structural)]
pub enum Phase {
    /// No playback loop runs.
    Idle,
    /// A loop runs and is between two requests.
    Ready,
    /// A loop runs and the current request is being played.
    Sounding,
    /// A loop runs and waits between two plays of the current request.
    Pausing,
}

/// What a playback loop saw since its last step.
#[derive(Clone, Copy, Debug, PartialEq, Eq, Structural)]
pub enum Signal {
    /// Nothing worth telling: the loop has just started, or has carried out
    /// the last command, or the audio is still playing.
    Nothing,
    /// The sink reported the end of the audio.
    Ended,
    /// So many whole seconds have passed since the audio ended.
    Waited(u64),
    /// The engine rejected or failed the last command.
    Failed,
}

/// What a playback loop has to do next.
pub enum Command {
    /// Open a session for this text and play it.
    Play(Seq<char>),
    /// Play the open session once more.
    Replay,
    /// Sleep one tick, then report `Ended` or `Nothing`.
    Poll,
    /// Sleep one tick, then report `Waited` with the seconds since the end.
    Pause,
    /// Close the open session.
    Release,
    /// Leave the loop: the speaker is idle.
    Exit,
}

impl Command {
    /// Whether the command makes the device sound.
    pub open spec fn plays(self) -> bool {
        self is Play || self is Replay
    }
}

/// What is left of `queue` once the silent requests at its front are dropped.
pub open spec fn skip_silent(queue: Seq<Request>) -> Seq<Request>
    decreases queue.len(),
{
    if queue.len() > 0 && queue.first().silent() {
        skip_silent(queue.drop_first())
    } else {
        queue
    }
}

/// Number of silent requests at the front of `queue`.
pub open spec fn silent_prefix(queue: Seq<Request>) -> nat
    decreases queue.len(),
{
    if queue.len() > 0 && queue.first().silent() {
        1 + silent_prefix(queue.drop_first())
    } else {
        0
    }
}

/// `skip_silent` drops the silent requests up to the first one with text, in
/// order and without a gap, and nothing else.
pub proof fn lemma_skip_silent(queue: Seq<Request>)
    ensures
        silent_prefix(queue) <= queue.len(),
        skip_silent(queue) == queue.skip(silent_prefix(queue) as int),
        forall|i: int| 0 <= i < silent_prefix(queue) ==> (#[trigger] queue[i]).silent(),
        skip_silent(queue).len() > 0 ==> !skip_silent(queue).first().silent(),
    decreases queue.len(),
{
    if queue.len() > 0 && queue.first().silent() {
        let tail = queue.drop_first();
        lemma_skip_silent(tail);
        let k = silent_prefix(tail);
        assert(tail.skip(k as int) =~= queue.skip(k as int + 1));
        assert forall|i: int| 0 <= i < silent_prefix(queue) implies (#[trigger] queue[i]).silent() by {
            if i > 0 {
                assert(queue[i] == tail[i - 1]);
            }
        }
    } else {
        assert(queue.skip(0) =~= queue);
    }
}

/// The counter of a request whose first play starts now.
pub open spec fn first_count(request: Request) -> u64 {
    if request.endless() {
        0
    } else {
        1
    }
}

/// Whether a request of which `started` plays have begun is played again.
pub open spec fn goes_on(request: Request, started: u64) -> bool {
    request.endless() || started < request.play_count
}

/// The counter once one more play of the request is due.
pub open spec fn next_count(request: Request, started: u64) -> u64 {
    if request.endless() {
        started
    } else {
        (started + 1) as u64
    }
}

/// What a speaker stands for in contracts.
pub struct SpeakerState {
    /// Name of the device that the speaker serves.
    pub name: Seq<char>,
    /// Pending requests, oldest first.
    pub queue: Seq<Request>,
    /// Where the speaker stands.
    pub phase: Phase,
    /// Set by a stop, for the loop to notice at its next step.
    pub cancel: bool,
    /// Plays of the current request begun or due; stays 0 for an endless one.
    pub completed_repeats: u64,
    /// The request that is being played.
    pub current: Option<Request>,
}

impl SpeakerState {
    /// The speaker of a device just found: idle, nothing pending.
    pub open spec fn fresh(name: Seq<char>) -> Self {
        SpeakerState {
            name,
            queue: Seq::empty(),
            phase: Phase::Idle,
            cancel: false,
            completed_repeats: 0,
            current: None,
        }
    }

    /// Whether a playback loop runs for this speaker.
    pub open spec fn running(self) -> bool {
        self.phase != Phase::Idle
    }

    /// Whether a request is being played (sounding, or between two plays).
    pub open spec fn in_flight(self) -> bool {
        self.phase == Phase::Sounding || self.phase == Phase::Pausing
    }

    /// Whether the counter fits the current request.
    pub open spec fn counted(self, request: Request) -> bool {
        if request.endless() {
            self.completed_repeats == 0
        } else {
            1 <= self.completed_repeats <= request.play_count
        }
    }

    /// The states that a speaker can be in.
    ///
    /// Work is pending only while a loop runs, and a request is current
    /// exactly while it is in flight.
    pub open spec fn wf(self) -> bool {
        match self.phase {
            Phase::Idle => {
                &&& self.queue.len() == 0
                &&& !self.cancel
                &&& self.current is None
                &&& self.completed_repeats == 0
            },
            Phase::Ready => {
                &&& self.current is None
                &&& self.completed_repeats == 0
            },
            Phase::Sounding => {
                &&& self.current matches Some(request)
                &&& !request.silent()
                &&& self.counted(request)
            },
            Phase::Pausing => {
                &&& self.current matches Some(request)
                &&& !request.silent()
                &&& self.counted(request)
                &&& request.play_interval > 0
            },
        }
    }

    /// A stop: a running speaker drops what is pending and marks the current
    /// request as cancelled; an idle one stays as it is.
    pub open spec fn stop(self) -> Self {
        if self.running() {
            SpeakerState { queue: Seq::empty(), cancel: true, ..self }
        } else {
            self
        }
    }

    /// Whether handing this speaker a request starts a playback loop.
    pub open spec fn starts_loop(self) -> bool {
        self.phase == Phase::Idle
    }

    /// A request arrives: it goes behind what is pending, and an idle speaker
    /// starts running.
    pub open spec fn enqueue(self, request: Request) -> Self {
        SpeakerState {
            queue: self.queue.push(request),
            phase: if self.phase == Phase::Idle {
                Phase::Ready
            } else {
                self.phase
            },
            ..self
        }
    }

    /// A request arrives, after a stop if it interrupts.
    pub open spec fn speak(self, request: Request, interrupt: bool) -> Self {
        if interrupt {
            self.stop().enqueue(request)
        } else {
            self.enqueue(request)
        }
    }

    /// The loop is between two requests: it takes the oldest pending request
    /// that has text and plays it, or goes idle when there is none.
    pub open spec fn fetch(self) -> (Self, Command) {
        let rest = skip_silent(self.queue);
        if rest.len() == 0 {
            (SpeakerState::fresh(self.name), Command::Exit)
        } else {
            let request = rest.first();
            (
                SpeakerState {
                    queue: rest.drop_first(),
                    phase: Phase::Sounding,
                    cancel: false,
                    completed_repeats: first_count(request),
                    current: Some(request),
                    ..self
                },
                Command::Play(request.text),
            )
        }
    }

    /// The current request is over: its session is closed and the loop is
    /// between two requests again.
    pub open spec fn release(self) -> (Self, Command) {
        (
            SpeakerState {
                phase: Phase::Ready,
                cancel: false,
                completed_repeats: 0,
                current: None,
                ..self
            },
            Command::Release,
        )
    }

    /// The audio of `request` has ended: it is played again, at once or after
    /// its interval, as long as plays are left; else it is over.
    pub open spec fn after_end(self, request: Request) -> (Self, Command) {
        if goes_on(request, self.completed_repeats) {
            let completed_repeats = next_count(request, self.completed_repeats);
            if request.play_interval == 0 {
                (SpeakerState { phase: Phase::Sounding, completed_repeats, ..self }, Command::Replay)
            } else {
                (SpeakerState { phase: Phase::Pausing, completed_repeats, ..self }, Command::Pause)
            }
        } else {
            self.release()
        }
    }

    /// One step of the playback loop: the state and the signal decide the
    /// next state and the command.
    pub open spec fn step(self, signal: Signal) -> (Self, Command) {
        match self.phase {
            Phase::Idle => (self, Command::Exit),
            Phase::Ready => self.fetch(),
            Phase::Sounding => match self.current {
                Some(request) => if self.cancel || signal == Signal::Failed {
                    self.release()
                } else if signal == Signal::Ended {
                    self.after_end(request)
                } else {
                    (self, Command::Poll)
                },
                None => self.release(),
            },
            Phase::Pausing => match self.current {
                Some(request) => if self.cancel || signal == Signal::Failed {
                    self.release()
                } else if signal matches Signal::Waited(seconds) && seconds
                    >= request.play_interval {
                    (SpeakerState { phase: Phase::Sounding, ..self }, Command::Replay)
                } else {
                    (self, Command::Pause)
                },
                None => self.release(),
            },
        }
    }
}

/// What can happen to a speaker: producers hand over requests and stop it,
/// and its playback loop takes steps, in any order.
pub enum Event {
    /// A producer hands over a request, interrupting or not.
    Speak(Request, bool),
    /// A producer stops the speaker.
    Stop,
    /// The playback loop reports a signal and takes a step.
    Step(Signal),
}

/// The state that a speaker reaches when `events` happen to it one after
/// another, and the commands that its loop gets on the way, one for each
/// step.
pub open spec fn run(state: SpeakerState, events: Seq<Event>) -> (SpeakerState, Seq<Command>)
    decreases events.len(),
{
    if events.len() == 0 {
        (state, Seq::empty())
    } else {
        let (before, commands) = run(state, events.drop_last());
        match events.last() {
            Event::Speak(request, interrupt) => (before.speak(request, interrupt), commands),
            Event::Stop => (before.stop(), commands),
            Event::Step(signal) => {
                let (after, command) = before.step(signal);
                (after, commands.push(command))
            },
        }
    }
}

/// How often `commands` make the device sound.
pub open spec fn plays(commands: Seq<Command>) -> nat
    decreases commands.len(),
{
    if commands.len() == 0 {
        0
    } else if commands.last().plays() {
        plays(commands.drop_last()) + 1
    } else {
        plays(commands.drop_last())
    }
}

/// Whether nobody takes back what was handed over: `events` hold no stop and
/// no interrupt. Requests may arrive and the loop may step as they like.
pub open spec fn undisturbed(events: Seq<Event>) -> bool {
    forall|i: int|
        0 <= i < events.len() ==> match #[trigger] events[i] {
            Event::Speak(_, interrupt) => !interrupt,
            Event::Stop => false,
            Event::Step(_) => true,
        }
}

/// Whether the engine fails at none of the steps among `events`.
pub open spec fn unfailing(events: Seq<Event>) -> bool {
    forall|i: int| 0 <= i < events.len() ==> #[trigger] events[i] != Event::Step(Signal::Failed)
}

/// A step leads from a state that a speaker can be in to another such state.
pub proof fn lemma_step_keeps_wf(state: SpeakerState, signal: Signal)
    requires
        state.wf(),
    ensures
        state.step(signal).0.wf(),
{
    lemma_skip_silent(state.queue);
}

/// A stop and the arrival of a request lead from a state that a speaker can be
/// in to another such state.
pub proof fn lemma_speak_keeps_wf(state: SpeakerState, request: Request, interrupt: bool)
    requires
        state.wf(),
    ensures
        state.stop().wf(),
        state.enqueue(request).wf(),
        state.speak(request, interrupt).wf(),
{
}

/// What a playback loop has to do next, as the loop gets it.
#[derive(Debug, PartialEq, Eq)]
pub enum Action {
    /// Open a session for this text and play it.
    Play(String),
    /// Play the open session once more.
    Replay,
    /// Sleep one tick, then report `Ended` or `Nothing`.
    Poll,
    /// Sleep one tick, then report `Waited` with the seconds since the end.
    Pause,
    /// Close the open session.
    Release,
    /// Leave the loop: the speaker is idle.
    Exit,
}

impl View for Action {
    type V = Command;

    open spec fn view(&self) -> Command {
        match self {
            Action::Play(text) => Command::Play(text@),
            Action::Replay => Command::Replay,
            Action::Poll => Command::Poll,
            Action::Pause => Command::Pause,
            Action::Release => Command::Release,
            Action::Exit => Command::Exit,
        }
    }
}

} // verus!

//! What holds of every speaker and every registry, proved over the model.

use crate::machine::{lemma_skip_silent, lemma_speak_keeps_wf, lemma_step_keeps_wf};
use crate::machine::{plays, run, skip_silent, undisturbed, unfailing};
use crate::machine::{Command, Event, Phase, Signal, SpeakerState};
use crate::registry::{lemma_target, Directory, Dispatch};
use crate::request::Request;
use vstd::prelude::*;

verus! {

/// A single request for one play, handed to an idle speaker, starts a
/// playback loop. The loop plays the text, keeps polling while the audio
/// sounds, closes the session when the audio has ended, and then leaves the
/// speaker idle with nothing pending.
pub proof fn law_single_play_round_trip(
    state: SpeakerState,
    request: Request,
    interrupt: bool,
    first: Signal,
    quiet: Signal,
    last: Signal,
)
    requires
        state.wf(),
        state.phase == Phase::Idle,
        request.play_count == 1,
        !request.silent(),
        quiet != Signal::Ended,
        quiet != Signal::Failed,
    ensures
        ({
            let queued = state.speak(request, interrupt);
            let (sounding, play) = queued.step(first);
            let (closed, release) = sounding.step(Signal::Ended);
            let (idle, exit) = closed.step(last);
            &&& state.starts_loop()
            &&& queued.running()
            &&& play == Command::Play(request.text)
            &&& sounding.phase == Phase::Sounding
            &&& sounding.step(quiet) == (sounding, Command::Poll)
            &&& release == Command::Release
            &&& exit == Command::Exit
            &&& idle == SpeakerState::fresh(state.name)
            &&& idle.phase == Phase::Idle
            &&& idle.queue.len() == 0
        }),
{
    let queued = state.speak(request, interrupt);
    assert(state.queue =~= Seq::empty());
    assert(queued.queue =~= seq![request]);
    assert(skip_silent(queued.queue) == queued.queue);
    let (sounding, play) = queued.step(first);
    assert(sounding.queue =~= Seq::empty());
    let (closed, release) = sounding.step(Signal::Ended);
    assert(skip_silent(closed.queue) =~= Seq::empty());
}

/// A single request without text, handed to an idle speaker, starts a loop
/// that plays nothing and leaves the speaker idle at its first step.
pub proof fn law_silent_request_is_skipped(
    state: SpeakerState,
    request: Request,
    interrupt: bool,
    first: Signal,
)
    requires
        state.wf(),
        state.phase == Phase::Idle,
        request.silent(),
    ensures
        state.speak(request, interrupt).step(first) == (
            SpeakerState::fresh(state.name),
            Command::Exit,
        ),
{
    let queued = state.speak(request, interrupt);
    assert(state.queue =~= Seq::empty());
    assert(queued.queue =~= seq![request]);
    assert(queued.queue.drop_first() =~= Seq::empty());
    assert(skip_silent(queued.queue.drop_first()) =~= Seq::empty());
    assert(skip_silent(queued.queue) =~= Seq::empty());
}

/// A speaker has one playback loop at a time. A request starts a loop only
/// where it finds the speaker idle, and after it the speaker runs; a stop
/// never ends the run by itself; and a step leaves the speaker idle exactly
/// where it tells the loop to leave. So between the request that starts a
/// loop and the step that ends it no other request starts one.
pub proof fn law_one_loop_per_speaker(
    state: SpeakerState,
    request: Request,
    interrupt: bool,
    signal: Signal,
)
    requires
        state.wf(),
    ensures
        state.starts_loop() <==> !state.running(),
        state.speak(request, interrupt).running(),
        !state.speak(request, interrupt).starts_loop(),
        state.stop().running() == state.running(),
        state.step(signal).1 == Command::Exit <==> !state.step(signal).0.running(),
{
    lemma_skip_silent(state.queue);
}

/// An interrupt while the speaker runs leaves the interrupting request alone
/// in the queue and starts no second loop. The loop closes the session of the
/// request in flight at its next step, whatever it saw, and plays the
/// interrupting request at the step after that.
pub proof fn law_interrupt_plays_next(
    state: SpeakerState,
    request: Request,
    first: Signal,
    second: Signal,
)
    requires
        state.wf(),
        state.running(),
        !request.silent(),
    ensures
        ({
            let interrupted = state.speak(request, true);
            let (next, command) = interrupted.step(first);
            &&& interrupted.queue == seq![request]
            &&& !state.starts_loop()
            &&& state.in_flight() ==> {
                &&& command == Command::Release
                &&& next.step(second).1 == Command::Play(request.text)
                &&& next.step(second).0.current == Some(request)
                &&& next.step(second).0.queue.len() == 0
            }
            &&& !state.in_flight() ==> {
                &&& command == Command::Play(request.text)
                &&& next.current == Some(request)
                &&& next.queue.len() == 0
            }
        }),
{
    let interrupted = state.speak(request, true);
    assert(interrupted.queue =~= seq![request]);
    assert(skip_silent(interrupted.queue) == interrupted.queue);
    assert(interrupted.queue.drop_first() =~= Seq::empty());
}

/// A stop while the speaker runs empties the queue at once. The loop closes
/// the session of the request in flight at its next step, whatever it saw,
/// and leaves the speaker idle at the step after that; a loop between two
/// requests leaves it idle at its next step.
pub proof fn law_stop_ends_playback(state: SpeakerState, first: Signal, second: Signal)
    requires
        state.wf(),
        state.running(),
    ensures
        ({
            let stopped = state.stop();
            let (next, command) = stopped.step(first);
            &&& stopped.queue.len() == 0
            &&& state.in_flight() ==> {
                &&& command == Command::Release
                &&& next.step(second) == (SpeakerState::fresh(state.name), Command::Exit)
            }
            &&& !state.in_flight() ==> {
                &&& command == Command::Exit
                &&& next == SpeakerState::fresh(state.name)
            }
        }),
{
    let stopped = state.stop();
    assert(skip_silent(stopped.queue) =~= Seq::empty());
}

/// A stop of an idle speaker changes nothing.
pub proof fn law_stop_when_idle_changes_nothing(state: SpeakerState)
    requires
        state.phase == Phase::Idle,
    ensures
        state.stop() == state,
{
}

/// A play is repeated only when the interval of the request has passed since
/// the audio ended: at the end itself where the interval is 0, else at a step
/// that reports at least so many seconds of waiting.
pub proof fn law_replay_waits_for_interval(state: SpeakerState, signal: Signal)
    requires
        state.wf(),
        state.step(signal).1 == Command::Replay,
    ensures
        state.current is Some,
        signal == Signal::Ended ==> state.current.unwrap().play_interval == 0,
        signal != Signal::Ended ==> (signal matches Signal::Waited(seconds) && seconds
            >= state.current.unwrap().play_interval),
{
    lemma_skip_silent(state.queue);
}

/// Plays of the request in flight that are still to be commanded, while
/// nothing cancels it and the engine does not fail.
spec fn owed(state: SpeakerState, request: Request) -> int {
    if state.phase == Phase::Pausing {
        request.play_count - state.completed_repeats + 1
    } else {
        request.play_count - state.completed_repeats
    }
}

/// A run leads from a state that a speaker can be in to another such state.
pub proof fn lemma_run_keeps_wf(state: SpeakerState, events: Seq<Event>)
    requires
        state.wf(),
    ensures
        run(state, events).0.wf(),
    decreases events.len(),
{
    if events.len() > 0 {
        lemma_run_keeps_wf(state, events.drop_last());
        let before = run(state, events.drop_last()).0;
        match events.last() {
            Event::Speak(request, interrupt) => lemma_speak_keeps_wf(before, request, interrupt),
            Event::Stop => lemma_speak_keeps_wf(before, arbitrary(), false),
            Event::Step(signal) => lemma_step_keeps_wf(before, signal),
        }
    }
}

/// A request that arrives behind a request with text does not change which
/// request is taken next.
proof fn lemma_skip_silent_push(queue: Seq<Request>, request: Request)
    requires
        skip_silent(queue).len() > 0,
    ensures
        skip_silent(queue.push(request)) == skip_silent(queue).push(request),
    decreases queue.len(),
{
    if queue.len() > 0 && queue.first().silent() {
        lemma_skip_silent_push(queue.drop_first(), request);
        assert(queue.push(request).drop_first() =~= queue.drop_first().push(request));
    }
}

/// What is left of undisturbed, unfailing events without the last is so too.
proof fn lemma_drop_last_stays_calm(events: Seq<Event>)
    requires
        events.len() > 0,
    ensures
        undisturbed(events) ==> undisturbed(events.drop_last()),
        unfailing(events) ==> unfailing(events.drop_last()),
        undisturbed(events) ==> !(events.last() is Stop),
        undisturbed(events) ==> (events.last() matches Event::Speak(_, interrupt) ==> !interrupt),
        unfailing(events) ==> events.last() != Event::Step(Signal::Failed),
{
    let shorter = events.drop_last();
    assert(events.last() == events[events.len() - 1]);
    if undisturbed(events) {
        assert forall|i: int| 0 <= i < shorter.len() implies match #[trigger] shorter[i] {
            Event::Speak(_, interrupt) => !interrupt,
            Event::Stop => false,
            Event::Step(_) => true,
        } by {
            assert(shorter[i] == events[i]);
        }
    }
    if unfailing(events) {
        assert forall|i: int| 0 <= i < shorter.len() implies #[trigger] shorter[i] != Event::Step(
            Signal::Failed,
        ) by {
            assert(shorter[i] == events[i]);
        }
    }
}

/// While a counted request waits at the head of the queue it stays there,
/// and while it is in flight and has not been released it is the current
/// request, and the plays commanded so far and the plays still owed add up to
/// its count.
proof fn lemma_counted_run(state: SpeakerState, events: Seq<Event>)
    requires
        state.wf(),
        state.phase == Phase::Ready,
        skip_silent(state.queue).len() > 0,
        !skip_silent(state.queue).first().endless(),
        undisturbed(events),
        unfailing(events),
        forall|i: int|
            0 <= i < run(state, events).1.len() ==> run(state, events).1[i] != Command::Release,
    ensures
        ({
            let request = skip_silent(state.queue).first();
            let (end, commands) = run(state, events);
            &&& end.wf()
            &&& commands.len() == 0 ==> {
                &&& end.phase == Phase::Ready
                &&& skip_silent(end.queue).len() > 0
                &&& skip_silent(end.queue).first() == request
            }
            &&& commands.len() > 0 ==> {
                &&& end.in_flight()
                &&& !end.cancel
                &&& end.current == Some(request)
                &&& commands[0] == Command::Play(request.text)
                &&& plays(commands) + owed(end, request) == request.play_count
            }
        }),
    decreases events.len(),
{
    let request = skip_silent(state.queue).first();
    lemma_run_keeps_wf(state, events);
    if events.len() > 0 {
        let shorter = events.drop_last();
        let (before, earlier) = run(state, shorter);
        let (end, commands) = run(state, events);
        lemma_drop_last_stays_calm(events);
        assert forall|i: int| 0 <= i < earlier.len() implies earlier[i] != Command::Release by {
            assert(earlier[i] == commands[i]);
        }
        lemma_counted_run(state, shorter);
        match events.last() {
            Event::Speak(arrived, interrupt) => {
                if earlier.len() == 0 {
                    lemma_skip_silent_push(before.queue, arrived);
                }
            },
            Event::Stop => {},
            Event::Step(signal) => {
                assert(commands.drop_last() =~= earlier);
                assert(commands.last() != Command::Release);
                if earlier.len() == 0 {
                    lemma_skip_silent(before.queue);
                    assert(plays(earlier) == 0);
                } else {
                    assert(commands[0] == earlier[0]);
                }
            },
        }
    }
}

/// A request with a count above 0 is played exactly so many times: from the
/// step that takes it from the queue to the step that closes its session,
/// the loop is told to play it once and to replay it for the rest of the
/// count. This holds whatever the loop reports and whatever requests arrive
/// meanwhile, as long as nobody stops or interrupts and the engine does not
/// fail.
pub proof fn law_counted_request_plays_count_times(state: SpeakerState, events: Seq<Event>)
    requires
        state.wf(),
        state.phase == Phase::Ready,
        skip_silent(state.queue).len() > 0,
        !skip_silent(state.queue).first().endless(),
        undisturbed(events),
        unfailing(events),
        run(state, events).1.len() > 0,
        run(state, events).1.last() == Command::Release,
        forall|i: int|
            0 <= i < run(state, events).1.len() - 1 ==> run(state, events).1[i]
                != Command::Release,
    ensures
        run(state, events).1[0] == Command::Play(skip_silent(state.queue).first().text),
        plays(run(state, events).1) == skip_silent(state.queue).first().play_count,
    decreases events.len(),
{
    let request = skip_silent(state.queue).first();
    let shorter = events.drop_last();
    let (before, earlier) = run(state, shorter);
    let (end, commands) = run(state, events);
    lemma_drop_last_stays_calm(events);
    match events.last() {
        Event::Step(signal) => {
            assert(commands.drop_last() =~= earlier);
            assert forall|i: int| 0 <= i < earlier.len() implies earlier[i]
                != Command::Release by {
                assert(earlier[i] == commands[i]);
            }
            lemma_counted_run(state, shorter);
            if earlier.len() == 0 {
                lemma_skip_silent(before.queue);
            } else {
                assert(commands[0] == earlier[0]);
            }
        },
        _ => {
            law_counted_request_plays_count_times(state, shorter);
        },
    }
}

/// While an endless request waits at the head of the queue it stays there,
/// and once it is in flight it stays the current request.
proof fn lemma_endless_run(state: SpeakerState, events: Seq<Event>)
    requires
        state.wf(),
        state.phase == Phase::Ready,
        skip_silent(state.queue).len() > 0,
        skip_silent(state.queue).first().endless(),
        undisturbed(events),
        unfailing(events),
    ensures
        ({
            let request = skip_silent(state.queue).first();
            let (end, commands) = run(state, events);
            &&& end.wf()
            &&& commands.len() == 0 ==> {
                &&& end.phase == Phase::Ready
                &&& skip_silent(end.queue).len() > 0
                &&& skip_silent(end.queue).first() == request
            }
            &&& commands.len() > 0 ==> {
                &&& end.in_flight()
                &&& !end.cancel
                &&& end.current == Some(request)
                &&& commands[0] == Command::Play(request.text)
            }
            &&& forall|i: int|
                0 <= i < commands.len() ==> commands[i] != Command::Release && commands[i]
                    != Command::Exit
        }),
    decreases events.len(),
{
    lemma_run_keeps_wf(state, events);
    if events.len() > 0 {
        let shorter = events.drop_last();
        let (before, earlier) = run(state, shorter);
        let (end, commands) = run(state, events);
        lemma_drop_last_stays_calm(events);
        lemma_endless_run(state, shorter);
        match events.last() {
            Event::Speak(arrived, interrupt) => {
                if earlier.len() == 0 {
                    lemma_skip_silent_push(before.queue, arrived);
                }
            },
            Event::Stop => {},
            Event::Step(signal) => {
                assert(commands.drop_last() =~= earlier);
                if earlier.len() == 0 {
                    lemma_skip_silent(before.queue);
                } else {
                    assert(commands[0] == earlier[0]);
                }
                assert forall|i: int| 0 <= i < commands.len() implies commands[i]
                    != Command::Release && commands[i] != Command::Exit by {
                    if i < earlier.len() {
                        assert(commands[i] == earlier[i]);
                    }
                }
            },
        }
    }
}

/// A request with count 0 is played until somebody stops it: whatever the
/// loop reports and whatever requests arrive meanwhile, as long as nobody
/// stops or interrupts and the engine does not fail, the loop is never told
/// to close its session or to leave, and once begun the request stays the
/// current one. After a stop the very next step closes the session.
pub proof fn law_endless_request_plays_until_stopped(
    state: SpeakerState,
    events: Seq<Event>,
    after_stop: Signal,
)
    requires
        state.wf(),
        state.phase == Phase::Ready,
        skip_silent(state.queue).len() > 0,
        skip_silent(state.queue).first().endless(),
        undisturbed(events),
        unfailing(events),
    ensures
        ({
            let request = skip_silent(state.queue).first();
            let (end, commands) = run(state, events);
            &&& forall|i: int|
                0 <= i < commands.len() ==> commands[i] != Command::Release && commands[i]
                    != Command::Exit
            &&& commands.len() > 0 ==> {
                &&& commands[0] == Command::Play(request.text)
                &&& end.in_flight()
                &&& end.current == Some(request)
                &&& end.stop().step(after_stop).1 == Command::Release
            }
        }),
{
    lemma_endless_run(state, events);
}

/// Whether no request but the first began before step `j`.
spec fn none_began_between(commands: Seq<Command>, j: int) -> bool {
    forall|i: int| 0 < i < j ==> !(#[trigger] commands[i] is Play)
}

/// What holds where the loop is told, at step `j`, to begin the second of
/// two requests: the session of the first was closed at the step before, and
/// the first was played as often as its count asks for, where it has one and
/// the engine did not fail.
spec fn second_begins(
    commands: Seq<Command>,
    first: Request,
    second: Request,
    j: int,
    in_count: bool,
) -> bool {
    &&& commands[j] == Command::Play(second.text)
    &&& commands[j - 1] == Command::Release
    &&& in_count ==> plays(commands.take(j)) == first.play_count
}

/// Where a speaker stands that began with two pending requests: before the
/// first, at the first, between the two, or past the begin of the second.
spec fn two_requests_shape(
    end: SpeakerState,
    commands: Seq<Command>,
    first: Request,
    second: Request,
    in_count: bool,
) -> bool {
    ||| {
        &&& commands.len() == 0
        &&& end.phase == Phase::Ready
        &&& end.queue.len() >= 2
        &&& end.queue[0] == first
        &&& end.queue[1] == second
    }
    ||| {
        &&& commands.len() > 0
        &&& none_began_between(commands, commands.len() as int)
        &&& end.in_flight()
        &&& end.current == Some(first)
        &&& end.queue.len() >= 1
        &&& end.queue[0] == second
        &&& !end.cancel
        &&& in_count ==> plays(commands) + owed(end, first) == first.play_count
    }
    ||| {
        &&& commands.len() > 0
        &&& none_began_between(commands, commands.len() as int)
        &&& end.phase == Phase::Ready
        &&& end.queue.len() >= 1
        &&& end.queue[0] == second
        &&& commands.last() == Command::Release
        &&& in_count ==> plays(commands) == first.play_count
    }
    ||| exists|k: int| 0 < k < commands.len() && #[trigger] commands[k] is Play
}

/// The run of a speaker that began with two pending requests with text.
proof fn lemma_two_requests_run(
    start: SpeakerState,
    first: Request,
    second: Request,
    events: Seq<Event>,
)
    requires
        start.wf(),
        start.phase == Phase::Ready,
        start.queue == seq![first, second],
        !first.silent(),
        !second.silent(),
        undisturbed(events),
    ensures
        ({
            let (end, commands) = run(start, events);
            let in_count = !first.endless() && unfailing(events);
            &&& end.wf()
            &&& commands.len() > 0 ==> commands[0] == Command::Play(first.text)
            &&& two_requests_shape(end, commands, first, second, in_count)
            &&& forall|j: int|
                0 < j < commands.len() && #[trigger] commands[j] is Play && none_began_between(
                    commands,
                    j,
                ) ==> second_begins(commands, first, second, j, in_count)
        }),
    decreases events.len(),
{
    lemma_run_keeps_wf(start, events);
    let (end, commands) = run(start, events);
    let in_count = !first.endless() && unfailing(events);
    if events.len() == 0 {
        assert(two_requests_shape(end, commands, first, second, in_count));
    } else {
        let shorter = events.drop_last();
        let (before, earlier) = run(start, shorter);
        let was_in_count = !first.endless() && unfailing(shorter);
        lemma_drop_last_stays_calm(events);
        lemma_two_requests_run(start, first, second, shorter);
        match events.last() {
            Event::Speak(arrived, interrupt) => {
                assert(end.queue == before.queue.push(arrived));
                if before.queue.len() >= 1 {
                    assert(end.queue[0] == before.queue[0]);
                }
                if before.queue.len() >= 2 {
                    assert(end.queue[1] == before.queue[1]);
                }
                assert(two_requests_shape(end, commands, first, second, in_count));
                assert forall|j: int|
                    0 < j < commands.len() && #[trigger] commands[j] is Play && none_began_between(
                        commands,
                        j,
                    ) implies second_begins(commands, first, second, j, in_count) by {
                    assert(second_begins(earlier, first, second, j, was_in_count));
                }
            },
            Event::Stop => {},
            Event::Step(signal) => {
                let n = commands.len() as int;
                assert(commands.drop_last() =~= earlier);
                assert(commands.take(n - 1) =~= earlier);
                if earlier.len() > 0 {
                    assert(commands[0] == earlier[0]);
                }
                assert forall|j: int|
                    0 < j < n - 1 && #[trigger] commands[j] is Play && none_began_between(
                        commands,
                        j,
                    ) implies second_begins(commands, first, second, j, in_count) by {
                    assert(commands[j] == earlier[j]);
                    assert(commands[j - 1] == earlier[j - 1]);
                    assert(commands.take(j) =~= earlier.take(j));
                    assert forall|i: int| 0 < i < j implies !(#[trigger] earlier[i] is Play) by {
                        assert(earlier[i] == commands[i]);
                    }
                    assert(second_begins(earlier, first, second, j, was_in_count));
                }
                if exists|k: int| 0 < k < earlier.len() && #[trigger] earlier[k] is Play {
                    let k = choose|k: int| 0 < k < earlier.len() && #[trigger] earlier[k] is Play;
                    assert(commands[k] is Play);
                    assert(!none_began_between(commands, n - 1));
                    assert(two_requests_shape(end, commands, first, second, in_count));
                } else if earlier.len() == 0 {
                    assert(before.queue.first() == first);
                    assert(skip_silent(before.queue) == before.queue);
                    assert(before.queue.drop_first()[0] == second);
                    assert(plays(earlier) == 0);
                    assert(none_began_between(commands, n));
                    assert(two_requests_shape(end, commands, first, second, in_count));
                } else if before.phase == Phase::Ready {
                    assert(before.queue.first() == second);
                    assert(skip_silent(before.queue) == before.queue);
                    assert(commands[n - 1] == Command::Play(second.text));
                    assert(commands[n - 2] == earlier.last());
                    assert(second_begins(commands, first, second, n - 1, in_count));
                    assert(two_requests_shape(end, commands, first, second, in_count));
                } else {
                    assert(before.in_flight());
                    assert(!(commands[n - 1] is Play));
                    assert forall|i: int| 0 < i < n implies !(#[trigger] commands[i] is Play) by {
                        if i < n - 1 {
                            assert(commands[i] == earlier[i]);
                        }
                    }
                    assert(two_requests_shape(end, commands, first, second, in_count));
                }
            },
        }
    }
}

/// Two requests with text, handed to an idle speaker one after the other, are
/// played in that order and never interleaved, whatever the loop reports and
/// whatever requests arrive later, as long as nobody stops or interrupts.
/// The first request begins at the first step. The next request to begin is
/// the second; the session of the first was closed at the step before; and,
/// if the first has a count and the engine did not fail, the first was played
/// as often as its count asks for.
pub proof fn law_requests_play_in_order(
    state: SpeakerState,
    first: Request,
    second: Request,
    events: Seq<Event>,
    j: int,
)
    requires
        state.wf(),
        state.phase == Phase::Idle,
        !first.silent(),
        !second.silent(),
        undisturbed(events),
        0 < j < run(state.speak(first, false).speak(second, false), events).1.len(),
        run(state.speak(first, false).speak(second, false), events).1[j] is Play,
        forall|i: int|
            0 < i < j ==> !(#[trigger] run(
                state.speak(first, false).speak(second, false),
                events,
            ).1[i] is Play),
    ensures
        ({
            let queued = state.speak(first, false).speak(second, false);
            let commands = run(queued, events).1;
            &&& state.starts_loop()
            &&& !state.speak(first, false).starts_loop()
            &&& queued.queue == seq![first, second]
            &&& commands[0] == Command::Play(first.text)
            &&& commands[j] == Command::Play(second.text)
            &&& commands[j - 1] == Command::Release
            &&& !first.endless() && unfailing(events) ==> plays(commands.take(j))
                == first.play_count
        }),
{
    let queued = state.speak(first, false).speak(second, false);
    assert(state.queue =~= Seq::empty());
    assert(queued.queue =~= seq![first, second]);
    lemma_speak_keeps_wf(state, first, false);
    lemma_speak_keeps_wf(state.speak(first, false), second, false);
    lemma_two_requests_run(queued, first, second, events);
    let commands = run(queued, events).1;
    assert(none_began_between(commands, j));
}

/// Before any enumeration the registry knows no device; after one it knows
/// the devices it knew before and every device that was reported, in the
/// order of the report, the default device among them where it was reported.
pub proof fn law_devices_after_init(
    directory: Directory,
    devices: Seq<Seq<char>>,
    default_device: Option<Seq<char>>,
)
    ensures
        Directory::empty().names() == Seq::<Seq<char>>::empty(),
        directory.init(devices, default_device).names() == directory.names() + devices,
        forall|i: int|
            0 <= i < devices.len() ==> directory.init(devices, default_device).knows(
                #[trigger] devices[i],
            ),
        default_device matches Some(name) ==> {
            &&& directory.init(devices, default_device).default_device == Some(name)
            &&& devices.contains(name) ==> directory.init(devices, default_device).knows(name)
        },
{
    let after = directory.init(devices, default_device);
    assert(Directory::empty().names() =~= Seq::<Seq<char>>::empty());
    assert(after.names() =~= directory.names() + devices);
    assert forall|i: int| 0 <= i < devices.len() implies after.knows(#[trigger] devices[i]) by {
        assert(after.speakers[directory.speakers.len() + i].name == devices[i]);
    }
}

/// A request, a stop and a step of a loop touch one speaker: every other
/// speaker of the registry stays exactly as it is.
pub proof fn law_speakers_are_independent(
    directory: Directory,
    request: Request,
    interrupt: bool,
    name: Seq<char>,
    index: int,
    signal: Signal,
    other: int,
)
    requires
        0 <= other < directory.speakers.len(),
    ensures
        directory.target(request.device_name) != Some(other) ==> directory.execute(
            request,
            interrupt,
        ).speakers[other] == directory.speakers[other],
        directory.target(name) != Some(other) ==> directory.stop(name).speakers[other]
            == directory.speakers[other],
        index != other ==> directory.advance(index, signal).0.speakers[other]
            == directory.speakers[other],
        directory.execute(request, interrupt).speakers.len() == directory.speakers.len(),
        directory.stop(name).speakers.len() == directory.speakers.len(),
        directory.advance(index, signal).0.speakers.len() == directory.speakers.len(),
{
    lemma_target(directory, request.device_name);
    lemma_target(directory, name);
}

/// A request for a device that the registry knows reaches the first speaker
/// of that name, and the caller is told to start a loop exactly if that
/// speaker was idle; a request for an unknown device changes nothing.
pub proof fn law_dispatch(directory: Directory, request: Request, interrupt: bool)
    ensures
        directory.knows(request.device_name) <==> directory.dispatch(request)
            != Dispatch::UnknownDevice,
        !directory.knows(request.device_name) ==> directory.execute(request, interrupt)
            == directory,
        forall|i: int|
            directory.serves(i, request.device_name) ==> {
                &&& directory.execute(request, interrupt).speakers[i] == directory.speakers[i].speak(
                    request,
                    interrupt,
                )
                &&& directory.speakers[i].phase == Phase::Idle ==> directory.dispatch(request)
                    == Dispatch::Start(i as usize)
                &&& directory.speakers[i].phase != Phase::Idle ==> directory.dispatch(request)
                    == Dispatch::Queued(i as usize)
            },
{
    lemma_target(directory, request.device_name);
}

} // verus!

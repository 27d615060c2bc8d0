//! The speaker: the scheduler of one device.

use crate::machine::{lemma_step_keeps_wf, skip_silent};
use crate::machine::{Action, Command, Phase, Signal, SpeakerState};
use crate::queue::PlaybackQueue;
use crate::request::{Request, SoundValue};
use vstd::prelude::*;
use vstd::string::StringExecFns;

verus! {

/// The scheduler of one device: its pending requests, the request it plays,
/// and where its playback loop stands.
#[derive(Debug)]
pub struct Speaker {
    name: String,
    queue: PlaybackQueue,
    phase: Phase,
    cancel: bool,
    completed_repeats: u64,
    current: Option<SoundValue>,
}

impl View for Speaker {
    type V = SpeakerState;

    closed spec fn view(&self) -> SpeakerState {
        SpeakerState {
            name: self.name@,
            queue: self.queue@,
            phase: self.phase,
            cancel: self.cancel,
            completed_repeats: self.completed_repeats,
            current: match self.current {
                Some(value) => Some(value@),
                None => None,
            },
        }
    }
}

impl Speaker {
    /// The speaker of the device `name`: idle, with nothing pending.
    pub fn new(name: String) -> (speaker: Speaker)
        ensures
            speaker@ == SpeakerState::fresh(name@),
            speaker@.wf(),
    {
        Speaker {
            name,
            queue: PlaybackQueue::new(),
            phase: Phase::Idle,
            cancel: false,
            completed_repeats: 0,
            current: None,
        }
    }

    /// Takes `value` into the queue, after a stop if `interrupt` is set.
    ///
    /// Returns whether the caller has to start the playback loop: only the
    /// call that finds the speaker idle is told so.
    pub fn speak(&mut self, value: SoundValue, interrupt: bool) -> (start: bool)
        ensures
            final(self)@ == old(self)@.speak(value@, interrupt),
            start == old(self)@.starts_loop(),
            old(self)@.wf() ==> final(self)@.wf(),
    {
        if interrupt {
            self.stop();
        }
        self.queue.push(value);
        match self.phase {
            Phase::Idle => {
                self.phase = Phase::Ready;
                true
            },
            _ => false,
        }
    }

    /// Drops what is pending and cancels the current request, if the speaker
    /// runs; does nothing if it is idle.
    pub fn stop(&mut self)
        ensures
            final(self)@ == old(self)@.stop(),
            old(self)@.wf() ==> final(self)@.wf(),
    {
        match self.phase {
            Phase::Idle => {},
            _ => {
                self.queue.clear();
                self.cancel = true;
            },
        }
    }

    /// One step of the playback loop: takes what the loop saw, moves the
    /// speaker on and says what the loop has to do next.
    pub fn step(&mut self, signal: Signal) -> (action: Action)
        ensures
            final(self)@ == old(self)@.step(signal).0,
            action@ == old(self)@.step(signal).1,
            old(self)@.wf() ==> final(self)@.wf(),
    {
        proof {
            if self@.wf() {
                lemma_step_keeps_wf(self@, signal);
            }
        }
        match self.phase {
            Phase::Idle => Action::Exit,
            Phase::Ready => self.fetch(),
            Phase::Sounding => {
                let (play_count, play_interval) = match &self.current {
                    Some(value) => (value.play_count(), value.play_interval()),
                    None => {
                        return self.release();
                    },
                };
                if self.cancel {
                    return self.release();
                }
                match signal {
                    Signal::Failed => self.release(),
                    Signal::Ended => {
                        if play_count == 0 {
                            self.replay_or_pause(play_interval)
                        } else if self.completed_repeats < play_count {
                            self.completed_repeats = self.completed_repeats + 1;
                            self.replay_or_pause(play_interval)
                        } else {
                            self.release()
                        }
                    },
                    _ => Action::Poll,
                }
            },
            Phase::Pausing => {
                let play_interval = match &self.current {
                    Some(value) => value.play_interval(),
                    None => {
                        return self.release();
                    },
                };
                if self.cancel {
                    return self.release();
                }
                match signal {
                    Signal::Failed => self.release(),
                    Signal::Waited(seconds) => {
                        if seconds >= play_interval {
                            self.phase = Phase::Sounding;
                            Action::Replay
                        } else {
                            Action::Pause
                        }
                    },
                    _ => Action::Pause,
                }
            },
        }
    }

    /// Starts the next play at once, or the pause before it.
    fn replay_or_pause(&mut self, play_interval: u64) -> (action: Action)
        ensures
            final(self)@ == (SpeakerState {
                phase: if play_interval == 0 {
                    Phase::Sounding
                } else {
                    Phase::Pausing
                },
                ..old(self)@
            }),
            action@ == if play_interval == 0 {
                Command::Replay
            } else {
                Command::Pause
            },
    {
        if play_interval == 0 {
            self.phase = Phase::Sounding;
            Action::Replay
        } else {
            self.phase = Phase::Pausing;
            Action::Pause
        }
    }

    /// Ends the current request.
    fn release(&mut self) -> (action: Action)
        ensures
            final(self)@ == old(self)@.release().0,
            action@ == old(self)@.release().1,
    {
        self.phase = Phase::Ready;
        self.cancel = false;
        self.completed_repeats = 0;
        self.current = None;
        Action::Release
    }

    /// Takes the oldest pending request that has text and begins to play it,
    /// or goes idle when there is none.
    fn fetch(&mut self) -> (action: Action)
        ensures
            final(self)@ == old(self)@.fetch().0,
            action@ == old(self)@.fetch().1,
    {
        self.cancel = false;
        self.completed_repeats = 0;
        self.current = None;
        loop
            invariant
                self.name == old(self).name,
                !self.cancel,
                self.completed_repeats == 0,
                self.current is None,
                skip_silent(self.queue@) == skip_silent(old(self).queue@),
            decreases self.queue@.len(),
        {
            match self.queue.pop() {
                None => {
                    self.phase = Phase::Idle;
                    assert(self@.queue =~= Seq::<Request>::empty());
                    return Action::Exit;
                },
                Some(value) => {
                    if !value.is_silent() {
                        let text = String::from_str(value.text());
                        if value.play_count() > 0 {
                            self.completed_repeats = 1;
                        }
                        self.current = Some(value);
                        self.phase = Phase::Sounding;
                        return Action::Play(text);
                    }
                },
            }
        }
    }

    /// Name of the device that the speaker serves.
    pub fn name(&self) -> (name: &str)
        ensures
            name@ == self@.name,
    {
        self.name.as_str()
    }

    /// Whether the speaker serves the device `name`.
    pub fn is_named(&self, name: &String) -> (named: bool)
        ensures
            named == (self@.name == name@),
    {
        self.name == *name
    }

    /// Whether a playback loop runs for this speaker.
    pub fn is_playing(&self) -> (playing: bool)
        ensures
            playing == self@.running(),
    {
        match self.phase {
            Phase::Idle => false,
            _ => true,
        }
    }

    /// Where the speaker stands.
    pub fn phase(&self) -> (phase: Phase)
        ensures
            phase == self@.phase,
    {
        self.phase
    }

    /// Number of requests that wait behind the current one.
    pub fn pending(&self) -> (pending: usize)
        ensures
            pending == self@.queue.len(),
    {
        self.queue.len()
    }

    /// Whether a stop waits to be noticed by the loop.
    pub fn is_cancelled(&self) -> (cancelled: bool)
        ensures
            cancelled == self@.cancel,
    {
        self.cancel
    }

    /// Plays of the current request begun or due; 0 for an endless one.
    pub fn completed_repeats(&self) -> (completed: u64)
        ensures
            completed == self@.completed_repeats,
    {
        self.completed_repeats
    }
}

} // verus!

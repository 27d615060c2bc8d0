//! The registry: every speaker of the machine, found by the name of its device.

use crate::machine::{lemma_speak_keeps_wf, lemma_step_keeps_wf};
use crate::machine::{Action, Command, Signal, SpeakerState};
use crate::request::{Request, SoundValue};
use crate::speaker::Speaker;
use vstd::prelude::*;
use vstd::string::StringExecFns;

verus! {

/// What became of a request that was handed to the registry.
#[derive(Clone, Copy, Debug, PartialEq, Eq, Structural)]
pub enum Dispatch {
    /// No speaker serves the device named in the request; nothing changed.
    UnknownDevice,
    /// The speaker at this index took the request; its loop runs already.
    Queued(usize),
    /// The speaker at this index took the request and was idle: the caller
    /// has to start its playback loop.
    Start(usize),
}

/// What a [`SoundTTs`] stands for in contracts.
pub struct Directory {
    /// The speakers, in the order in which their devices were reported.
    pub speakers: Seq<SpeakerState>,
    /// Name of the system's default device, once one was reported.
    pub default_device: Option<Seq<char>>,
}

impl Directory {
    /// The registry before any device was reported.
    pub open spec fn empty() -> Self {
        Directory { speakers: Seq::empty(), default_device: None }
    }

    /// The device names, in the order of the speakers.
    pub open spec fn names(self) -> Seq<Seq<char>> {
        self.speakers.map_values(|speaker: SpeakerState| speaker.name)
    }

    /// Every speaker is in a state that a speaker can be in.
    pub open spec fn wf(self) -> bool {
        forall|i: int| 0 <= i < self.speakers.len() ==> (#[trigger] self.speakers[i]).wf()
    }

    /// Whether some speaker serves the device `name`.
    pub open spec fn knows(self, name: Seq<char>) -> bool {
        exists|i: int| 0 <= i < self.speakers.len() && (#[trigger] self.speakers[i]).name == name
    }

    /// Whether the speaker at `index` is the one that serves `name`: the
    /// first of that name.
    pub open spec fn serves(self, index: int, name: Seq<char>) -> bool {
        &&& 0 <= index < self.speakers.len()
        &&& self.speakers[index].name == name
        &&& forall|j: int| 0 <= j < index ==> (#[trigger] self.speakers[j]).name != name
    }

    /// Index of the speaker that serves `name`, if there is one.
    pub open spec fn target(self, name: Seq<char>) -> Option<int> {
        if exists|i: int| self.serves(i, name) {
            Some(choose|i: int| self.serves(i, name))
        } else {
            None
        }
    }

    /// The devices of one enumeration join the registry: one idle speaker
    /// for each, behind those that are there, and the default device is noted
    /// if one was reported.
    pub open spec fn init(self, devices: Seq<Seq<char>>, default_device: Option<Seq<char>>) -> Self {
        Directory {
            speakers: self.speakers + devices.map_values(|name: Seq<char>| SpeakerState::fresh(name)),
            default_device: match default_device {
                Some(name) => Some(name),
                None => self.default_device,
            },
        }
    }

    /// A request goes to the speaker that serves its device; without such a
    /// speaker nothing happens.
    pub open spec fn execute(self, request: Request, interrupt: bool) -> Self {
        match self.target(request.device_name) {
            Some(i) => Directory {
                speakers: self.speakers.update(i, self.speakers[i].speak(request, interrupt)),
                ..self
            },
            None => self,
        }
    }

    /// What the caller of `execute` is told.
    pub open spec fn dispatch(self, request: Request) -> Dispatch {
        match self.target(request.device_name) {
            Some(i) => if self.speakers[i].starts_loop() {
                Dispatch::Start(i as usize)
            } else {
                Dispatch::Queued(i as usize)
            },
            None => Dispatch::UnknownDevice,
        }
    }

    /// The speaker that serves `name` is stopped; without such a speaker
    /// nothing happens.
    pub open spec fn stop(self, name: Seq<char>) -> Self {
        match self.target(name) {
            Some(i) => Directory { speakers: self.speakers.update(i, self.speakers[i].stop()), ..self },
            None => self,
        }
    }

    /// The playback loop of the speaker at `index` takes one step; an index
    /// without a speaker ends the loop.
    pub open spec fn advance(self, index: int, signal: Signal) -> (Self, Command) {
        if 0 <= index < self.speakers.len() {
            let (speaker, command) = self.speakers[index].step(signal);
            (Directory { speakers: self.speakers.update(index, speaker), ..self }, command)
        } else {
            (self, Command::Exit)
        }
    }
}

/// At most one index serves a name, and `target` is that index.
pub proof fn lemma_target(directory: Directory, name: Seq<char>)
    ensures
        directory.knows(name) <==> directory.target(name) is Some,
        forall|i: int| directory.serves(i, name) <==> directory.target(name) == Some(i),
{
    assert forall|i: int, j: int| directory.serves(i, name) && directory.serves(j, name) implies i
        == j by {
        if i < j {
            assert(directory.speakers[i].name == name);
        }
        if j < i {
            assert(directory.speakers[j].name == name);
        }
    }
    if directory.knows(name) {
        let k = choose|i: int|
            0 <= i < directory.speakers.len() && (#[trigger] directory.speakers[i]).name == name;
        lemma_first_named(directory, name, k);
    }
    if directory.target(name) is Some {
        let i = choose|i: int| directory.serves(i, name);
        assert(directory.speakers[i].name == name);
    }
}

/// Below every speaker of a name stands the first of that name.
proof fn lemma_first_named(directory: Directory, name: Seq<char>, k: int)
    requires
        0 <= k < directory.speakers.len(),
        directory.speakers[k].name == name,
    ensures
        exists|i: int| directory.serves(i, name),
    decreases k,
{
    if exists|j: int| 0 <= j < k && (#[trigger] directory.speakers[j]).name == name {
        let j = choose|j: int| 0 <= j < k && (#[trigger] directory.speakers[j]).name == name;
        lemma_first_named(directory, name, j);
    } else {
        assert(directory.serves(k, name));
    }
}

/// Every speaker of the machine, found by the name of its device, and the
/// name of the default device.
#[derive(Debug)]
pub struct SoundTTs {
    speakers: Vec<Speaker>,
    default_device: Option<String>,
}

impl View for SoundTTs {
    type V = Directory;

    closed spec fn view(&self) -> Directory {
        Directory {
            speakers: self.speakers@.map_values(|speaker: Speaker| speaker@),
            default_device: match self.default_device {
                Some(name) => Some(name@),
                None => None,
            },
        }
    }
}

impl SoundTTs {
    /// A registry that knows no device yet.
    pub fn new() -> (registry: Self)
        ensures
            registry@ == Directory::empty(),
            registry@.wf(),
    {
        let registry = SoundTTs { speakers: Vec::new(), default_device: None };
        assert(registry@.speakers =~= Seq::empty());
        registry
    }

    /// Takes in what an enumeration reported: one idle speaker for each
    /// device name, behind those that are there already, and the name of the
    /// default device if there is one. A name that is there already gets a
    /// second speaker, which no request will reach.
    pub fn init(&mut self, devices: Vec<String>, default_device: Option<String>)
        ensures
            final(self)@ == old(self)@.init(
                devices@.map_values(|name: String| name@),
                match default_device {
                    Some(name) => Some(name@),
                    None => None,
                },
            ),
            old(self)@.wf() ==> final(self)@.wf(),
    {
        let ghost names = devices@.map_values(|name: String| name@);
        let ghost fresh = names.map_values(|name: Seq<char>| SpeakerState::fresh(name));
        let mut i: usize = 0;
        while i < devices.len()
            invariant
                i <= devices.len(),
                names == devices@.map_values(|name: String| name@),
                fresh == names.map_values(|name: Seq<char>| SpeakerState::fresh(name)),
                self.default_device == old(self).default_device,
                self@.speakers == old(self)@.speakers + fresh.take(i as int),
                old(self)@.wf() ==> self@.wf(),
            decreases devices.len() - i,
        {
            let ghost before = self@.speakers;
            let speaker = Speaker::new(devices[i].clone());
            let ghost added = speaker@;
            self.speakers.push(speaker);
            proof {
                assert(names[i as int] == devices@[i as int]@);
                assert(added == fresh[i as int]);
                assert(self@.speakers =~= before.push(added));
                assert(fresh.take(i + 1) =~= fresh.take(i as int).push(added));
            }
            i = i + 1;
        }
        assert(fresh.take(i as int) =~= fresh);
        if let Some(name) = default_device {
            self.default_device = Some(name);
        }
    }

    /// The names of the known devices, in the order in which they were
    /// reported.
    pub fn get_devices(&self) -> (names: Vec<String>)
        ensures
            names@.map_values(|name: String| name@) == self@.names(),
    {
        let mut names: Vec<String> = Vec::new();
        let mut i: usize = 0;
        while i < self.speakers.len()
            invariant
                i <= self.speakers.len(),
                names@.map_values(|name: String| name@) == self@.names().take(i as int),
            decreases self.speakers.len() - i,
        {
            let ghost before = names@.map_values(|name: String| name@);
            let name = String::from_str(self.speakers[i].name());
            let ghost added = name@;
            names.push(name);
            proof {
                assert(added == self@.names()[i as int]);
                assert(names@.map_values(|name: String| name@) =~= before.push(added));
                assert(self@.names().take(i + 1) =~= self@.names().take(i as int).push(added));
            }
            i = i + 1;
        }
        assert(self@.names().take(i as int) =~= self@.names());
        names
    }

    /// Whether a device of this name is known.
    pub fn device_is_exist(&self, device_name: &str) -> (exist: bool)
        ensures
            exist == self@.knows(device_name@),
            exist == self@.names().contains(device_name@),
    {
        proof {
            lemma_target(self@, device_name@);
            if self@.knows(device_name@) {
                let i = choose|i: int|
                    0 <= i < self@.speakers.len() && (#[trigger] self@.speakers[i]).name
                        == device_name@;
                assert(self@.names()[i] == device_name@);
            }
            if self@.names().contains(device_name@) {
                let i = choose|i: int|
                    0 <= i < self@.names().len() && self@.names()[i] == device_name@;
                assert(self@.speakers[i].name == device_name@);
            }
        }
        self.find(device_name).is_some()
    }

    /// Index of the speaker that serves `device_name`: the first of that
    /// name.
    pub fn find(&self, device_name: &str) -> (found: Option<usize>)
        ensures
            match found {
                Some(i) => self@.target(device_name@) == Some(i as int),
                None => self@.target(device_name@) is None,
            },
    {
        let wanted = String::from_str(device_name);
        let mut i: usize = 0;
        proof {
            lemma_target(self@, device_name@);
        }
        while i < self.speakers.len()
            invariant
                i <= self.speakers.len(),
                wanted@ == device_name@,
                forall|j: int| 0 <= j < i ==> (#[trigger] self@.speakers[j]).name != device_name@,
                forall|k: int| self@.serves(k, device_name@) <==> self@.target(device_name@) == Some(k),
            decreases self.speakers.len() - i,
        {
            if self.speakers[i].is_named(&wanted) {
                assert(self@.serves(i as int, device_name@));
                return Some(i);
            }
            i = i + 1;
        }
        proof {
            if self@.target(device_name@) is Some {
                let k = self@.target(device_name@).unwrap();
                assert(self@.serves(k, device_name@));
            }
        }
        None
    }

    /// Hands `value` to the speaker of its device, to be played when what
    /// is pending there has been played.
    pub fn speak(&mut self, value: SoundValue) -> (outcome: Dispatch)
        ensures
            final(self)@ == old(self)@.execute(value@, false),
            outcome == old(self)@.dispatch(value@),
            old(self)@.wf() ==> final(self)@.wf(),
    {
        self.execute(value, false)
    }

    /// Hands `value` to the speaker of its device, to be played in place of
    /// what is pending and playing there.
    pub fn speak_interrupt(&mut self, value: SoundValue) -> (outcome: Dispatch)
        ensures
            final(self)@ == old(self)@.execute(value@, true),
            outcome == old(self)@.dispatch(value@),
            old(self)@.wf() ==> final(self)@.wf(),
    {
        self.execute(value, true)
    }

    /// Hands `value` to the speaker of its device, after a stop of that
    /// speaker if `interrupt` is set, and says whether the caller has to
    /// start that speaker's playback loop. A request for an unknown device
    /// is dropped.
    pub fn execute(&mut self, value: SoundValue, interrupt: bool) -> (outcome: Dispatch)
        ensures
            final(self)@ == old(self)@.execute(value@, interrupt),
            outcome == old(self)@.dispatch(value@),
            old(self)@.wf() ==> final(self)@.wf(),
    {
        match self.find(value.device_name()) {
            Some(i) => {
                proof {
                    if self@.wf() {
                        lemma_speak_keeps_wf(self@.speakers[i as int], value@, interrupt);
                    }
                }
                let start = self.speakers[i].speak(value, interrupt);
                assert(self@.speakers =~= old(self)@.speakers.update(
                    i as int,
                    old(self)@.speakers[i as int].speak(value@, interrupt),
                ));
                if start {
                    Dispatch::Start(i)
                } else {
                    Dispatch::Queued(i)
                }
            },
            None => Dispatch::UnknownDevice,
        }
    }

    /// Stops the speaker of `device`: what is pending there is dropped, and
    /// its loop ends the current request at its next step. Nothing happens if
    /// the device is unknown or its speaker idle.
    pub fn stop(&mut self, device: &str)
        ensures
            final(self)@ == old(self)@.stop(device@),
            old(self)@.wf() ==> final(self)@.wf(),
    {
        match self.find(device) {
            Some(i) => {
                proof {
                    if self@.wf() {
                        lemma_speak_keeps_wf(self@.speakers[i as int], arbitrary(), false);
                    }
                }
                self.speakers[i].stop();
                assert(self@.speakers =~= old(self)@.speakers.update(
                    i as int,
                    old(self)@.speakers[i as int].stop(),
                ));
            },
            None => {},
        }
    }

    /// One step of the playback loop of the speaker at `index`: takes what
    /// the loop saw and says what it has to do next.
    pub fn advance(&mut self, index: usize, signal: Signal) -> (action: Action)
        ensures
            final(self)@ == old(self)@.advance(index as int, signal).0,
            action@ == old(self)@.advance(index as int, signal).1,
            old(self)@.wf() ==> final(self)@.wf(),
    {
        if index < self.speakers.len() {
            let action = self.speakers[index].step(signal);
            assert(self@.speakers =~= old(self)@.speakers.update(
                index as int,
                old(self)@.speakers[index as int].step(signal).0,
            ));
            action
        } else {
            Action::Exit
        }
    }

    /// Whether a playback loop runs for `device`.
    pub fn is_playing(&self, device: &str) -> (playing: bool)
        ensures
            playing == match self@.target(device@) {
                Some(i) => self@.speakers[i].running(),
                None => false,
            },
    {
        match self.find(device) {
            Some(i) => self.speakers[i].is_playing(),
            None => false,
        }
    }

    /// Name of the system's default device, once one was reported.
    pub fn default_device(&self) -> (name: Option<String>)
        ensures
            match name {
                Some(name) => self@.default_device == Some(name@),
                None => self@.default_device is None,
            },
    {
        match &self.default_device {
            Some(name) => Some(name.clone()),
            None => None,
        }
    }

    /// Number of speakers.
    pub fn len(&self) -> (len: usize)
        ensures
            len == self@.speakers.len(),
    {
        self.speakers.len()
    }

    /// The speaker at `index`, if there is one.
    pub fn speaker(&self, index: usize) -> (speaker: Option<&Speaker>)
        ensures
            match speaker {
                Some(speaker) => index < self@.speakers.len() && speaker@ == self@.speakers[index as int],
                None => index >= self@.speakers.len(),
            },
    {
        if index < self.speakers.len() {
            Some(&self.speakers[index])
        } else {
            None
        }
    }
}

} // verus!

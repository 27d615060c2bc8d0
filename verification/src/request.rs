//! The sound request: one utterance, its target device and its repeat policy.

use vstd::prelude::*;
use vstd::string::StringExecFns;

verus! {

/// What a [`SoundValue`] stands for in contracts.
pub struct Request {
    /// Name of the device that should play the utterance.
    pub device_name: Seq<char>,
    /// The text to speak.
    pub text: Seq<char>,
    /// How often the text is played in total; `0` stands for "until stopped".
    pub play_count: u64,
    /// Whole seconds between the end of one play and the start of the next.
    pub play_interval: u64,
}

impl Request {
    /// A request with count `0` never finishes on its own.
    pub open spec fn endless(self) -> bool {
        self.play_count == 0
    }

    /// A request without text is dropped unplayed.
    pub open spec fn silent(self) -> bool {
        self.text.len() == 0
    }
}

/// One unit of work for a speaker. Immutable once built.
#[derive(Debug)]
pub struct SoundValue {
    device_name: String,
    str: String,
    play_count: u64,
    play_interval: u64,
}

impl View for SoundValue {
    type V = Request;

    closed spec fn view(&self) -> Request {
        Request {
            device_name: self.device_name@,
            text: self.str@,
            play_count: self.play_count,
            play_interval: self.play_interval,
        }
    }
}

impl SoundValue {
    /// A request that plays `str` once on the system's default device, or on
    /// the device with the empty name where the system reported none.
    pub fn default(str: &str, default_device: Option<String>) -> (value: Self)
        ensures
            value@ == (Request {
                device_name: match default_device {
                    Some(name) => name@,
                    None => Seq::<char>::empty(),
                },
                text: str@,
                play_count: 1,
                play_interval: 0,
            }),
    {
        Self {
            str: String::from_str(str),
            play_count: 1,
            play_interval: 0,
            device_name: match default_device {
                Some(name) => name,
                None => String::new(),
            },
        }
    }

    /// A request that plays `str` once on `device_name`.
    pub fn create(str: &str, device_name: &str) -> (value: Self)
        ensures
            value@ == (Request {
                device_name: device_name@,
                text: str@,
                play_count: 1,
                play_interval: 0,
            }),
    {
        Self {
            str: String::from_str(str),
            play_count: 1,
            play_interval: 0,
            device_name: String::from_str(device_name),
        }
    }

    /// A request that plays `str` on `device_name`, `play_count` times with
    /// `play_interval` seconds between two plays; forever if `play_count` is 0.
    pub fn new(str: &str, play_count: u64, play_interval: u64, device_name: &str) -> (value: Self)
        ensures
            value@ == (Request { device_name: device_name@, text: str@, play_count, play_interval }),
    {
        Self {
            str: String::from_str(str),
            play_count,
            play_interval,
            device_name: String::from_str(device_name),
        }
    }

    /// Name of the device that the request is meant for.
    pub fn device_name(&self) -> (name: &str)
        ensures
            name@ == self@.device_name,
    {
        self.device_name.as_str()
    }

    /// The text to speak.
    pub fn text(&self) -> (text: &str)
        ensures
            text@ == self@.text,
    {
        self.str.as_str()
    }

    /// Total number of plays asked for; `0` means "until stopped".
    pub fn play_count(&self) -> (count: u64)
        ensures
            count == self@.play_count,
    {
        self.play_count
    }

    /// Seconds between two plays of this request.
    pub fn play_interval(&self) -> (interval: u64)
        ensures
            interval == self@.play_interval,
    {
        self.play_interval
    }

    /// Whether the request has no text, and so nothing to play.
    pub fn is_silent(&self) -> (silent: bool)
        ensures
            silent == self@.silent(),
    {
        self.str.as_str().is_empty()
    }
}

impl From<SoundValue> for String {
    /// Gives up the request for its text.
    fn from(value: SoundValue) -> (text: String)
        ensures
            text@ == value@.text,
    {
        value.str
    }
}

impl vstd::std_specs::convert::FromSpecImpl<SoundValue> for String {
    open spec fn obeys_from_spec() -> bool {
        true
    }

    closed spec fn from_spec(value: SoundValue) -> String {
        value.str
    }
}

} // verus!

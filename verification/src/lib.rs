//! A per-device, ordered, cancellable scheduler for spoken text.
//!
//! The crate holds the decisions of the scheduler as plain state machines:
//! which request a device plays next, when a request is replayed, and what an
//! interrupt or a stop does to the pending work. Talking to the speech engine,
//! sleeping and threading are left to the caller, who feeds the machine with
//! what it observed and carries out the action it gets back.

pub mod laws;
pub mod machine;
pub mod queue;
pub mod registry;
pub mod request;
pub mod speaker;

pub use machine::{Action, Command, Phase, Signal, SpeakerState, POLL_INTERVAL_MS};
pub use queue::PlaybackQueue;
pub use registry::{Directory, Dispatch, SoundTTs};
pub use request::{Request, SoundValue};
pub use speaker::Speaker;

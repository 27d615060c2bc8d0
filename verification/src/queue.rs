//! The playback queue: the pending requests of one device, oldest first.

use crate::request::{Request, SoundValue};
use std::collections::VecDeque;
use vstd::prelude::*;

verus! {

/// Pending requests of one device, in the order in which they arrived.
#[derive(Debug)]
pub struct PlaybackQueue {
    items: VecDeque<SoundValue>,
}

impl View for PlaybackQueue {
    type V = Seq<Request>;

    closed spec fn view(&self) -> Seq<Request> {
        self.items@.map_values(|value: SoundValue| value@)
    }
}

impl PlaybackQueue {
    /// A queue with nothing pending.
    pub fn new() -> (queue: Self)
        ensures
            queue@ == Seq::<Request>::empty(),
    {
        PlaybackQueue { items: VecDeque::new() }
    }

    /// Number of pending requests.
    pub fn len(&self) -> (len: usize)
        ensures
            len == self@.len(),
    {
        self.items.len()
    }

    /// Whether nothing is pending.
    pub fn is_empty(&self) -> (empty: bool)
        ensures
            empty == (self@.len() == 0),
    {
        self.items.len() == 0
    }

    /// Appends `value` behind everything that is already pending.
    pub fn push(&mut self, value: SoundValue)
        ensures
            final(self)@ == old(self)@.push(value@),
    {
        self.items.push_back(value);
        assert(self@ =~= old(self)@.push(value@));
    }

    /// Takes the oldest pending request, if there is one.
    pub fn pop(&mut self) -> (oldest: Option<SoundValue>)
        ensures
            match oldest {
                Some(value) => {
                    &&& old(self)@.len() > 0
                    &&& value@ == old(self)@.first()
                    &&& final(self)@ == old(self)@.drop_first()
                },
                None => {
                    &&& old(self)@.len() == 0
                    &&& final(self)@ == old(self)@
                },
            },
    {
        let oldest = self.items.pop_front();
        assert(oldest.is_some() ==> self@ =~= old(self)@.drop_first());
        oldest
    }

    /// Drops everything that is pending.
    pub fn clear(&mut self)
        ensures
            final(self)@ == Seq::<Request>::empty(),
    {
        self.items.clear();
        assert(self@ =~= Seq::<Request>::empty());
    }
}

} // verus!

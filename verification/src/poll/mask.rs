//! Interests and readiness reports of one source.

use crate::unix::{Interest, RawFd};
use vstd::prelude::*;

verus! {

/// A readiness report, or the interests to register: the fields of
/// `polling::Event` that a driver reads and sets.
#[derive(Clone, Copy, Debug, PartialEq, Eq, Structural)]
pub struct Event {
    pub key: usize,
    pub readable: bool,
    pub writable: bool,
}

/// Calls `polling::Event::none`, which gives an event with the key and without
/// interests.
#[verifier::external_body]
fn event_none(key: usize) -> (event: Event)
    ensures
        event == (Event { key, readable: false, writable: false }),
{
    let event = polling::Event::none(key);
    Event { key: event.key, readable: event.readable, writable: event.writable }
}

impl Event {
    /// The event speaks of `interest`.
    pub open spec fn has(self, interest: Interest) -> bool {
        match interest {
            Interest::Readable => self.readable,
            Interest::Writable => self.writable,
        }
    }

    /// The source that the event was registered for.
    pub fn source(&self) -> (fd: RawFd)
        ensures
            fd == self.key as i32,
    {
        #[verifier::truncate]
        let fd: RawFd = self.key as i32;
        fd
    }
}

/// Interests currently queued for, or registered on, one source.
#[derive(Clone, Copy, Debug, PartialEq, Eq, Structural)]
pub struct Mask {
    pub readable: bool,
    pub writable: bool,
}

impl Mask {
    /// No interest.
    pub open spec fn none() -> Mask {
        Mask { readable: false, writable: false }
    }

    /// The mask holds no interest.
    pub open spec fn vacant(self) -> bool {
        !self.readable && !self.writable
    }

    /// The mask holds `interest`.
    pub open spec fn has(self, interest: Interest) -> bool {
        match interest {
            Interest::Readable => self.readable,
            Interest::Writable => self.writable,
        }
    }

    /// The mask with `interest` in or out.
    pub open spec fn with(self, interest: Interest, value: bool) -> Mask {
        match interest {
            Interest::Readable => Mask { readable: value, ..self },
            Interest::Writable => Mask { writable: value, ..self },
        }
    }

    /// The mask without the interests that `event` reports.
    pub open spec fn without(self, event: Event) -> Mask {
        Mask {
            readable: self.readable && !event.readable,
            writable: self.writable && !event.writable,
        }
    }

    /// The event that registers the mask for `fd`.
    pub open spec fn registration(self, fd: RawFd) -> Event {
        Event { key: fd as usize, readable: self.readable, writable: self.writable }
    }

    /// Whether the mask holds no interest.
    pub fn is_empty(self) -> (empty: bool)
        ensures
            empty == self.vacant(),
    {
        !self.readable && !self.writable
    }

    /// Whether the mask holds `interest`.
    pub fn get(self, interest: Interest) -> (value: bool)
        ensures
            value == self.has(interest),
    {
        match interest {
            Interest::Readable => self.readable,
            Interest::Writable => self.writable,
        }
    }

    /// Puts `interest` in or takes it out.
    pub fn set(&mut self, interest: Interest, value: bool)
        ensures
            *final(self) == old(self).with(interest, value),
    {
        match interest {
            Interest::Readable => self.readable = value,
            Interest::Writable => self.writable = value,
        }
    }

    /// The event that registers the mask for `fd`.
    pub fn event(self, fd: RawFd) -> (event: Event)
        ensures
            event == self.registration(fd),
    {
        #[verifier::truncate]
        let key: usize = fd as usize;
        let mut event = event_none(key);
        event.readable = self.readable;
        event.writable = self.writable;
        event
    }
}

impl Default for Mask {
    fn default() -> (mask: Mask)
        ensures
            mask == Mask::none(),
    {
        Mask { readable: false, writable: false }
    }
}

/// A report finds its way back: the source that an event names is the one that
/// it was registered for, whatever the descriptor number.
pub proof fn law_event_names_its_source(mask: Mask, fd: RawFd)
    ensures
        mask.registration(fd).key as i32 == fd,
{
    assert((fd as usize) as i32 == fd) by (bit_vector);
}

/// Setting one interest shows in that interest and leaves the other alone.
pub proof fn law_set_is_seen_by_get(mask: Mask, set: Interest, value: bool, get: Interest)
    ensures
        mask.with(set, value).has(get) == (if set == get {
            value
        } else {
            mask.has(get)
        }),
{
}

/// A mask tells its interests apart: setting one changes that one alone, a report
/// takes out exactly what it names, and the event that registers the mask names
/// exactly what the mask holds.
pub proof fn law_mask_keeps_interests_apart(
    mask: Mask,
    interest: Interest,
    value: bool,
    event: Event,
    fd: RawFd,
)
    ensures
        interest is Readable ==> mask.has(interest) == mask.readable && event.has(interest)
            == event.readable && mask.with(interest, value).readable == value && mask.with(
            interest,
            value,
        ).writable == mask.writable,
        interest is Writable ==> mask.has(interest) == mask.writable && event.has(interest)
            == event.writable && mask.with(interest, value).writable == value && mask.with(
            interest,
            value,
        ).readable == mask.readable,
        mask.without(event).readable <==> mask.readable && !event.readable,
        mask.without(event).writable <==> mask.writable && !event.writable,
        mask.registration(fd).readable == mask.readable,
        mask.registration(fd).writable == mask.writable,
        mask.vacant() <==> !(mask.readable || mask.writable),
        !Mask::none().readable && !Mask::none().writable,
{
}

} // verus!

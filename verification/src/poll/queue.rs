//! The operations queued on one source.

use crate::completion::Key;
use crate::poll::mask::{Event, Mask};
use crate::seqs::{lemma_without_step, without};
use crate::unix::Interest;
use std::collections::VecDeque;
use vstd::prelude::*;

verus! {

/// The state of one source.
#[verifier::ext_equal]
pub struct Source {
    /// Operations that wait to read, the next one first.
    pub read: Seq<Key>,
    /// Operations that wait to write, the next one first.
    pub write: Seq<Key>,
    /// Mask registered with the poller, where the source is registered.
    pub armed: Option<Mask>,
    /// The source is among those whose mask may have to change.
    pub listed: bool,
    /// Interests the source is believed not to be ready for.
    pub stale: Mask,
}

impl Source {
    /// A source that nothing waits on.
    pub open spec fn fresh() -> Source {
        Source {
            read: Seq::empty(),
            write: Seq::empty(),
            armed: None,
            listed: false,
            stale: Mask::none(),
        }
    }

    /// The queue of one interest.
    pub open spec fn queue(self, interest: Interest) -> Seq<Key> {
        match interest {
            Interest::Readable => self.read,
            Interest::Writable => self.write,
        }
    }

    /// The source with another queue for one interest.
    pub open spec fn with_queue(self, interest: Interest, keys: Seq<Key>) -> Source {
        match interest {
            Interest::Readable => Source { read: keys, ..self },
            Interest::Writable => Source { write: keys, ..self },
        }
    }

    /// Nothing waits on the source.
    pub open spec fn idle(self) -> bool {
        self.read.len() == 0 && self.write.len() == 0
    }

    /// Interests the queued operations need.
    pub open spec fn needs(self) -> Mask {
        Mask { readable: self.read.len() > 0, writable: self.write.len() > 0 }
    }

    /// `key` waits on the source.
    pub open spec fn holds(self, key: Key) -> bool {
        self.read.contains(key) || self.write.contains(key)
    }

    /// The source after `key` left it.
    pub open spec fn dropped(self, key: Key) -> Source {
        Source {
            read: without(self.read, key),
            write: without(self.write, key),
            ..self
        }
    }

    /// The operation that `event` lets go on, reads first.
    pub open spec fn next(self, event: Event) -> Option<(Key, Interest)> {
        if event.readable && self.read.len() > 0 {
            Some((self.read[0], Interest::Readable))
        } else if event.writable && self.write.len() > 0 {
            Some((self.write[0], Interest::Writable))
        } else {
            None
        }
    }

    /// The source after that operation left its queue.
    pub open spec fn popped(self, event: Event) -> Source {
        match self.next(event) {
            Some((_, interest)) => self.with_queue(interest, self.queue(interest).skip(1)),
            None => self,
        }
    }
}

/// The operations queued on one source.
#[derive(Debug)]
pub struct FdQueue {
    pub read_queue: VecDeque<Key>,
    pub write_queue: VecDeque<Key>,
    /// Mask currently registered with the poller, or `None` when the source is
    /// not registered.
    pub armed: Option<Mask>,
    /// Whether this source is already listed for the next flush.
    pub listed: bool,
    /// Interests the source is believed not to be ready for, because an
    /// operation saw `EAGAIN` or because the last readiness for that interest
    /// was consumed.
    ///
    /// Level triggering makes a wrong belief self-correcting: a source that is
    /// in fact ready reports itself again as soon as it is registered, so the
    /// worst case is one delayed wakeup, never a lost one.
    pub stale: Mask,
}

impl View for FdQueue {
    type V = Source;

    open spec fn view(&self) -> Source {
        Source {
            read: self.read_queue@,
            write: self.write_queue@,
            armed: self.armed,
            listed: self.listed,
            stale: self.stale,
        }
    }
}

/// The keys of `keys` other than `key`, in order.
fn retain_others(keys: &VecDeque<Key>, key: Key) -> (kept: VecDeque<Key>)
    ensures
        kept@ == without(keys@, key),
{
    let mut kept: VecDeque<Key> = VecDeque::new();
    let mut i: usize = 0;
    assert(without(keys@.take(0), key) =~= Seq::<Key>::empty()) by {
        reveal(Seq::filter);
    }
    while i < keys.len()
        invariant
            i <= keys@.len(),
            kept@ == without(keys@.take(i as int), key),
        decreases keys@.len() - i,
    {
        proof {
            lemma_without_step(keys@, i as int, key);
        }
        let k: Key = keys[i];
        if k != key {
            kept.push_back(k);
        }
        i = i + 1;
    }
    assert(keys@.take(i as int) =~= keys@);
    kept
}

impl FdQueue {
    /// A source that nothing waits on.
    pub fn new() -> (queue: FdQueue)
        ensures
            queue@ == Source::fresh(),
    {
        FdQueue {
            read_queue: VecDeque::new(),
            write_queue: VecDeque::new(),
            armed: None,
            listed: false,
            stale: Mask { readable: false, writable: false },
        }
    }

    /// Whether nothing waits on the source.
    pub fn is_empty(&self) -> (empty: bool)
        ensures
            empty == self@.idle(),
    {
        self.read_queue.len() == 0 && self.write_queue.len() == 0
    }

    /// Queues an operation behind the others.
    pub fn push_back_interest(&mut self, key: Key, interest: Interest)
        ensures
            final(self)@ == old(self)@.with_queue(interest, old(self)@.queue(interest).push(key)),
    {
        match interest {
            Interest::Readable => self.read_queue.push_back(key),
            Interest::Writable => self.write_queue.push_back(key),
        }
    }

    /// Queues an operation ahead of the others.
    pub fn push_front_interest(&mut self, key: Key, interest: Interest)
        ensures
            final(self)@ == old(self)@.with_queue(
                interest,
                seq![key] + old(self)@.queue(interest),
            ),
    {
        match interest {
            Interest::Readable => self.read_queue.push_front(key),
            Interest::Writable => self.write_queue.push_front(key),
        }
    }

    /// Takes an operation out of both queues, wherever it stands in them.
    pub fn remove(&mut self, key: &Key)
        ensures
            final(self)@ == old(self)@.dropped(*key),
    {
        self.read_queue = retain_others(&self.read_queue, *key);
        self.write_queue = retain_others(&self.write_queue, *key);
    }

    /// Interests the queued operations currently need.
    pub fn desired(&self) -> (mask: Mask)
        ensures
            mask == self@.needs(),
    {
        Mask {
            readable: self.read_queue.len() > 0,
            writable: self.write_queue.len() > 0,
        }
    }

    /// Takes out the operation that `event` lets go on, reads first.
    pub fn pop_interest(&mut self, event: &Event) -> (popped: Option<(Key, Interest)>)
        ensures
            popped == old(self)@.next(*event),
            final(self)@ == old(self)@.popped(*event),
    {
        if event.readable {
            if let Some(key) = self.read_queue.pop_front() {
                assert(self@.read =~= old(self)@.read.skip(1));
                return Some((key, Interest::Readable));
            }
        }
        if event.writable {
            if let Some(key) = self.write_queue.pop_front() {
                assert(self@.write =~= old(self)@.write.skip(1));
                return Some((key, Interest::Writable));
            }
        }
        None
    }
}

} // verus!

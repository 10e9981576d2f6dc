//! Finished operations and the channel that carries them to the driver.

use crate::error::Error;
use crate::error::os_error;
use crate::os;
use vstd::prelude::*;

verus! {

/// Identifies an operation.
pub type Key = u64;

/// A finished operation with its result.
#[derive(Clone, Copy, Debug, PartialEq, Eq)]
pub struct Entry {
    pub key: Key,
    pub result: Result<usize, Error>,
    pub flags: u32,
}

impl Entry {
    /// The finished operation `key` with `result` and no flags.
    pub open spec fn of(key: Key, result: Result<usize, Error>) -> Entry {
        Entry { key, result, flags: 0 }
    }

    /// The cancelled operation `key`.
    pub open spec fn cancelled(key: Key) -> Entry {
        Entry::of(key, Err(os_error(os::ECANCELED)))
    }

    /// A finished operation.
    pub fn new(key: Key, result: Result<usize, Error>) -> (entry: Entry)
        ensures
            entry == Entry::of(key, result),
    {
        Entry { key, result, flags: 0 }
    }

    /// An operation that finished by being cancelled.
    pub fn new_cancelled(key: Key) -> (entry: Entry)
        ensures
            entry == Entry::cancelled(key),
    {
        Entry::new(key, Err(Error::from_raw_os_error(os::ecanceled())))
    }

    /// Sets the flags that the completion carried.
    pub fn set_flags(&mut self, flags: u32)
        ensures
            *final(self) == (Entry { flags, ..*old(self) }),
    {
        self.flags = flags;
    }
}

/// The sending end of a `flume` channel.
#[verifier::external_type_specification]
#[verifier::external_body]
#[verifier::reject_recursive_types(T)]
pub struct ExSender<T>(flume::Sender<T>);

/// The receiving end of a `flume` channel.
#[verifier::external_type_specification]
#[verifier::external_body]
#[verifier::reject_recursive_types(T)]
pub struct ExReceiver<T>(flume::Receiver<T>);

/// The entries that were sent through this sending end, oldest first. Other
/// ends of the same channel have entries of their own.
pub uninterp spec fn sent(tx: flume::Sender<Entry>) -> Seq<Entry>;

/// The entries that were received through this receiving end, oldest first.
pub uninterp spec fn received(rx: flume::Receiver<Entry>) -> Seq<Entry>;

/// `rx` is the one receiving end of the channel that `tx` sends to.
pub uninterp spec fn joined(tx: flume::Sender<Entry>, rx: flume::Receiver<Entry>) -> bool;

/// No other sending end was made from `tx`.
pub uninterp spec fn alone(tx: flume::Sender<Entry>) -> bool;

/// What passed through the two ends of a channel that a driver holds.
#[verifier::ext_equal]
pub struct Traffic {
    /// What was sent through the driver's own end, oldest first.
    pub sent: Seq<Entry>,
    /// What was received, from whatever end it was sent, oldest first.
    pub received: Seq<Entry>,
    /// The two ends belong together.
    pub linked: bool,
    /// No other sending end was made.
    pub alone: bool,
    /// The sending ends whose entries arrive here.
    pub feeders: Set<flume::Sender<Entry>>,
}

impl Traffic {
    /// Nothing passed through yet.
    pub open spec fn fresh(self) -> bool {
        &&& self.sent == Seq::<Entry>::empty()
        &&& self.received == Seq::<Entry>::empty()
        &&& self.linked
        &&& self.alone
    }

    /// `entry` was sent.
    pub open spec fn sending(self, entry: Entry) -> Traffic {
        Traffic { sent: self.sent.push(entry), ..self }
    }

    /// `entries` were received.
    pub open spec fn receiving(self, entries: Seq<Entry>) -> Traffic {
        Traffic { received: self.received + entries, ..self }
    }

    /// Another sending end was made.
    pub open spec fn sharing(self) -> Traffic {
        Traffic { alone: false, ..self }
    }

    /// Nothing that was sent is still in the channel.
    pub open spec fn delivered(self) -> bool {
        self.sent.to_multiset().subset_of(self.received.to_multiset())
    }
}

/// A channel, held at both ends.
pub struct Channel {
    tx: flume::Sender<Entry>,
    rx: flume::Receiver<Entry>,
}

impl View for Channel {
    type V = Traffic;

    closed spec fn view(&self) -> Traffic {
        Traffic {
            sent: sent(self.tx),
            received: received(self.rx),
            linked: joined(self.tx, self.rx),
            alone: alone(self.tx),
            feeders: Set::new(|end: flume::Sender<Entry>| joined(end, self.rx)),
        }
    }
}

/// Calls `flume::unbounded`. The new ends belong together, they are the only
/// ones, and nothing has passed through them.
#[verifier::external_body]
fn unbounded() -> (ends: (flume::Sender<Entry>, flume::Receiver<Entry>))
    ensures
        sent(ends.0) == Seq::<Entry>::empty(),
        received(ends.1) == Seq::<Entry>::empty(),
        joined(ends.0, ends.1),
        alone(ends.0),
{
    flume::unbounded()
}

/// Calls `flume::Sender::send`, which hands the entry to the channel. It is
/// refused only when no receiving end is left, and both ends are held here.
#[verifier::external_body]
fn sender_send(channel: &mut Channel, entry: Entry)
    ensures
        sent(final(channel).tx) == sent(old(channel).tx).push(entry),
        joined(final(channel).tx, final(channel).rx) == joined(old(channel).tx, old(channel).rx),
        alone(final(channel).tx) == alone(old(channel).tx),
        final(channel).rx == old(channel).rx,
{
    let _ = channel.tx.send(entry);
}

/// Calls `flume::Sender::clone`. The new end sends to the same channel, and
/// nothing was sent through it yet. From then on the channel has another sending
/// end; nothing else changes.
#[verifier::external_body]
fn sender_clone(channel: &mut Channel) -> (end: flume::Sender<Entry>)
    ensures
        sent(end) == Seq::<Entry>::empty(),
        joined(old(channel).tx, old(channel).rx) ==> joined(end, final(channel).rx),
        sent(final(channel).tx) == sent(old(channel).tx),
        joined(final(channel).tx, final(channel).rx) == joined(old(channel).tx, old(channel).rx),
        !alone(final(channel).tx),
        final(channel).rx == old(channel).rx,
{
    channel.tx.clone()
}

/// Calls `flume::Receiver::is_empty`, which tells whether entries are in the
/// channel. An empty channel has handed over all that was sent to it before. With
/// a single sending end, there is nothing else to find: the channel is empty
/// exactly when that is so. With other ends, threads send at any time, and
/// whether entries of theirs are found is left unsaid.
#[verifier::external_body]
fn receiver_is_empty(channel: &Channel) -> (empty: bool)
    ensures
        joined(channel.tx, channel.rx) && empty ==> sent(channel.tx).to_multiset().subset_of(
            received(channel.rx).to_multiset(),
        ),
        joined(channel.tx, channel.rx) && alone(channel.tx) ==> empty == sent(
            channel.tx,
        ).to_multiset().subset_of(received(channel.rx).to_multiset()),
{
    channel.rx.is_empty()
}

/// Walks `flume::Receiver::try_iter`, which calls `try_recv` until the channel
/// is found empty, and hands over what arrived. What was sent before has arrived.
/// With a single sending end nothing else arrives: entries come out once, in the
/// order in which they were sent. With other ends, threads send at any time, and
/// how much of theirs arrives is left unsaid. Every end sends to the same channel
/// as before.
#[verifier::external_body]
fn receiver_try_iter(channel: &mut Channel) -> (entries: Vec<Entry>)
    ensures
        received(final(channel).rx) == received(old(channel).rx) + entries@,
        joined(final(channel).tx, final(channel).rx) == joined(old(channel).tx, old(channel).rx),
        joined(old(channel).tx, old(channel).rx) ==> sent(
            old(channel).tx,
        ).to_multiset().subset_of(received(final(channel).rx).to_multiset()),
        joined(old(channel).tx, old(channel).rx) && alone(old(channel).tx) ==> received(
            final(channel).rx,
        ) == sent(old(channel).tx),
        forall|end: flume::Sender<Entry>| #[trigger]
            joined(end, final(channel).rx) == joined(end, old(channel).rx),
        final(channel).tx == old(channel).tx,
{
    channel.rx.try_iter().collect()
}

impl Channel {
    /// A channel that nothing has passed through.
    pub fn new() -> (channel: Channel)
        ensures
            channel@.fresh(),
    {
        let (tx, rx) = unbounded();
        Channel { tx, rx }
    }

    /// Puts an entry into the channel.
    pub fn send(&mut self, entry: Entry)
        ensures
            final(self)@ == old(self)@.sending(entry),
    {
        sender_send(self, entry);
    }

    /// Another sending end, for a thread that runs an operation.
    pub fn sender(&mut self) -> (end: flume::Sender<Entry>)
        ensures
            old(self)@.linked ==> final(self)@.feeders.contains(end),
            sent(end) == Seq::<Entry>::empty(),
            final(self)@ == old(self)@.sharing(),
    {
        sender_clone(self)
    }

    /// Whether no entry was found in the channel. If so, all that was sent has
    /// been received. While no other sending end was made, the converse holds
    /// too: once all that was sent has been received, no entry is found.
    pub fn is_empty(&self) -> (empty: bool)
        ensures
            self@.linked && empty ==> self@.delivered(),
            self@.linked && self@.alone ==> empty == self@.delivered(),
    {
        receiver_is_empty(self)
    }

    /// Takes out what is in the channel, which is at least what was sent and not
    /// yet received. While no other sending end was made it is nothing else, each
    /// entry once and in order.
    pub fn receive(&mut self) -> (entries: Vec<Entry>)
        ensures
            final(self)@ == old(self)@.receiving(entries@),
            old(self)@.linked ==> final(self)@.delivered(),
            old(self)@.linked && old(self)@.alone ==> final(self)@.received == old(self)@.sent,
    {
        let entries = receiver_try_iter(self);
        assert(self@.feeders =~= old(self)@.feeders);
        entries
    }
}

/// Nothing sent is lost: once nothing is left in the channel, every entry that
/// was sent, such as that of a cancelled operation, was received.
pub proof fn law_delivered_entries_were_received(traffic: Traffic, entry: Entry)
    requires
        traffic.delivered(),
        traffic.sent.contains(entry),
    ensures
        traffic.received.contains(entry),
{
    broadcast use vstd::seq_lib::group_to_multiset_ensures;

    assert(traffic.sent.to_multiset().count(entry) <= traffic.received.to_multiset().count(entry));
}

/// An entry tells what it was made from; a cancelled one fails with `ECANCELED`.
pub proof fn law_entry_tells_what_it_was_made_from(key: Key, result: Result<usize, Error>)
    ensures
        Entry::of(key, result).key == key,
        Entry::of(key, result).result == result,
        Entry::of(key, result).flags == 0,
        Entry::cancelled(key).key == key,
        Entry::cancelled(key).result matches Err(Error::Os { code, .. }) && code == os::ECANCELED,
        Entry::cancelled(key).flags == 0,
{
}

/// What passes through a channel adds up: a sent entry comes last among the sent,
/// received ones come last among the received, in order, and another end changes
/// nothing but that it is there.
pub proof fn law_traffic_adds_up(traffic: Traffic, entry: Entry, entries: Seq<Entry>)
    ensures
        ({
            let t = traffic.sending(entry);
            &&& t.sent == traffic.sent + seq![entry]
            &&& t.received == traffic.received && t.linked == traffic.linked && t.alone
                == traffic.alone && t.feeders == traffic.feeders
        }),
        ({
            let t = traffic.receiving(entries);
            &&& t.received == traffic.received + entries
            &&& t.sent == traffic.sent && t.linked == traffic.linked && t.alone == traffic.alone
                && t.feeders == traffic.feeders
        }),
        ({
            let t = traffic.sharing();
            &&& !t.alone
            &&& t.sent == traffic.sent && t.received == traffic.received && t.linked
                == traffic.linked && t.feeders == traffic.feeders
        }),
        traffic.fresh() <==> traffic.sent.len() == 0 && traffic.received.len() == 0
            && traffic.linked && traffic.alone,
        traffic.delivered() <==> forall|e: Entry| #[trigger]
            traffic.sent.to_multiset().count(e) <= traffic.received.to_multiset().count(e),
{
    assert(traffic.sending(entry).sent =~= traffic.sent + seq![entry]);
    if traffic.sent.len() == 0 {
        assert(traffic.sent =~= Seq::<Entry>::empty());
    }
    if traffic.received.len() == 0 {
        assert(traffic.received =~= Seq::<Entry>::empty());
    }
}

} // verus!

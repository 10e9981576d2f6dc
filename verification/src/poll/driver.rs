//! The driver: queues, registrations and readiness reports.

use crate::completion::{Channel, Entry, Key, Traffic, sent};
use crate::config::{DriverType, Duration, ProactorBuilder};
use crate::error::{Error, ErrorKind, os_error};
use crate::os;
use crate::poll::args::{Multi, WaitArg};
use crate::poll::laws::law_marking_keeps_the_list_in_step;
use crate::poll::mask::{Event, Mask};
use crate::poll::queue::FdQueue;
use crate::poll::state::{
    Change, State, lemma_attached, lemma_flushed, lemma_removed, lemma_removed_from,
    lemma_reported, lemma_resubmitted, lemma_settled, lemma_staled, lemma_submitted,
    lemma_waiting,
};
use crate::seqs::{distinct, lemma_without_step, without};
use crate::unix::{Interest, Poll, RawFd};
use std::collections::{HashMap, VecDeque};
use vstd::prelude::*;

verus! {

broadcast use vstd::std_specs::hash::group_hash_axioms;

/// What an operation waits on.
#[derive(Debug)]
pub enum OpType {
    /// The operation waits on these descriptors.
    Fd(Vec<RawFd>),
    /// The operation was handed to the kernel's asynchronous I/O.
    Aio,
}

/// What an operation came to when it was first attempted.
#[derive(Debug)]
pub enum Decision {
    /// It has to wait for all of these.
    Wait(Multi),
    /// It is finished.
    Completed(usize),
    /// It has to run on another thread.
    Blocking,
    /// It is to be handed to the kernel's asynchronous I/O.
    Aio,
}

/// What became of a pushed operation.
#[derive(Debug, PartialEq, Eq)]
pub enum Pushed {
    /// It is finished, or waits in a queue.
    Settled(Poll<Result<usize, Error>>),
    /// It has to be dispatched to another thread.
    Dispatch,
    /// It has to be handed to the kernel's asynchronous I/O.
    SubmitAio,
}

/// What an operation came to when it was attempted again.
#[derive(Debug)]
pub enum Operated {
    /// It has to wait again for all of these.
    Pending(Vec<WaitArg>),
    /// It is finished.
    Ready(Result<usize, Error>),
}

/// What to do after a source could not be added to the poller.
#[derive(Debug, PartialEq, Eq)]
pub enum Registered {
    /// The outcome stands.
    Settled(Result<(), Error>),
    /// The poller knows the source already: modify its registration.
    Modify,
}

/// A source whose registration could not be changed.
#[derive(Debug)]
pub struct Failed {
    pub fd: RawFd,
    /// Whether a registration is left in the poller, to be deleted.
    pub forget: bool,
    /// The operations to complete with the error, each once.
    pub keys: Vec<Key>,
    pub error: Error,
}

/// How to wait for events.
#[derive(Clone, Copy, Debug, PartialEq, Eq)]
pub struct Wait {
    /// How long the poller may wait.
    pub timeout: Option<Duration>,
    /// Whether the caller limited the time.
    pub timed: bool,
    /// Whether finished operations were seen before the wait.
    pub has_completed: bool,
}

/// What to do after the poller waited.
#[derive(Clone, Copy, Debug, PartialEq, Eq)]
pub enum Waited {
    /// The turn is over.
    Return(Result<(), Error>),
    /// Take in the reported events, then the turn is over.
    Dispatch,
}

/// Low-level driver of polling.
pub struct Driver {
    registry: HashMap<RawFd, FdQueue>,
    /// Sources whose desired mask may differ from the registered one.
    dirty: Vec<RawFd>,
    /// The registration change that was handed out last.
    applying: Option<(RawFd, Mask)>,
    /// Whether a change was refused since the last wait.
    failed: bool,
    completed: Channel,
}

impl View for Driver {
    type V = State;

    closed spec fn view(&self) -> State {
        State {
            sources: self.registry@.map_values(|queue: FdQueue| queue@),
            dirty: self.dirty@,
            applying: self.applying,
            failed: self.failed,
        }
    }
}

/// The keys of both queues, each where it comes first.
fn distinct_keys(read: &VecDeque<Key>, write: &VecDeque<Key>) -> (keys: Vec<Key>)
    ensures
        keys@ == distinct(read@ + write@),
{
    let ghost all = read@ + write@;
    let mut keys: Vec<Key> = Vec::new();
    let mut i: usize = 0;
    while i < read.len()
        invariant
            i <= read@.len(),
            all == read@ + write@,
            keys@ == distinct(all.take(i as int)),
        decreases read@.len() - i,
    {
        assert(all.take(i + 1).drop_last() =~= all.take(i as int));
        push_new(&mut keys, read[i]);
        i = i + 1;
    }
    let mut j: usize = 0;
    while j < write.len()
        invariant
            j <= write@.len(),
            all == read@ + write@,
            keys@ == distinct(all.take(read@.len() + j)),
        decreases write@.len() - j,
    {
        assert(all.take(read@.len() + j + 1).drop_last() =~= all.take(read@.len() + j));
        push_new(&mut keys, write[j]);
        j = j + 1;
    }
    assert(all.take(all.len() as int) =~= all);
    keys
}

/// Appends `key` unless it is there.
fn push_new(keys: &mut Vec<Key>, key: Key)
    ensures
        final(keys)@ == (if old(keys)@.contains(key) {
            old(keys)@
        } else {
            old(keys)@.push(key)
        }),
{
    let mut i: usize = 0;
    while i < keys.len()
        invariant
            i <= keys@.len(),
            keys@ == old(keys)@,
            forall|j: int| 0 <= j < i ==> keys@[j] != key,
        decreases keys@.len() - i,
    {
        if keys[i] == key {
            return ;
        }
        i = i + 1;
    }
    keys.push(key);
}

/// The descriptors of `fds` other than `fd`, in order.
fn other_fds(fds: &Vec<RawFd>, fd: RawFd) -> (others: Vec<RawFd>)
    ensures
        others@ == without(fds@, fd),
{
    let mut others: Vec<RawFd> = Vec::new();
    let mut i: usize = 0;
    assert(without(fds@.take(0), fd) =~= Seq::<RawFd>::empty()) by {
        reveal(Seq::filter);
    }
    while i < fds.len()
        invariant
            i <= fds@.len(),
            others@ == without(fds@.take(i as int), fd),
        decreases fds@.len() - i,
    {
        proof {
            lemma_without_step(fds@, i as int, fd);
        }
        let other: RawFd = fds[i];
        if other != fd {
            others.push(other);
        }
        i = i + 1;
    }
    assert(fds@.take(i as int) =~= fds@);
    others
}

/// How many events one wait may report, where the settings limit it.
pub fn events_capacity(builder: &ProactorBuilder) -> (capacity: Option<usize>)
    ensures
        capacity == (if builder.capacity == 0 {
            None::<usize>
        } else {
            Some(builder.capacity as usize)
        }),
{
    if builder.capacity == 0 {
        None
    } else {
        Some(builder.capacity as usize)
    }
}

/// Takes the outcome of adding a source to the poller. Falls back to a
/// modification when the source is still known to the poller, which happens
/// when a previous deletion could not be delivered (a closed descriptor drops
/// out of the kernel's interest list on its own).
pub fn register(added: Result<(), Error>) -> (next: Registered)
    ensures
        next == (if added matches Err(e) && e.kind_of() == Some(ErrorKind::AlreadyExists) {
            Registered::Modify
        } else {
            Registered::Settled(added)
        }),
{
    match added {
        Ok(_) => Registered::Settled(added),
        Err(e) => match e.kind() {
            Some(kind) => if kind == ErrorKind::AlreadyExists {
                Registered::Modify
            } else {
                Registered::Settled(Err(e))
            },
            None => Registered::Settled(Err(e)),
        },
    }
}

/// Takes the outcome of handing an operation to the kernel's asynchronous I/O.
/// Where the descriptor does not support that, or the kernel's queue is full, the
/// operation runs on another thread.
pub fn aio_submitted(submitted: Result<(), Error>) -> (pushed: Pushed)
    ensures
        pushed == (match submitted {
            Ok(_) => Pushed::Settled(Poll::Pending),
            Err(e) => if e.code_of() == Some(os::EOPNOTSUPP) || e.code_of() == Some(os::EAGAIN) {
                Pushed::Dispatch
            } else {
                Pushed::Settled(Poll::Ready(Err(e)))
            },
        }),
{
    match submitted {
        Ok(_) => Pushed::Settled(Poll::Pending),
        Err(e) => match e.raw_os_error() {
            Some(code) => if code == os::eopnotsupp() || code == os::eagain() {
                Pushed::Dispatch
            } else {
                Pushed::Settled(Poll::Ready(Err(e)))
            },
            None => Pushed::Settled(Poll::Ready(Err(e))),
        },
    }
}

impl Driver {
    /// What passed through the channel of finished operations.
    pub closed spec fn traffic(&self) -> Traffic {
        self.completed@
    }

    /// What is sent through `end` arrives in the driver's channel.
    pub open spec fn fed_by(&self, end: flume::Sender<Entry>) -> bool {
        self.traffic().feeders.contains(end)
    }

    /// A driver without sources, on a poller that may support level-triggered
    /// readiness. One-shot pollers are refused: the registration model has no
    /// one-shot path.
    pub fn new(supports_level: bool) -> (driver: Result<Driver, Error>)
        ensures
            driver matches Ok(d) ==> supports_level && d@ == State::empty() && d@.quiet()
                && d.traffic().fresh(),
            driver matches Err(e) ==> !supports_level && e == (Error::Custom {
                kind: ErrorKind::Unsupported,
                message: "the poll driver needs level-triggered readiness",
            }),
    {
        if !supports_level {
            return Err(
                Error::new(
                    ErrorKind::Unsupported,
                    "the poll driver needs level-triggered readiness",
                ),
            );
        }
        let driver = Driver {
            registry: HashMap::new(),
            dirty: Vec::new(),
            applying: None,
            failed: false,
            completed: Channel::new(),
        };
        assert(driver@.sources =~= Map::empty());
        Ok(driver)
    }

    /// This is the polling driver.
    pub fn driver_type(&self) -> (kind: DriverType)
        ensures
            kind == DriverType::Poll,
    {
        DriverType::Poll
    }

    /// Another sending end of the channel, for a thread that runs an operation.
    pub fn completer(&mut self) -> (end: flume::Sender<Entry>)
        ensures
            old(self).traffic().linked ==> final(self).fed_by(end),
            sent(end) == Seq::<Entry>::empty(),
            final(self)@ == old(self)@,
            final(self).traffic() == old(self).traffic().sharing(),
    {
        self.completed.sender()
    }

    /// Puts `queue` in the place of the source `fd`.
    fn put(&mut self, fd: RawFd, queue: FdQueue)
        ensures
            final(self)@ == old(self)@.with(fd, queue@),
            final(self).traffic() == old(self).traffic(),
    {
        self.registry.insert(fd, queue);
        assert(self@.sources =~= old(self)@.sources.insert(fd, queue@));
    }

    /// Takes the source `fd` out.
    fn take(&mut self, fd: RawFd) -> (queue: Option<FdQueue>)
        ensures
            queue matches Some(q) ==> old(self)@.sources.contains_key(fd)
                && q@ == old(self)@.sources[fd],
            queue is None ==> !old(self)@.sources.contains_key(fd),
            final(self)@ == old(self)@.forgotten(fd),
            final(self).traffic() == old(self).traffic(),
    {
        let queue = self.registry.remove(&fd);
        assert(self@.sources =~= old(self)@.sources.remove(fd));
        queue
    }

    /// Record that the desired mask of `fd` may have changed. The poller is only
    /// touched by a flush, right before waiting.
    pub fn mark_dirty(&mut self, fd: RawFd)
        ensures
            final(self)@ == old(self)@.marked(fd),
            old(self)@.tallied() ==> final(self)@.tallied(),
            !old(self)@.sources.contains_key(fd) || old(self)@.sources[fd].listed ==> final(self)@
                == old(self)@,
            final(self).traffic() == old(self).traffic(),
    {
        proof {
            if old(self)@.tallied() {
                law_marking_keeps_the_list_in_step(old(self)@, fd);
            }
        }
        if let Some(mut queue) = self.take(fd) {
            let ghost before = queue@;
            let listed = queue.listed;
            queue.listed = true;
            if !listed {
                self.dirty.push(fd);
            }
            self.put(fd, queue);
            assert(before.listed ==> self@.sources =~= old(self)@.sources);
            assert(!before.listed ==> self@.sources =~= old(self)@.marked(fd).sources);
        } else {
            assert(self@.sources =~= old(self)@.sources);
        }
    }

    /// Submit a new operation to the end of the queue.
    pub fn submit(&mut self, key: Key, arg: WaitArg)
        ensures
            final(self)@ == old(self)@.submitted(key, arg),
            old(self)@.quiet() ==> final(self)@.quiet(),
            final(self).traffic() == old(self).traffic(),
    {
        let mut queue = match self.take(arg.fd) {
            Some(queue) => queue,
            None => FdQueue::new(),
        };
        queue.push_back_interest(key, arg.interest);
        self.put(arg.fd, queue);
        assert(self@.sources =~= old(self)@.sources.insert(arg.fd, queue@));
        self.mark_dirty(arg.fd);
        proof {
            if old(self)@.quiet() {
                lemma_submitted(old(self)@, key, arg);
            }
        }
    }

    /// Submit a new operation to the front of the queue.
    pub fn submit_front(&mut self, key: Key, arg: WaitArg)
        ensures
            final(self)@ == old(self)@.submitted_front(key, arg),
            old(self)@.quiet() ==> final(self)@.quiet(),
            final(self).traffic() == old(self).traffic(),
    {
        let mut queue = match self.take(arg.fd) {
            Some(queue) => queue,
            None => FdQueue::new(),
        };
        queue.push_front_interest(key, arg.interest);
        self.put(arg.fd, queue);
        assert(self@.sources =~= old(self)@.sources.insert(arg.fd, queue@));
        self.mark_dirty(arg.fd);
        proof {
            if old(self)@.quiet() {
                lemma_submitted(old(self)@, key, arg);
            }
        }
    }

    /// Remove one interest from the queue.
    pub fn remove_one(&mut self, key: &Key, fd: RawFd)
        ensures
            final(self)@ == old(self)@.removed(*key, fd),
            old(self)@.quiet() ==> final(self)@.quiet(),
            final(self).traffic() == old(self).traffic(),
    {
        if let Some(mut queue) = self.take(fd) {
            queue.remove(key);
            self.put(fd, queue);
            assert(self@.sources =~= old(self)@.sources.insert(fd, queue@));
            self.mark_dirty(fd);
        } else {
            assert(self@.sources =~= old(self)@.sources);
        }
        proof {
            if old(self)@.quiet() {
                lemma_removed(old(self)@, *key, fd);
            }
        }
    }

    /// Remove one interest from the queue, and emit a cancelled entry.
    pub fn cancel_one(&mut self, key: Key, fd: RawFd) -> (entry: Entry)
        ensures
            entry == Entry::cancelled(key),
            final(self)@ == old(self)@.removed(key, fd),
            old(self)@.quiet() ==> final(self)@.quiet(),
            final(self).traffic() == old(self).traffic(),
    {
        self.remove_one(&key, fd);
        Entry::new_cancelled(key)
    }

    /// Takes the operation off every descriptor it waits on and, where it waits
    /// on any, puts one cancelled entry into the channel. Returns whether the
    /// kernel is to be asked instead, because it holds the operation.
    pub fn cancel(&mut self, key: Key, op_type: Option<OpType>) -> (ask: bool)
        ensures
            ask == (op_type matches Some(OpType::Aio)),
            !(op_type matches Some(OpType::Fd(_))) ==> final(self)@ == old(self)@
                && final(self).traffic() == old(self).traffic(),
            op_type matches Some(OpType::Fd(fds)) ==> {
                &&& final(self)@ == old(self)@.removed_from(key, fds@)
                &&& final(self).traffic() == (if fds@.len() > 0 {
                    old(self).traffic().sending(Entry::cancelled(key))
                } else {
                    old(self).traffic()
                })
            },
            old(self)@.quiet() ==> final(self)@.quiet(),
    {
        match op_type {
            None => false,
            Some(OpType::Aio) => true,
            Some(OpType::Fd(fds)) => {
                let mut i: usize = 0;
                while i < fds.len()
                    invariant
                        i <= fds@.len(),
                        self@ == old(self)@.removed_from(key, fds@.take(i as int)),
                        self.traffic() == (if i > 0 {
                            old(self).traffic().sending(Entry::cancelled(key))
                        } else {
                            old(self).traffic()
                        }),
                    decreases fds@.len() - i,
                {
                    assert(fds@.take(i + 1).drop_last() =~= fds@.take(i as int));
                    let entry = self.cancel_one(key, fds[i]);
                    if i == 0 {
                        self.completed.send(entry);
                    }
                    i = i + 1;
                }
                assert(fds@.take(i as int) =~= fds@);
                proof {
                    if old(self)@.quiet() {
                        lemma_removed_from(old(self)@, key, fds@);
                    }
                }
                false
            },
        }
    }

    /// Whether `fd` can be attached: nothing waits on it.
    pub fn attachable(&self, fd: RawFd) -> (free: bool)
        ensures
            free == self@.at(fd).idle(),
    {
        match self.registry.get(&fd) {
            Some(queue) => queue.is_empty(),
            None => true,
        }
    }

    /// Forget any registration state left over from a previous owner of this
    /// descriptor number. Returns whether the poller still holds a registration
    /// of it, which is then to be deleted.
    ///
    /// A descriptor number can only be reattached after the previous descriptor
    /// was closed, and pending operations cannot outlive that close; should any be
    /// queued all the same, they are dropped with the source.
    pub fn attach(&mut self, fd: RawFd) -> (forget: bool)
        ensures
            forget == (old(self)@.at(fd).armed is Some),
            final(self)@ == old(self)@.attached(fd),
            old(self)@.quiet() ==> final(self)@.quiet(),
            final(self).traffic() == old(self).traffic(),
    {
        proof {
            if old(self)@.quiet() {
                lemma_attached(old(self)@, fd);
            }
        }
        match self.take(fd) {
            Some(queue) => {
                self.dirty = other_fds(&self.dirty, fd);
                queue.armed.is_some()
            },
            None => {
                assert(self@.sources =~= old(self)@.sources);
                false
            },
        }
    }

    /// Whether `fd` is a source believed not to be ready for `interest`.
    fn stale(&self, fd: RawFd, interest: Interest) -> (stale: bool)
        ensures
            stale == self@.is_stale(fd, interest),
    {
        match self.registry.get(&fd) {
            Some(queue) => queue.stale.get(interest),
            None => false,
        }
    }

    /// Records that `fd`, if it is a source, is not ready for `interest`.
    fn set_stale(&mut self, fd: RawFd, interest: Interest)
        ensures
            final(self)@ == old(self)@.staled(fd, interest),
            old(self)@.quiet() ==> final(self)@.quiet(),
            final(self).traffic() == old(self).traffic(),
    {
        proof {
            if old(self)@.quiet() && old(self)@.sources.contains_key(fd) {
                lemma_staled(old(self)@, fd, old(self)@.sources[fd].stale.with(interest, true));
            }
        }
        if let Some(mut queue) = self.take(fd) {
            queue.stale.set(interest, true);
            self.put(fd, queue);
            assert(self@.sources =~= old(self)@.sources.insert(fd, queue@));
        } else {
            assert(self@.sources =~= old(self)@.sources);
        }
    }

    /// Starts a new operation, with what it would wait for if it is known to
    /// wait for one thing. Skips the attempt when the source is known not to be
    /// ready for it: it would only spend a system call to be told so. The
    /// operation is then queued, and what it waits for is returned. Otherwise
    /// it has to be attempted.
    pub fn push(&mut self, key: Key, hint: Option<WaitArg>) -> (queued: Option<Multi>)
        ensures
            queued is Some <==> (hint matches Some(arg) && old(self)@.is_stale(
                arg.fd,
                arg.interest,
            )),
            queued matches Some(args) ==> args@ == seq![hint->0] && final(self)@ == old(
                self,
            )@.submitted(key, hint->0),
            queued is None ==> final(self)@ == old(self)@,
            old(self)@.quiet() ==> final(self)@.quiet(),
            final(self).traffic() == old(self).traffic(),
    {
        if let Some(arg) = hint {
            if self.stale(arg.fd, arg.interest) {
                self.submit(key, arg);
                return Some(Multi::from_buf(arg));
            }
        }
        None
    }

    /// Takes in what the first attempt of an operation came to. One that has to
    /// wait is queued, and its sources are believed not to be ready.
    pub fn push_decided(&mut self, key: Key, decision: &Result<Decision, Error>) -> (pushed: Pushed)
        ensures
            pushed == (match *decision {
                Ok(Decision::Wait(_)) => Pushed::Settled(Poll::Pending),
                Ok(Decision::Completed(n)) => Pushed::Settled(Poll::Ready(Ok(n))),
                Ok(Decision::Blocking) => Pushed::Dispatch,
                Ok(Decision::Aio) => Pushed::SubmitAio,
                Err(e) => Pushed::Settled(Poll::Ready(Err(e))),
            }),
            final(self)@ == (match *decision {
                Ok(Decision::Wait(args)) => old(self)@.waiting(key, args@),
                _ => old(self)@,
            }),
            old(self)@.quiet() ==> final(self)@.quiet(),
            final(self).traffic() == old(self).traffic(),
    {
        match decision {
            Ok(Decision::Wait(args)) => {
                let mut i: usize = 0;
                let n = args.len();
                while i < n
                    invariant
                        i <= n,
                        n == args@.len(),
                        self@ == old(self)@.waiting(key, args@.take(i as int)),
                        self.traffic() == old(self).traffic(),
                    decreases n - i,
                {
                    assert(args@.take(i + 1).drop_last() =~= args@.take(i as int));
                    let arg = args.get(i);
                    self.submit(key, arg);
                    self.set_stale(arg.fd, arg.interest);
                    i = i + 1;
                }
                assert(args@.take(i as int) =~= args@);
                proof {
                    if old(self)@.quiet() {
                        lemma_waiting(old(self)@, key, args@);
                    }
                }
                Pushed::Settled(Poll::Pending)
            },
            Ok(Decision::Completed(n)) => Pushed::Settled(Poll::Ready(Ok(*n))),
            Ok(Decision::Blocking) => Pushed::Dispatch,
            Ok(Decision::Aio) => Pushed::SubmitAio,
            Err(e) => Pushed::Settled(Poll::Ready(Err(*e))),
        }
    }

    /// Looks at one listed source and returns the change that the poller has to
    /// make for it, or `None` when no source is listed any more. The outcome of
    /// a modification or a registration goes to [`Driver::applied`].
    ///
    /// Sources whose desired mask is unchanged since the last flush cost no
    /// system call, so an operation that is re-submitted before the driver
    /// waits again never re-registers.
    pub fn flush_registrations(&mut self) -> (change: Option<Change>)
        ensures
            change == old(self)@.due(),
            final(self)@ == old(self)@.flushed(),
            old(self)@.quiet() ==> final(self)@.wf(),
            old(self)@.quiet() ==> (final(self)@.quiet() <==> !(change matches Some(c) && (c is Modify
                || c is Register))),
            final(self).traffic() == old(self).traffic(),
    {
        proof {
            if old(self)@.quiet() {
                lemma_flushed(old(self)@);
            }
        }
        let fd = match self.dirty.pop() {
            Some(fd) => fd,
            None => {
                return None;
            },
        };
        assert(self.dirty@ =~= old(self)@.dirty.drop_last());
        let mut queue = match self.take(fd) {
            Some(queue) => queue,
            None => {
                assert(self@.sources =~= old(self)@.sources);
                return Some(Change::Keep);
            },
        };
        queue.listed = false;
        let desired = queue.desired();
        if desired.is_empty() {
            if queue.armed.is_some() {
                return Some(Change::Forget(fd));
            }
            return Some(Change::Drop);
        }
        let armed = queue.armed;
        self.put(fd, queue);
        assert(self@.sources =~= old(self)@.sources.insert(fd, queue@));
        match armed {
            Some(mask) => {
                if mask == desired {
                    Some(Change::Keep)
                } else {
                    self.applying = Some((fd, desired));
                    Some(Change::Modify(fd, desired.event(fd)))
                }
            },
            None => {
                self.applying = Some((fd, desired));
                Some(Change::Register(fd, desired.event(fd)))
            },
        }
    }

    /// Takes in the outcome of the change that was handed out last. Where the
    /// poller refused it, the source is forgotten, and the operations queued on
    /// it are returned, each once.
    pub fn applied(&mut self, outcome: Result<(), Error>) -> (failed: Option<Failed>)
        ensures
            outcome is Ok ==> failed is None && final(self)@ == old(self)@.accepted(),
            outcome matches Err(e) ==> {
                &&& final(self)@ == old(self)@.refused()
                &&& failed is Some <==> (old(self)@.applying matches Some((fd, _))
                    && old(self)@.sources.contains_key(fd))
                &&& failed matches Some(f) ==> {
                    let source = old(self)@.sources[f.fd];
                    &&& f.fd == (old(self)@.applying->0).0
                    &&& f.forget == (source.armed is Some)
                    &&& f.keys@ == distinct(source.read + source.write)
                    &&& f.error == e
                }
            },
            old(self)@.wf() ==> final(self)@.quiet(),
            final(self).traffic() == old(self).traffic(),
    {
        proof {
            if old(self)@.wf() {
                lemma_settled(old(self)@);
            }
        }
        let (fd, mask) = match self.applying {
            Some(change) => change,
            None => {
                return None;
            },
        };
        self.applying = None;
        match outcome {
            Ok(_) => {
                if let Some(mut queue) = self.take(fd) {
                    queue.armed = Some(mask);
                    self.put(fd, queue);
                    assert(self@.sources =~= old(self)@.sources.insert(fd, queue@));
                } else {
                    assert(self@.sources =~= old(self)@.sources);
                }
                None
            },
            Err(error) => {
                self.failed = true;
                self.fail_queue(fd, error)
            },
        }
    }

    /// Forgets a source whose registration could not be changed, and hands out
    /// the operations queued on it.
    ///
    /// One operation may sit in both queues, and in other descriptors' queues;
    /// it is handed out once, and [`Driver::fail_key`] drops it everywhere.
    fn fail_queue(&mut self, fd: RawFd, error: Error) -> (failed: Option<Failed>)
        ensures
            final(self)@ == old(self)@.forgotten(fd),
            failed is Some <==> old(self)@.sources.contains_key(fd),
            failed matches Some(f) ==> {
                let source = old(self)@.sources[fd];
                &&& f.fd == fd
                &&& f.forget == (source.armed is Some)
                &&& f.keys@ == distinct(source.read + source.write)
                &&& f.error == error
            },
            final(self).traffic() == old(self).traffic(),
    {
        match self.take(fd) {
            Some(queue) => Some(
                Failed {
                    fd,
                    forget: queue.armed.is_some(),
                    keys: distinct_keys(&queue.read_queue, &queue.write_queue),
                    error,
                },
            ),
            None => None,
        }
    }

    /// Completes one operation of a failed source with the error. It is dropped
    /// from every other descriptor it waits on first, as a cancellation does, so
    /// no later readiness or cancellation touches a completed operation.
    pub fn fail_key(
        &mut self,
        fd: RawFd,
        key: Key,
        op_type: Option<OpType>,
        error: &Error,
    ) -> (entry: Entry)
        ensures
            entry == Entry::of(key, Err(error.shared())),
            final(self)@ == (match op_type {
                Some(OpType::Fd(fds)) => old(self)@.removed_from(key, without(fds@, fd)),
                _ => old(self)@,
            }),
            old(self)@.quiet() ==> final(self)@.quiet(),
            final(self).traffic() == old(self).traffic(),
    {
        if let Some(OpType::Fd(fds)) = op_type {
            let others = other_fds(&fds, fd);
            let mut i: usize = 0;
            while i < others.len()
                invariant
                    i <= others@.len(),
                    self@ == old(self)@.removed_from(key, others@.take(i as int)),
                    self.traffic() == old(self).traffic(),
                decreases others@.len() - i,
            {
                assert(others@.take(i + 1).drop_last() =~= others@.take(i as int));
                self.remove_one(&key, others[i]);
                i = i + 1;
            }
            assert(others@.take(i as int) =~= others@);
            proof {
                if old(self)@.quiet() {
                    lemma_removed_from(old(self)@, key, others@);
                }
            }
        }
        Entry::new(key, Err(error.share()))
    }

    /// Prepare for an external wait on the driver's descriptor, after the
    /// registrations were flushed and the notifier was reset. Returns whether
    /// the caller should poll right away instead of waiting, because a
    /// notification was pending or a registration failure already completed
    /// queued operations.
    pub fn flush(&mut self, notified: bool) -> (busy: bool)
        ensures
            busy == (notified || old(self)@.failed),
            final(self)@ == old(self)@.rested(),
            old(self)@.quiet() ==> final(self)@.quiet(),
            final(self).traffic() == old(self).traffic(),
    {
        let failed = self.failed;
        self.failed = false;
        notified || failed
    }

    /// Takes the finished operations out of the channel, to be notified.
    pub fn poll_completed(&mut self) -> (entries: Vec<Entry>)
        ensures
            final(self)@ == old(self)@,
            final(self).traffic() == old(self).traffic().receiving(entries@),
            old(self).traffic().linked ==> final(self).traffic().delivered(),
            old(self).traffic().linked && old(self).traffic().alone
                ==> final(self).traffic().received == old(self).traffic().sent,
    {
        self.completed.receive()
    }

    /// Takes in a readiness report. Returns the operation that it lets go on,
    /// which has left its queue, and the interest that it waited for.
    pub fn poll_one(&mut self, event: Event, fd: RawFd) -> (woken: Option<(Key, Interest)>)
        ensures
            woken == old(self)@.woken(fd, event),
            final(self)@ == old(self)@.reported(fd, event),
            old(self)@.quiet() ==> final(self)@.quiet(),
            final(self).traffic() == old(self).traffic(),
    {
        proof {
            if old(self)@.quiet() {
                lemma_reported(old(self)@, fd, event);
            }
        }
        let mut queue = match self.take(fd) {
            Some(queue) => queue,
            None => {
                // The source was dropped earlier in this batch; level triggering
                // will report it again if an operation is queued later.
                assert(self@.sources =~= old(self)@.sources);
                return None;
            },
        };
        // The report is current readiness, so it supersedes anything believed
        // about the source.
        if event.readable {
            queue.stale.readable = false;
        }
        if event.writable {
            queue.stale.writable = false;
        }
        let popped = queue.pop_interest(&event);
        self.put(fd, queue);
        assert(self@.sources =~= old(self)@.sources.insert(fd, queue@));
        if popped.is_some() {
            self.mark_dirty(fd);
        }
        popped
    }

    /// Takes in what a woken operation came to, where all that it waits for is
    /// ready. One that still has to wait goes back to the front of its queues.
    /// One that is finished consumed the readiness, which is assumed to be
    /// spent; level triggering reports the source again on the next wait if it
    /// is not.
    pub fn poll_operated(
        &mut self,
        key: Key,
        fd: RawFd,
        interest: Interest,
        operated: &Operated,
    ) -> (finished: Option<Entry>)
        ensures
            finished == (match *operated {
                Operated::Pending(_) => None,
                Operated::Ready(result) => Some(Entry::of(key, result)),
            }),
            final(self)@ == (match *operated {
                Operated::Pending(args) => old(self)@.resubmitted(key, args@),
                Operated::Ready(_) => old(self)@.staled(fd, interest),
            }),
            old(self)@.quiet() ==> final(self)@.quiet(),
            final(self).traffic() == old(self).traffic(),
    {
        match operated {
            Operated::Pending(args) => {
                let mut i: usize = 0;
                while i < args.len()
                    invariant
                        i <= args@.len(),
                        self@ == old(self)@.resubmitted(key, args@.take(i as int)),
                        self.traffic() == old(self).traffic(),
                    decreases args@.len() - i,
                {
                    assert(args@.take(i + 1).drop_last() =~= args@.take(i as int));
                    self.submit_front(key, args[i]);
                    i = i + 1;
                }
                assert(args@.take(i as int) =~= args@);
                proof {
                    if old(self)@.quiet() {
                        lemma_resubmitted(old(self)@, key, args@);
                    }
                }
                None
            },
            Operated::Ready(result) => {
                self.set_stale(fd, interest);
                Some(Entry::new(key, *result))
            },
        }
    }

    /// Decides how long to wait, after the registrations were flushed and the
    /// notifier was reset. A failed registration has completed its operations
    /// already, so it must not sleep; nor must a pending notification or
    /// finished operations in the channel.
    pub fn poll(&mut self, timeout: Option<Duration>, notified: bool) -> (wait: Wait)
        ensures
            wait.timed == (timeout is Some),
            wait.timeout == (if notified || wait.has_completed || old(self)@.failed {
                Some(Duration::zero_span())
            } else {
                timeout
            }),
            old(self).traffic().linked && !wait.has_completed ==> old(self).traffic().delivered(),
            old(self).traffic().linked && old(self).traffic().alone ==> wait.has_completed
                == !old(self).traffic().delivered(),
            final(self)@ == old(self)@.rested(),
            old(self)@.quiet() ==> final(self)@.quiet(),
            final(self).traffic() == old(self).traffic(),
    {
        let failed = self.failed;
        self.failed = false;
        let has_completed = !self.completed.is_empty();
        poll_timeout(timeout, failed, notified, has_completed)
    }

    /// Decides how the turn goes on after the wait. Takes the finished
    /// operations out of the channel where nothing else was reported, or where
    /// some were seen before the wait. Without any event or finished operation,
    /// a limited wait timed out.
    pub fn poll_waited(&mut self, wait: Wait, no_events: bool) -> (next: (Vec<Entry>, Waited))
        ensures
            next.1 == after_wait(wait, no_events, next.0@.len() > 0),
            !no_events && !wait.has_completed ==> next.0@.len() == 0,
            final(self)@ == old(self)@,
            final(self).traffic() == old(self).traffic().receiving(next.0@),
            old(self).traffic().linked && (no_events || wait.has_completed)
                ==> final(self).traffic().delivered(),
            old(self).traffic().linked && old(self).traffic().alone && (no_events
                || wait.has_completed) ==> final(self).traffic().received == old(
                self,
            ).traffic().sent,
    {
        if no_events || wait.has_completed {
            let entries = self.poll_completed();
            let drained = entries.len() > 0;
            (entries, turn_after_wait(wait, no_events, drained))
        } else {
            let entries: Vec<Entry> = Vec::new();
            assert(self.traffic() =~= old(self).traffic().receiving(entries@));
            (entries, turn_after_wait(wait, no_events, false))
        }
    }

    /// The descriptors that the poller holds a registration of, to be deleted
    /// when the driver is dropped.
    pub fn armed(&self) -> (fds: Vec<RawFd>)
        ensures
            fds@.no_duplicates(),
            forall|fd: RawFd| #[trigger]
                fds@.contains(fd) <==> self@.registrations().contains_key(fd),
    {
        let mut fds: Vec<RawFd> = Vec::new();
        for fd in iter: self.registry.keys()
            invariant
                iter.seq().unref().to_set() == self.registry@.dom(),
                iter.seq().no_duplicates(),
                fds@.no_duplicates(),
                forall|i: int|
                    0 <= i < iter.index() && self@.registrations().contains_key(
                        *#[trigger] iter.seq()[i],
                    ) ==> fds@.contains(*iter.seq()[i]),
                forall|f: RawFd| #[trigger]
                    fds@.contains(f) ==> self@.registrations().contains_key(f) && (exists|i: int|
                        0 <= i < iter.index() && *#[trigger] iter.seq()[i] == f),
        {
            let ghost n = iter.index();
            let ghost before = fds@;
            assert(*fd == *iter.seq()[n]);
            let fd: RawFd = *fd;
            let mut is_armed: bool = false;
            if let Some(queue) = self.registry.get(&fd) {
                is_armed = queue.armed.is_some();
            }
            assert(is_armed == self@.registrations().contains_key(fd)) by {
                assert(iter.seq().unref()[n] == fd);
                assert(iter.seq().unref().to_set().contains(fd));
            }
            if is_armed {
                assert(!fds@.contains(fd));
                fds.push(fd);
                assert(fds@[before.len() as int] == fd);
            }
            assert forall|f: RawFd| #[trigger] fds@.contains(f) <==> before.contains(f) || (
            is_armed && f == fd) by {
                if before.contains(f) {
                    assert(fds@[before.index_of(f)] == f);
                }
            }
        }
        assert forall|fd: RawFd| #[trigger] fds@.contains(fd) <==> self@.registrations().contains_key(
            fd,
        ) by {
        }
        fds
    }

    /// Operations of this driver finish once.
    pub fn pop_multishot(&mut self, key: &Key) -> (entry: Option<Entry>)
        ensures
            entry is None,
            *final(self) == *old(self),
    {
        None
    }
}

/// What to do after the poller waited: `drained` tells whether finished
/// operations were taken out of the channel.
pub open spec fn after_wait(wait: Wait, no_events: bool, drained: bool) -> Waited {
    if no_events && drained {
        Waited::Return(Ok(()))
    } else if no_events && wait.timed {
        Waited::Return(Err(os_error(os::ETIMEDOUT)))
    } else {
        Waited::Dispatch
    }
}

/// Decides how long to wait.
pub fn poll_timeout(
    timeout: Option<Duration>,
    failed: bool,
    notified: bool,
    has_completed: bool,
) -> (wait: Wait)
    ensures
        wait.timed == (timeout is Some),
        wait.has_completed == has_completed,
        wait.timeout == (if notified || has_completed || failed {
            Some(Duration::zero_span())
        } else {
            timeout
        }),
{
    let timed = timeout.is_some();
    if notified || has_completed || failed {
        Wait { timeout: Some(Duration::zero()), timed, has_completed }
    } else {
        Wait { timeout, timed, has_completed }
    }
}

/// Decides how the turn goes on after the wait.
pub fn turn_after_wait(wait: Wait, no_events: bool, drained: bool) -> (next: Waited)
    ensures
        next == after_wait(wait, no_events, drained),
{
    if no_events {
        if drained {
            return Waited::Return(Ok(()));
        }
        if wait.timed {
            return Waited::Return(Err(Error::from_raw_os_error(os::etimedout())));
        }
    }
    Waited::Dispatch
}

} // verus!

//! The driver: submissions, completions and the owner lane.

use crate::completion::{Channel, Entry, Key, Traffic, sent};
use crate::config::{DriverType, Duration, ProactorBuilder};
use crate::error::{Error, ErrorKind, kind_error};
use crate::iour::cqe::{
    CANCEL, Completion, Dispatch, NOTIFY, OwnerCompletion, TOKEN_LIMIT, dispatch, dispatch_of,
    owner_tag, tag_of_token,
};
use crate::iour::setup::Probe;
use crate::iour::sqe;
use crate::iour::sqe::{
    async_cancel_entry, enter_bits, enter_flags, opcode_of, poll_add_entry, tagged_entry,
    user_data_of,
};
use crate::iour::state::{Features, PushAction, PushEvent, State, Submission, Turn};
use crate::os;
use crate::unix::{Poll, RawFd};
use io_uring::squeue::Entry as Sqe;
use std::collections::{HashSet, VecDeque};
use vstd::prelude::*;

verus! {

broadcast use vstd::std_specs::hash::group_hash_axioms;

/// Where a round of pushing cancellation requests stands.
#[derive(Clone, Copy, Debug, PartialEq, Eq)]
pub enum Cancelling {
    /// It begins.
    Begin,
    /// The request for `key` was offered to the submission queue.
    Offered { key: Key, accepted: bool },
}

/// What an operation is to be submitted as.
pub enum OpEntry {
    /// A submission entry.
    Submission(Sqe),
    /// A call on another thread.
    Blocking,
}

/// How a pushed operation goes on.
#[derive(Clone, Copy, Debug, PartialEq, Eq, Structural)]
pub enum Route {
    /// Push its entry.
    Submit,
    /// Let it make its fallback entry, and ask again.
    Fallback,
    /// Dispatch it to another thread.
    Blocking,
}

/// The request to cancel `key`.
pub open spec fn cancel_request(key: Key) -> Sqe {
    tagged_entry(async_cancel_entry(key), CANCEL)
}

/// The multishot request that reports the notifier `fd`.
pub open spec fn notifier_request(fd: i32) -> Sqe {
    tagged_entry(poll_add_entry(fd, os::POLLIN, true), NOTIFY)
}

/// How an operation goes on whose entry asks for the operation with this code,
/// or for a call on another thread. The entry is pushed where the ring can run
/// it, else the operation falls back once, else it runs on another thread.
pub open spec fn route_of(code: Option<u32>, probe: Probe, has_fallbacked: bool) -> Route {
    match code {
        Some(code) => if probe.has(code as u8) {
            Route::Submit
        } else if !has_fallbacked {
            Route::Fallback
        } else {
            Route::Blocking
        },
        None => Route::Blocking,
    }
}

/// Decides how an operation goes on, from the code that its entry asks for.
/// Codes fit in a byte.
pub fn route(code: Option<u32>, probe: &Probe, has_fallbacked: bool) -> (route: Route)
    ensures
        route == route_of(code, *probe, has_fallbacked),
{
    match code {
        Some(code) => {
            #[verifier::truncate]
            let code: u8 = code as u8;
            if probe.is_op_supported(code) {
                Route::Submit
            } else if !has_fallbacked {
                Route::Fallback
            } else {
                Route::Blocking
            }
        },
        None => Route::Blocking,
    }
}

/// What an enter call that waited for `want` completions came to.
/// `none_shown` tells whether the ring showed no completion afterwards.
pub open spec fn submit_result(
    want: u32,
    none_shown: bool,
    entered: Result<usize, Error>,
) -> Result<(), Error> {
    match entered {
        Ok(_) => if want > 0 && none_shown {
            Err(kind_error(ErrorKind::TimedOut))
        } else {
            Ok(())
        },
        Err(e) => if e.code_of() == Some(os::ETIME) {
            Err(kind_error(ErrorKind::TimedOut))
        } else if e.code_of() == Some(os::EBUSY) || e.code_of() == Some(os::EAGAIN) {
            Err(kind_error(ErrorKind::Interrupted))
        } else {
            Err(e)
        },
    }
}

/// Low-level driver of io-uring.
pub struct Driver {
    /// Keys handed to the ring as tags; terminal completions release them.
    in_flight: HashSet<Key>,
    pending_cancel: HashSet<Key>,
    owner_completed: VecDeque<OwnerCompletion>,
    owner_capacity: usize,
    /// The multishot notifier request is no longer armed and must be re-pushed
    /// before the next wait.
    need_push_notifier: bool,
    /// Blocking waits are marked so that an idle ring is not charged as iowait.
    no_iowait: bool,
    features: Features,
    completed: Channel,
}

impl View for Driver {
    type V = State;

    closed spec fn view(&self) -> State {
        State {
            in_flight: self.in_flight@,
            pending_cancel: self.pending_cancel@,
            lane: self.owner_completed@,
            capacity: self.owner_capacity,
            need_push_notifier: self.need_push_notifier,
            no_iowait: self.no_iowait,
            features: self.features,
        }
    }
}

impl Driver {
    /// What passed through the channel of finished operations.
    pub closed spec fn traffic(&self) -> Traffic {
        self.completed@
    }

    /// What is sent through `end` arrives in the driver's channel.
    pub open spec fn fed_by(&self, end: flume::Sender<Entry>) -> bool {
        self.traffic().feeders.contains(end)
    }

    /// A driver on a ring that was set up as the settings say.
    pub fn new(builder: &ProactorBuilder, features: Features) -> (driver: Driver)
        ensures
            driver@ == State::fresh(builder.sqpoll_idle is Some, features),
            driver@.wf(),
            driver.traffic().fresh(),
    {
        // Marking waits is meaningless under a kernel submission thread: the
        // polling thread, not an `enter` wait, drives submission, so there is
        // no wait for a completion to mark.
        Driver {
            in_flight: HashSet::new(),
            pending_cancel: HashSet::new(),
            owner_completed: VecDeque::new(),
            owner_capacity: 0,
            need_push_notifier: true,
            no_iowait: builder.sqpoll_idle.is_none() && features.no_iowait,
            features,
            completed: Channel::new(),
        }
    }

    /// This is the driver of io-uring.
    pub fn driver_type(&self) -> (kind: DriverType)
        ensures
            kind == DriverType::IoUring,
    {
        DriverType::IoUring
    }

    /// This driver, as it is one of io-uring.
    pub fn as_iour(&self) -> (driver: Option<&Self>)
        ensures
            driver == Some(self),
    {
        Some(self)
    }

    /// This driver, as it is one of io-uring.
    pub fn as_iour_mut(&mut self) -> (driver: Option<&mut Self>)
        ensures
            driver is Some,
            *(driver->0) == *old(self),
            *final(self) == *final(driver->0),
    {
        Some(self)
    }

    /// Another sending end of the channel, for a thread that runs an operation.
    pub fn completer(&mut self) -> (end: flume::Sender<Entry>)
        ensures
            old(self).traffic().linked ==> final(self).fed_by(end),
            sent(end) == Seq::<Entry>::empty(),
            final(self)@ == old(self)@,
            final(self).traffic() == old(self).traffic().sharing(),
    {
        self.completed.sender()
    }

    /// Why a lane of `capacity` cannot be opened, if it cannot.
    pub fn owner_refusal(&self, capacity: usize) -> (refusal: Option<Error>)
        ensures
            refusal == self@.lane_refusal(capacity),
    {
        if !self.features.nodrop || self.features.sqpoll {
            Some(
                Error::new(
                    ErrorKind::Unsupported,
                    "owner lane requires IORING_FEAT_NODROP without SQPOLL",
                ),
            )
        } else if capacity == 0 || self.owner_capacity != 0 {
            Some(
                Error::new(
                    ErrorKind::InvalidInput,
                    "invalid or already initialized owner capacity",
                ),
            )
        } else {
            None
        }
    }

    /// Opens the owner lane, which holds at most `capacity` completions. The
    /// memory of the lane is reserved at once, so it has to be addressable.
    pub fn owner_init(&mut self, capacity: usize) -> (opened: Result<(), Error>)
        requires
            old(self)@.lane_refusal(capacity) is None ==> capacity * 16 <= isize::MAX,
        ensures
            opened == (match old(self)@.lane_refusal(capacity) {
                Some(error) => Err::<(), Error>(error),
                None => Ok(()),
            }),
            final(self)@ == (if opened is Ok {
                old(self)@.lane_opened(capacity)
            } else {
                old(self)@
            }),
            old(self)@.wf() ==> final(self)@.wf(),
            final(self).traffic() == old(self).traffic(),
    {
        if let Some(error) = self.owner_refusal(capacity) {
            return Err(error);
        }
        self.owner_completed = VecDeque::with_capacity(capacity);
        self.owner_capacity = capacity;
        Ok(())
    }

    /// Tags an entry of the owner, to be offered to the submission queue after
    /// the pending cancellations.
    pub fn owner_push(&self, entry: Sqe, token: u64) -> (tagged: Result<Sqe, Error>)
        ensures
            tagged == (if !self@.owned() || token >= TOKEN_LIMIT {
                Err::<Sqe, Error>(
                    Error::Custom {
                        kind: ErrorKind::InvalidInput,
                        message: "owner lane uninitialized or token reserved",
                    },
                )
            } else {
                Ok(tagged_entry(entry, owner_tag(token)))
            }),
            tagged matches Ok(e) ==> user_data_of(e) == owner_tag(token) && opcode_of(e)
                == opcode_of(entry),
    {
        if self.owner_capacity == 0 || token >= TOKEN_LIMIT {
            return Err(
                Error::new(
                    ErrorKind::InvalidInput,
                    "owner lane uninitialized or token reserved",
                ),
            );
        }
        Ok(sqe::tag(entry, tag_of_token(token)))
    }

    /// Moves the oldest completions of the lane to `out`, at most `limit` of
    /// them. Returns how many.
    pub fn owner_drain(&mut self, out: &mut Vec<OwnerCompletion>, limit: usize) -> (n: usize)
        ensures
            n == old(self)@.share(limit),
            final(out)@ == old(out)@ + old(self)@.lane.take(n as int),
            final(self)@ == old(self)@.lane_drained(n as int),
            old(self)@.wf() ==> final(self)@.wf(),
            final(self).traffic() == old(self).traffic(),
    {
        let len: usize = self.owner_completed.len();
        let n: usize = if limit < len {
            limit
        } else {
            len
        };
        let ghost lane = self@.lane;
        let mut i: usize = 0;
        assert(lane.skip(0) =~= lane);
        assert(out@ =~= old(out)@ + lane.take(0));
        while i < n
            invariant
                i <= n <= lane.len(),
                lane == old(self)@.lane,
                self@ == old(self)@.lane_drained(i as int),
                out@ == old(out)@ + lane.take(i as int),
                self.traffic() == old(self).traffic(),
            decreases n - i,
        {
            if let Some(completion) = self.owner_completed.pop_front() {
                assert(completion == lane[i as int]);
                out.push(completion);
            }
            i = i + 1;
            assert(self.owner_completed@ =~= lane.skip(i as int));
            assert(out@ =~= old(out)@ + lane.take(i as int));
        }
        n
    }

    /// Fails when the ring lost completions while there is a lane.
    pub fn check_owner_completions(&self, overflow: u32) -> (checked: Result<(), Error>)
        ensures
            checked == self@.loss(overflow),
    {
        if self.owner_capacity != 0 && overflow != 0 {
            return Err(
                Error::new(
                    ErrorKind::Other,
                    "io-uring lost CQEs; retain all in-flight owner resources",
                ),
            );
        }
        Ok(())
    }

    /// Tells what became of an entry of the owner that was offered to the
    /// submission queue.
    pub fn owner_pushed(&self, accepted: bool) -> (pushed: Result<(), Error>)
        ensures
            pushed == (if accepted {
                Ok(())
            } else {
                Err::<(), Error>(kind_error(ErrorKind::WouldBlock))
            }),
    {
        if accepted {
            Ok(())
        } else {
            Err(Error::from_kind(ErrorKind::WouldBlock))
        }
    }

    /// The enter call that drives the owner's completions. It never waits, but
    /// has to ask for completions even without submissions, to flush what the
    /// completion queue could not take and to run deferred work.
    pub fn owner_submission(&self) -> (submission: Submission)
        ensures
            submission == (Submission {
                want: 0,
                timeout: None,
                flags: Some(enter_bits(false, false)),
            }),
    {
        Submission { want: 0, timeout: None, flags: Some(enter_flags(false, false)) }
    }

    /// Tells what that enter call came to, after the completions were taken in.
    /// Pressure on the completion queue and interruptions are retryable: the
    /// owner drains its bounded lane before the next attempt.
    pub fn owner_progress(&self, entered: Result<usize, Error>, overflow: u32) -> (progress: Result<
        (),
        Error,
    >)
        ensures
            progress == self@.progress(entered, overflow),
    {
        match self.check_owner_completions(overflow) {
            Err(e) => Err(e),
            Ok(_) => match entered {
                Ok(_) => Ok(()),
                Err(e) => match e.raw_os_error() {
                    Some(code) => if code == os::ebusy() || code == os::eagain() || code
                        == os::eintr() {
                        Ok(())
                    } else {
                        Err(e)
                    },
                    None => Err(e),
                },
            },
        }
    }

    /// How many completions may be taken from the ring without overfilling the
    /// owner lane, whatever they are.
    pub fn room(&self) -> (room: usize)
        ensures
            room == (if !self@.owned() {
                usize::MAX as int
            } else if self@.full() {
                0
            } else {
                self@.capacity - self@.lane.len()
            }),
    {
        if self.owner_capacity == 0 {
            usize::MAX
        } else if self.owner_completed.len() >= self.owner_capacity {
            0
        } else {
            self.owner_capacity - self.owner_completed.len()
        }
    }

    /// Takes in the completions that the ring shows, in order, until there are
    /// no more or the owner lane is full. Returns whether the ring showed any,
    /// and whom each one taken in belongs to.
    pub fn poll_entries(&mut self, shown: &mut VecDeque<Completion>) -> (taken: (
        bool,
        Vec<Dispatch>,
    ))
        ensures
            taken.0 == (old(shown)@.len() > 0),
            old(self)@.wf() ==> final(self)@.wf(),
            old(self)@.takes(old(shown)@, taken.1@.len()),
            final(shown)@ == old(shown)@.skip(taken.1@.len() as int),
            taken.1@ == old(shown)@.take(taken.1@.len() as int).map_values(
                |c: Completion| dispatch_of(c),
            ),
            final(self)@ == old(self)@.took_all(old(shown)@.take(taken.1@.len() as int)),
            final(self).traffic() == old(self).traffic(),
    {
        let has_entry = shown.len() > 0;
        let mut taken: Vec<Dispatch> = Vec::new();
        let ghost all = shown@;
        assert(all.skip(0) =~= all);
        while self.owner_capacity == 0 || self.owner_completed.len() < self.owner_capacity
            invariant
                all == old(shown)@,
                taken@.len() <= all.len(),
                shown@ == all.skip(taken@.len() as int),
                taken@ == all.take(taken@.len() as int).map_values(
                    |c: Completion| dispatch_of(c),
                ),
                self@ == old(self)@.took_all(all.take(taken@.len() as int)),
                forall|i: int|
                    0 <= i < taken@.len() ==> !(#[trigger] old(self)@.took_all(
                        all.take(i),
                    )).full(),
                self.traffic() == old(self).traffic(),
                has_entry == (all.len() > 0),
                old(self)@.wf() ==> self@.wf(),
            decreases shown@.len(),
        {
            let ghost n = taken@.len() as int;
            let completion = match shown.pop_front() {
                Some(completion) => completion,
                None => {
                    assert(n == all.len());
                    return (has_entry, taken);
                },
            };
            assert(completion == all[n]);
            assert(shown@ =~= all.skip(n + 1));
            assert(all.take(n + 1).drop_last() =~= all.take(n));
            let dispatch = dispatch(&completion);
            match dispatch {
                Dispatch::Acknowledged => {},
                Dispatch::Notified { armed } => {
                    if !armed {
                        self.need_push_notifier = true;
                    }
                },
                Dispatch::Owner(owned) => {
                    self.owner_completed.push_back(owned);
                },
                Dispatch::Multishot(_) => {},
                Dispatch::Finished(entry) => {
                    self.in_flight.remove(&entry.key);
                    self.pending_cancel.remove(&entry.key);
                },
            }
            taken.push(dispatch);
            assert(taken@ =~= all.take(n + 1).map_values(|c: Completion| dispatch_of(c)));
        }
        (has_entry, taken)
    }

    /// Descriptors need no preparation.
    pub fn attach(&mut self, fd: RawFd) -> (attached: Result<(), Error>)
        ensures
            attached is Ok,
            *final(self) == *old(self),
    {
        Ok(())
    }

    /// Remembers to cancel an operation, if it is in flight. Returns whether the
    /// pending cancellations are to be pushed.
    pub fn cancel(&mut self, key: Key) -> (push: bool)
        ensures
            push == old(self)@.in_flight.contains(key),
            final(self)@ == old(self)@.cancelling(key),
            old(self)@.wf() ==> final(self)@.wf(),
            final(self).traffic() == old(self).traffic(),
    {
        if self.in_flight.contains(&key) {
            // Deduplicated and bounded by the operations already alive.
            self.pending_cancel.insert(key);
            true
        } else {
            false
        }
    }

    /// An operation whose cancellation is pending, where there is one.
    fn next_cancel(&self) -> (next: Option<Key>)
        ensures
            next is None <==> self@.pending_cancel.is_empty(),
            next matches Some(key) ==> self@.pending_cancel.contains(key),
    {
        for key in iter: self.pending_cancel.iter()
            invariant
                iter.seq().unref().to_set() == self.pending_cancel@,
                iter.index() == 0,
        {
            assert(iter.seq().unref()[0] == *key);
            assert(self.pending_cancel@.contains(*key));
            return Some(*key);
        }
        assert(self.pending_cancel@ =~= Set::empty());
        None
    }

    /// Takes in whether the submission queue accepted the last cancellation
    /// request, and returns the next one, with the operation it cancels. There
    /// is none when the queue is full or no cancellation is pending; which of
    /// several pending ones comes next is open.
    pub fn push_pending_cancels(&mut self, event: Cancelling) -> (next: Option<(Key, Sqe)>)
        ensures
            final(self)@ == (match event {
                Cancelling::Offered { key, accepted: true } => old(self)@.cancel_submitted(key),
                _ => old(self)@,
            }),
            next is None <==> (event matches Cancelling::Offered { accepted: false, .. })
                || final(self)@.pending_cancel.is_empty(),
            next matches Some((key, entry)) ==> final(self)@.pending_cancel.contains(key) && entry
                == cancel_request(key) && user_data_of(entry) == CANCEL,
            old(self)@.wf() ==> final(self)@.wf(),
            final(self).traffic() == old(self).traffic(),
    {
        match event {
            Cancelling::Begin => {},
            Cancelling::Offered { key, accepted } => {
                if !accepted {
                    return None;
                }
                self.pending_cancel.remove(&key);
            },
        }
        match self.next_cancel() {
            Some(key) => Some((key, sqe::tag(sqe::async_cancel(key), CANCEL))),
            None => None,
        }
    }

    /// Decides how an operation goes on whose entry has been made.
    /// `has_fallbacked` tells whether it is already the fallback.
    pub fn push(&self, entry: &OpEntry, probe: &Probe, has_fallbacked: bool) -> (decided: Route)
        ensures
            decided == route_of(
                match *entry {
                    OpEntry::Submission(entry) => Some(opcode_of(entry)),
                    OpEntry::Blocking => None,
                },
                *probe,
                has_fallbacked,
            ),
    {
        match entry {
            OpEntry::Submission(entry) => route(Some(sqe::opcode(entry)), probe, has_fallbacked),
            OpEntry::Blocking => route(None, probe, has_fallbacked),
        }
    }

    /// Tags the entry of an operation with its key, which has to be aligned.
    pub fn tag_operation(&self, entry: Sqe, key: Key) -> (tagged: Sqe)
        requires
            key % 2 == 0,
        ensures
            tagged == tagged_entry(entry, key),
            user_data_of(tagged) == key,
            opcode_of(tagged) == opcode_of(entry),
    {
        sqe::tag(entry, key)
    }

    /// Takes in whether the entry of an operation was pushed, which was tagged
    /// with its aligned key. Only then is the operation in flight.
    pub fn push_raw_with_key(&mut self, key: Key, pushed: Result<(), Error>) -> (outcome: Poll<
        Result<usize, Error>,
    >)
        requires
            key % 2 == 0,
        ensures
            outcome == (match pushed {
                Ok(_) => Poll::Pending,
                Err(e) => Poll::Ready(Err::<usize, Error>(e)),
            }),
            final(self)@ == (if pushed is Ok {
                old(self)@.launched(key)
            } else {
                old(self)@
            }),
            old(self)@.wf() ==> final(self)@.wf(),
            final(self).traffic() == old(self).traffic(),
    {
        match pushed {
            Ok(_) => {
                self.in_flight.insert(key);
                Poll::Pending
            },
            Err(e) => Poll::Ready(Err(e)),
        }
    }

    /// Decides the next step towards pushing an entry. While the submission
    /// queue is full, it is submitted and completions are taken in to make room,
    /// until the owner lane is full too.
    pub fn push_raw(&self, event: PushEvent) -> (action: PushAction)
        ensures
            action == self@.push_step(event),
    {
        match event {
            PushEvent::Begin => PushAction::Offer,
            PushEvent::Offered { accepted } => if accepted {
                PushAction::Return(Ok(()))
            } else {
                PushAction::Submit
            },
            PushEvent::Submitted(Ok(_)) => PushAction::Poll,
            PushEvent::Submitted(Err(e)) => match e.kind() {
                Some(kind) => if kind == ErrorKind::TimedOut || kind == ErrorKind::Interrupted {
                    PushAction::Poll
                } else {
                    PushAction::Return(Err(e))
                },
                None => PushAction::Return(Err(e)),
            },
            PushEvent::Polled { full } => if self.owner_capacity != 0
                && self.owner_completed.len() == self.owner_capacity && full {
                PushAction::Return(Err(Error::from_kind(ErrorKind::WouldBlock)))
            } else {
                PushAction::Offer
            },
        }
    }

    /// Decides the enter call of a turn, after the pending cancellations were
    /// pushed. `taskrun` tells whether the ring has completion work to run;
    /// there are completions to handle then, so there is no need to wait.
    ///
    /// Only a wait that can actually sleep is charged as iowait; a zero timeout
    /// returns immediately, so it keeps the plain path.
    pub fn submit_auto(
        &self,
        timeout: Option<Duration>,
        need_wait: bool,
        taskrun: bool,
    ) -> (submission: Submission)
        ensures
            submission == self@.submission(timeout, need_wait, taskrun),
    {
        let want: u32 = if !need_wait || !self.pending_cancel.is_empty() || taskrun {
            0
        } else {
            1
        };
        let zero = match timeout {
            Some(duration) => duration == Duration::zero(),
            None => false,
        };
        let can_block = want > 0 && !zero;
        let no_iowait = self.no_iowait && can_block;
        let flags = if self.owner_capacity != 0 || no_iowait {
            Some(enter_flags(no_iowait, timeout.is_some()))
        } else {
            None
        };
        Submission { want, timeout, flags }
    }

    /// Tells what the enter call of a turn came to.
    pub fn submitted(
        &self,
        want: u32,
        none_shown: bool,
        entered: Result<usize, Error>,
    ) -> (outcome: Result<(), Error>)
        ensures
            outcome == submit_result(want, none_shown, entered),
    {
        match entered {
            Ok(_) => if want > 0 && none_shown {
                Err(Error::from_kind(ErrorKind::TimedOut))
            } else {
                Ok(())
            },
            Err(e) => match e.raw_os_error() {
                Some(code) => if code == os::etime() {
                    Err(Error::from_kind(ErrorKind::TimedOut))
                } else if code == os::ebusy() || code == os::eagain() {
                    Err(Error::from_kind(ErrorKind::Interrupted))
                } else {
                    Err(e)
                },
                None => Err(e),
            },
        }
    }

    /// Tells whether the caller should poll right away instead of waiting: the
    /// submission failed, or a notification was pending.
    pub fn flush(&self, submitted: Result<(), Error>, notified: bool) -> (busy: bool)
        ensures
            busy == (submitted is Err || notified),
    {
        submitted.is_err() || notified
    }

    /// Takes the finished operations out of the channel, to be notified.
    pub fn poll_blocking(&mut self) -> (entries: Vec<Entry>)
        ensures
            final(self)@ == old(self)@,
            final(self).traffic() == old(self).traffic().receiving(entries@),
            old(self).traffic().linked ==> final(self).traffic().delivered(),
            old(self).traffic().linked && old(self).traffic().alone
                ==> final(self).traffic().received == old(self).traffic().sent,
    {
        self.completed.receive()
    }

    /// Begins a turn, unless the ring lost completions of the owner: takes the
    /// finished operations out of the channel, to be notified, and tells how to
    /// go on.
    pub fn poll(&mut self, overflow: u32) -> (next: (Vec<Entry>, Turn))
        ensures
            old(self)@.loss(overflow) matches Err(e) ==> next.0@.len() == 0 && next.1
                == Turn::Return(Err(e)) && final(self).traffic() == old(self).traffic(),
            old(self)@.loss(overflow) is Ok ==> {
                &&& next.1 == old(self)@.turn(next.0@.len() > 0)
                &&& final(self).traffic() == old(self).traffic().receiving(next.0@)
                &&& old(self).traffic().linked ==> final(self).traffic().delivered()
                &&& old(self).traffic().linked && old(self).traffic().alone
                    ==> final(self).traffic().received == old(self).traffic().sent
            },
            final(self)@ == old(self)@,
    {
        if let Err(e) = self.check_owner_completions(overflow) {
            return (Vec::new(), Turn::Return(Err(e)));
        }
        let entries = self.poll_blocking();
        let turn = self.poll_drained(entries.len() > 0);
        (entries, turn)
    }

    /// Decides how a turn goes on when `blocking` operations were finished by
    /// other threads or not.
    pub fn poll_drained(&self, blocking: bool) -> (turn: Turn)
        ensures
            turn == self@.turn(blocking),
    {
        if blocking && self.owner_capacity == 0 {
            Turn::Return(Ok(()))
        } else if blocking {
            Turn::Proceed
        } else {
            Turn::Reset
        }
    }

    /// Decides whether a turn waits. It does not when operations were finished by
    /// other threads, when a notification was pending as the notifier was reset,
    /// or while the owner has completions to drain.
    pub fn wait_after(&self, turn: Turn, notified: bool) -> (wait: bool)
        ensures
            wait == self@.waits(turn, notified),
    {
        match turn {
            Turn::Reset => !notified && self.owner_completed.len() == 0,
            _ => false,
        }
    }

    /// The request that arms the notifier `fd`, where it has to be pushed.
    pub fn notifier_entry(&self, fd: i32) -> (entry: Option<Sqe>)
        ensures
            entry == (if self@.need_push_notifier {
                Some(notifier_request(fd))
            } else {
                None
            }),
            entry matches Some(e) ==> user_data_of(e) == NOTIFY,
    {
        if self.need_push_notifier {
            Some(sqe::tag(sqe::poll_add(fd, os::pollin(), true), NOTIFY))
        } else {
            None
        }
    }

    /// Records that the request was pushed.
    pub fn notifier_pushed(&mut self)
        ensures
            final(self)@ == (State { need_push_notifier: false, ..old(self)@ }),
            old(self)@.wf() ==> final(self)@.wf(),
            final(self).traffic() == old(self).traffic(),
    {
        self.need_push_notifier = false;
    }

    /// Whether every operation is known to be finished, so that what they use
    /// may be released: none is in flight, and no completion was lost.
    pub fn quiesce(&self, overflow: u32) -> (released: bool)
        ensures
            released == (self@.in_flight.is_empty() && overflow == 0),
    {
        self.in_flight.is_empty() && overflow == 0
    }
}

} // verus!

//! What the driver knows, and how each completion changes it.

use crate::completion::Key;
use crate::config::Duration;
use crate::error::{Error, ErrorKind, kind_error};
use crate::iour::cqe::{Completion, Dispatch, OwnerCompletion, dispatch_of};
use crate::iour::sqe::enter_bits;
use crate::os;
use vstd::prelude::*;

verus! {

/// What came of the last step towards pushing an entry.
#[derive(Clone, Copy, Debug, PartialEq, Eq)]
pub enum PushEvent {
    /// Nothing was tried yet.
    Begin,
    /// The entry was offered to the submission queue.
    Offered { accepted: bool },
    /// The queue was submitted, to make room.
    Submitted(Result<(), Error>),
    /// The completions were taken in. `full` tells whether the submission queue
    /// is still full.
    Polled { full: bool },
}

/// The next step towards pushing an entry.
#[derive(Clone, Copy, Debug, PartialEq, Eq)]
pub enum PushAction {
    /// Push the pending cancellations, then offer the entry.
    Offer,
    /// Submit without sleeping, to make room.
    Submit,
    /// Take in the completions.
    Poll,
    /// Report the outcome.
    Return(Result<(), Error>),
}

/// One enter call.
#[derive(Clone, Copy, Debug, PartialEq, Eq)]
pub struct Submission {
    /// How many completions to wait for.
    pub want: u32,
    /// How long to wait for them.
    pub timeout: Option<Duration>,
    /// The flags of the call, where it does not leave them to the ring.
    pub flags: Option<u32>,
}

/// How a turn goes on after the finished operations were taken out of the
/// channel.
#[derive(Clone, Copy, Debug, PartialEq, Eq)]
pub enum Turn {
    /// The turn is over.
    Return(Result<(), Error>),
    /// Go on without waiting.
    Proceed,
    /// Reset the notifier to learn whether to wait.
    Reset,
}

/// What the ring was set up with.
#[derive(Clone, Copy, Debug, PartialEq, Eq, Structural)]
pub struct Features {
    /// Completions are kept when the completion queue overflows.
    pub nodrop: bool,
    /// A kernel thread polls the submission queue.
    pub sqpoll: bool,
    /// Waits need not be charged as iowait.
    pub no_iowait: bool,
}

/// The operations in flight, the cancellations to submit and the owner lane.
#[verifier::ext_equal]
pub struct State {
    /// Keys that the ring holds.
    pub in_flight: Set<Key>,
    /// Keys whose cancellation is still to be submitted.
    pub pending_cancel: Set<Key>,
    /// Completions that the owner has yet to drain, oldest first.
    pub lane: Seq<OwnerCompletion>,
    /// How many completions the lane holds at most, or 0 without a lane.
    pub capacity: usize,
    /// The notifier's poll request has to be pushed before the next wait.
    pub need_push_notifier: bool,
    /// Blocking waits are not charged as iowait.
    pub no_iowait: bool,
    pub features: Features,
}

impl State {
    /// A driver on a new ring: nothing is in flight, there is no lane, and the
    /// notifier is not armed. Waits are kept from being charged as iowait where
    /// the ring can do so and no kernel thread submits.
    pub open spec fn fresh(sqpoll: bool, features: Features) -> State {
        State {
            in_flight: Set::empty(),
            pending_cancel: Set::empty(),
            lane: Seq::empty(),
            capacity: 0,
            need_push_notifier: true,
            no_iowait: !sqpoll && features.no_iowait,
            features,
        }
    }

    /// The invariant of the driver. Keys in flight are told apart from the
    /// owner's tags, only operations in flight are about to be cancelled, and the
    /// lane keeps its bound.
    pub open spec fn wf(self) -> bool {
        &&& self.in_flight.finite()
        &&& forall|key: Key| #[trigger] self.in_flight.contains(key) ==> key % 2 == 0
        &&& self.pending_cancel.subset_of(self.in_flight)
        &&& self.owned() ==> self.lane.len() <= self.capacity
    }

    /// There is an owner lane.
    pub open spec fn owned(self) -> bool {
        self.capacity != 0
    }

    /// There is a lane, and it takes no further completion.
    pub open spec fn full(self) -> bool {
        self.owned() && self.lane.len() >= self.capacity
    }

    /// Why a lane of `capacity` cannot be opened, if it cannot.
    pub open spec fn lane_refusal(self, capacity: usize) -> Option<Error> {
        if !self.features.nodrop || self.features.sqpoll {
            Some(
                Error::Custom {
                    kind: ErrorKind::Unsupported,
                    message: "owner lane requires IORING_FEAT_NODROP without SQPOLL",
                },
            )
        } else if capacity == 0 || self.owned() {
            Some(
                Error::Custom {
                    kind: ErrorKind::InvalidInput,
                    message: "invalid or already initialized owner capacity",
                },
            )
        } else {
            None
        }
    }

    /// There is an empty lane of `capacity`.
    pub open spec fn lane_opened(self, capacity: usize) -> State {
        State { lane: Seq::empty(), capacity, ..self }
    }

    /// How many completions the owner gets when it asks for `limit`.
    pub open spec fn share(self, limit: usize) -> int {
        if limit < self.lane.len() {
            limit as int
        } else {
            self.lane.len() as int
        }
    }

    /// The owner took the `n` oldest completions.
    pub open spec fn lane_drained(self, n: int) -> State {
        State { lane: self.lane.skip(n), ..self }
    }

    /// What to report when the ring lost `overflow` completions: with a lane,
    /// none may be lost.
    pub open spec fn loss(self, overflow: u32) -> Result<(), Error> {
        if self.owned() && overflow != 0 {
            Err(
                Error::Custom {
                    kind: ErrorKind::Other,
                    message: "io-uring lost CQEs; retain all in-flight owner resources",
                },
            )
        } else {
            Ok(())
        }
    }

    /// What an enter call of the owner came to. Pressure on the completion queue
    /// and interruptions are no failure: the owner drains its lane and tries
    /// again.
    pub open spec fn progress(self, entered: Result<usize, Error>, overflow: u32) -> Result<
        (),
        Error,
    > {
        match self.loss(overflow) {
            Err(e) => Err(e),
            Ok(_) => match entered {
                Ok(_) => Ok(()),
                Err(e) => if e.code_of() == Some(os::EBUSY) || e.code_of() == Some(os::EAGAIN)
                    || e.code_of() == Some(os::EINTR) {
                    Ok(())
                } else {
                    Err(e)
                },
            },
        }
    }

    /// The enter call of a turn. It does not wait while there is a cancellation
    /// to submit or completion work to run. With a lane every call drives
    /// completions.
    pub open spec fn submission(
        self,
        timeout: Option<Duration>,
        need_wait: bool,
        taskrun: bool,
    ) -> Submission {
        let sleeps = need_wait && self.pending_cancel.is_empty() && !taskrun;
        let no_iowait = self.no_iowait && sleeps && timeout != Some(Duration::zero_span());
        Submission {
            want: if sleeps {
                1
            } else {
                0
            },
            timeout,
            flags: if self.owned() || no_iowait {
                Some(enter_bits(no_iowait, timeout is Some))
            } else {
                None
            },
        }
    }

    /// The next step towards pushing an entry.
    pub open spec fn push_step(self, event: PushEvent) -> PushAction {
        match event {
            PushEvent::Begin => PushAction::Offer,
            PushEvent::Offered { accepted } => if accepted {
                PushAction::Return(Ok(()))
            } else {
                PushAction::Submit
            },
            PushEvent::Submitted(Ok(_)) => PushAction::Poll,
            PushEvent::Submitted(Err(e)) => if e.kind_of() == Some(ErrorKind::TimedOut)
                || e.kind_of() == Some(ErrorKind::Interrupted) {
                PushAction::Poll
            } else {
                PushAction::Return(Err(e))
            },
            PushEvent::Polled { full } => if self.owned() && self.lane.len() == self.capacity
                && full {
                PushAction::Return(Err(kind_error(ErrorKind::WouldBlock)))
            } else {
                PushAction::Offer
            },
        }
    }

    /// How a turn goes on when `blocking` operations were finished by other
    /// threads or not.
    pub open spec fn turn(self, blocking: bool) -> Turn {
        if blocking && !self.owned() {
            Turn::Return(Ok(()))
        } else if blocking {
            Turn::Proceed
        } else {
            Turn::Reset
        }
    }

    /// The turn waits: no operation was finished by another thread, no
    /// notification was pending, and the owner has nothing to drain.
    pub open spec fn waits(self, turn: Turn, notified: bool) -> bool {
        turn == Turn::Reset && !notified && self.lane.len() == 0
    }

    /// `key` is in flight.
    pub open spec fn launched(self, key: Key) -> State {
        State { in_flight: self.in_flight.insert(key), ..self }
    }

    /// The cancellation of `key` is to be submitted, if `key` is in flight.
    pub open spec fn cancelling(self, key: Key) -> State {
        if self.in_flight.contains(key) {
            State { pending_cancel: self.pending_cancel.insert(key), ..self }
        } else {
            self
        }
    }

    /// The cancellation of `key` was submitted.
    pub open spec fn cancel_submitted(self, key: Key) -> State {
        State { pending_cancel: self.pending_cancel.remove(key), ..self }
    }

    /// One completion was taken in.
    pub open spec fn took(self, completion: Completion) -> State {
        match dispatch_of(completion) {
            Dispatch::Acknowledged => self,
            Dispatch::Notified { armed } => State {
                need_push_notifier: self.need_push_notifier || !armed,
                ..self
            },
            Dispatch::Owner(owned) => State { lane: self.lane.push(owned), ..self },
            Dispatch::Multishot(_) => self,
            Dispatch::Finished(entry) => State {
                in_flight: self.in_flight.remove(entry.key),
                pending_cancel: self.pending_cancel.remove(entry.key),
                ..self
            },
        }
    }

    /// Several completions were taken in.
    pub open spec fn took_all(self, completions: Seq<Completion>) -> State
        decreases completions.len(),
    {
        if completions.len() == 0 {
            self
        } else {
            self.took_all(completions.drop_last()).took(completions.last())
        }
    }

    /// The driver takes in exactly the first `n` of the completions that the
    /// ring shows: it stops when there are no more or when the lane is full, and
    /// not before.
    pub open spec fn takes(self, shown: Seq<Completion>, n: nat) -> bool {
        &&& n <= shown.len()
        &&& n == shown.len() || self.took_all(shown.take(n as int)).full()
        &&& forall|i: int|
            0 <= i < n ==> !(#[trigger] self.took_all(shown.take(i))).full()
    }
}

/// Taking in one completion keeps the invariant, unless the lane is full.
pub proof fn lemma_took(s: State, completion: Completion)
    requires
        s.wf(),
        !s.full(),
    ensures
        s.took(completion).wf(),
{
}

} // verus!

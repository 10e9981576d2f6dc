//! File descriptors, interests and retried system calls.

use crate::error::Error;
use crate::os;
use vstd::prelude::*;

verus! {

/// A file descriptor number.
pub type RawFd = i32;

/// The interest to poll a file descriptor.
#[derive(Clone, Copy, Debug, PartialEq, Eq, Structural)]
pub enum Interest {
    /// Represents a read operation.
    Readable,
    /// Represents a write operation.
    Writable,
}

/// A special file descriptor that always refers to the current working
/// directory. It represents `AT_FDCWD` in libc.
#[derive(Clone, Copy, Debug, PartialEq, Eq)]
pub struct CurrentDir;

impl CurrentDir {
    /// The number of the descriptor.
    pub fn as_raw_fd(&self) -> (fd: RawFd)
        ensures
            fd == os::AT_FDCWD,
    {
        os::cwd()
    }
}

/// What an operation came to, or that it is not finished yet.
#[derive(Debug, PartialEq, Eq)]
pub enum Poll<T> {
    Ready(T),
    Pending,
}

/// What to do after one attempt of a system call.
#[derive(Debug, PartialEq, Eq)]
pub enum Attempt<T> {
    /// The attempt settled the operation, or showed that it has to wait.
    Settled(Poll<T>),
    /// The attempt was interrupted and has to be made again.
    Retry,
}

/// The attempt has to be made again: it failed with `EINTR`.
pub open spec fn interrupted<R>(attempt: Result<R, Error>) -> bool {
    attempt matches Err(e) && e.code_of() == Some(os::EINTR)
}

/// The operation is not finished yet: the attempt failed with `EWOULDBLOCK` or
/// `EINPROGRESS`.
pub open spec fn unfinished<R>(attempt: Result<R, Error>) -> bool {
    attempt matches Err(e) && (e.code_of() == Some(os::EAGAIN) || e.code_of() == Some(
        os::EINPROGRESS,
    ))
}

/// Takes the outcome of one attempt: retry on interruption, wait if it is not
/// finished yet, or hand the result on otherwise.
pub fn poll_io<R>(attempt: Result<R, Error>) -> (next: Attempt<Result<R, Error>>)
    ensures
        next == (if interrupted(attempt) {
            Attempt::Retry
        } else if unfinished(attempt) {
            Attempt::Settled(Poll::Pending)
        } else {
            Attempt::Settled(Poll::Ready(attempt))
        }),
{
    match attempt {
        Ok(res) => Attempt::Settled(Poll::Ready(Ok(res))),
        Err(e) => {
            let number = match e.raw_os_error() {
                Some(code) => os::errno(code),
                None => None,
            };
            match number {
                Some(n) => {
                    if n == os::errno_wouldblock() || n == os::errno_inprogress() {
                        Attempt::Settled(Poll::Pending)
                    } else if n == os::errno_intr() {
                        Attempt::Retry
                    } else {
                        Attempt::Settled(Poll::Ready(Err(e)))
                    }
                },
                None => Attempt::Settled(Poll::Ready(Err(e))),
            }
        },
    }
}

/// The outcome of an operation that is attempted until it settles: that of the
/// first attempt that was not interrupted, or none while every attempt was.
pub open spec fn settled<R>(attempts: Seq<Result<R, Error>>) -> Option<Poll<Result<R, Error>>>
    decreases attempts.len(),
{
    if attempts.len() == 0 {
        None
    } else if interrupted(attempts[0]) {
        settled(attempts.skip(1))
    } else if unfinished(attempts[0]) {
        Some(Poll::Pending)
    } else {
        Some(Poll::Ready(attempts[0]))
    }
}

/// Interruptions never show: whatever number of interrupted attempts comes
/// first, the operation settles as the first other attempt does.
pub proof fn law_interruptions_are_retried<R>(
    before: Seq<Result<R, Error>>,
    attempt: Result<R, Error>,
    after: Seq<Result<R, Error>>,
)
    requires
        forall|i: int| 0 <= i < before.len() ==> interrupted(#[trigger] before[i]),
        !interrupted(attempt),
    ensures
        settled(before + seq![attempt] + after) == Some(
            if unfinished(attempt) {
                Poll::Pending
            } else {
                Poll::Ready(attempt)
            },
        ),
    decreases before.len(),
{
    let all = before + seq![attempt] + after;
    if before.len() == 0 {
        assert(all[0] == attempt);
    } else {
        assert(all[0] == before[0]);
        assert(all.skip(1) =~= before.skip(1) + seq![attempt] + after);
        law_interruptions_are_retried(before.skip(1), attempt, after);
    }
}

/// An attempt is made again exactly when it failed with `EINTR`, and shows that
/// the operation has to wait exactly when it failed with `EAGAIN` or
/// `EINPROGRESS`; one that succeeded, or failed without a number, does neither.
pub proof fn law_attempts_are_judged_by_their_number<R>(attempt: Result<R, Error>)
    ensures
        interrupted(attempt) <==> (attempt matches Err(Error::Os { code, .. }) && code
            == os::EINTR),
        unfinished(attempt) <==> (attempt matches Err(Error::Os { code, .. }) && (code
            == os::EAGAIN || code == os::EINPROGRESS)),
        attempt is Ok ==> settled(seq![attempt]) == Some(Poll::Ready(attempt)),
        settled(Seq::<Result<R, Error>>::empty()) is None,
{
}

} // verus!

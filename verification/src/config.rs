//! What a driver is made from.

use vstd::prelude::*;

verus! {

/// Which driver is in use.
#[derive(Clone, Copy, Debug, PartialEq, Eq, Structural)]
pub enum DriverType {
    /// A readiness poller.
    Poll,
    /// A completion ring.
    IoUring,
}

/// A span of time: whole seconds, and the rest in nanoseconds.
#[derive(Clone, Copy, Debug, PartialEq, Eq, Structural)]
pub struct Duration {
    pub secs: u64,
    pub nanos: u32,
}

impl Duration {
    /// The empty span.
    pub open spec fn zero_span() -> Duration {
        Duration { secs: 0, nanos: 0 }
    }

    /// The span in whole milliseconds.
    pub open spec fn millis(self) -> int {
        self.secs * 1000 + self.nanos / 1_000_000
    }

    /// The empty span.
    pub fn zero() -> (span: Duration)
        ensures
            span == Duration::zero_span(),
    {
        Duration { secs: 0, nanos: 0 }
    }

    /// The span in whole milliseconds.
    pub fn as_millis(&self) -> (millis: u128)
        ensures
            millis == self.millis(),
    {
        self.secs as u128 * 1000 + (self.nanos / 1_000_000) as u128
    }
}

/// The settings of a driver.
#[derive(Debug)]
pub struct ProactorBuilder {
    /// Submission entries of the ring, or events that one wait reports.
    pub capacity: u32,
    /// Codes of the operations that the ring has to support.
    pub op_codes: Vec<u8>,
    /// Idle time of the kernel's submission thread, where one is wanted.
    pub sqpoll_idle: Option<Duration>,
    /// The processor that thread is bound to.
    pub sqpoll_cpu: Option<u32>,
    /// Only one thread submits.
    pub single_issuer: bool,
    /// Deferred work runs only when completions are asked for.
    pub defer_taskrun: bool,
    /// Completion work does not interrupt the submitting thread.
    pub coop_taskrun: bool,
    /// The ring flags pending completion work.
    pub taskrun_flag: bool,
    /// Completion entries of the ring.
    pub cqsize: Option<u32>,
    /// An event descriptor to signal completions on.
    pub eventfd: Option<i32>,
}

/// Whole milliseconds are counted: the span is at least as long as they are, and
/// less than one longer. The empty span has no length.
pub proof fn law_millis_round_down(span: Duration)
    ensures
        span.millis() * 1_000_000 <= span.secs * 1_000_000_000 + span.nanos,
        span.secs * 1_000_000_000 + span.nanos < (span.millis() + 1) * 1_000_000,
        Duration::zero_span().secs * 1_000_000_000 + Duration::zero_span().nanos == 0,
{
}

} // verus!

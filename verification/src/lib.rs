//! Verified core of a proactor driver.
//!
//! Two drivers are provided. [`poll::driver::Driver`] keeps, for each file
//! descriptor, the queues of operations that wait for readiness, and decides
//! which registrations a readiness poller must hold. [`iour::driver::Driver`]
//! keeps the bookkeeping of a completion ring: the operations in flight, the
//! cancellations still to be submitted and the bounded owner lane.
//!
//! Neither driver performs a system call. Where one is due, a method returns
//! what has to be done, and the next method takes what came back.

pub mod completion;
pub mod config;
pub mod error;
pub mod iour;
pub mod os;
pub mod poll;
pub mod seqs;
pub mod unix;

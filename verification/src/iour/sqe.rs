//! Submission entries and the flags of the enter call.

use crate::config::Duration;
use io_uring::squeue::Entry as Sqe;
use vstd::prelude::*;

verus! {

/// Waits for completions, in the flags of the enter call.
pub const ENTER_GETEVENTS: u32 = 1;

/// The enter call has an extended argument.
pub const ENTER_EXT_ARG: u32 = 8;

/// The wait of the enter call is not charged as iowait.
pub const ENTER_NO_IOWAIT: u32 = 128;

/// A submission entry of the ring.
#[verifier::external_type_specification]
#[verifier::external_body]
pub struct ExSubmissionEntry(Sqe);

/// The entry that `io_uring::squeue::Entry::user_data` gives.
pub uninterp spec fn tagged_entry(
    entry: Sqe,
    user_data: u64,
) -> Sqe;

/// The tag that `io_uring::squeue::Entry::get_user_data` gives.
pub uninterp spec fn user_data_of(entry: Sqe) -> u64;

/// Calls `io_uring::squeue::Entry::user_data`, which sets the tag that the
/// completions of the entry will carry. The entry that comes out is determined
/// by the two arguments: it carries the tag, and asks for the same operation.
#[verifier::external_body]
pub(crate) fn tag(entry: Sqe, user_data: u64) -> (tagged:
    Sqe)
    ensures
        tagged == tagged_entry(entry, user_data),
        user_data_of(tagged) == user_data,
        opcode_of(tagged) == opcode_of(entry),
{
    entry.user_data(user_data)
}

/// The operation code that `io_uring::squeue::Entry::get_opcode` gives.
pub uninterp spec fn opcode_of(entry: Sqe) -> u32;

/// Calls `io_uring::squeue::Entry::get_opcode`, the code of the operation that
/// the entry asks for. It is determined by the entry, which holds it in a byte.
#[verifier::external_body]
pub(crate) fn opcode(entry: &Sqe) -> (code: u32)
    ensures
        code == opcode_of(*entry),
        code <= u8::MAX,
{
    entry.get_opcode()
}

/// The entry that `io_uring::opcode::AsyncCancel` builds for a target.
pub uninterp spec fn async_cancel_entry(target: u64) -> Sqe;

/// Builds an `io_uring::opcode::AsyncCancel`, a request to cancel the operation
/// whose tag is `target`. The entry that comes out is determined by the target.
#[verifier::external_body]
pub(crate) fn async_cancel(target: u64) -> (entry: Sqe)
    ensures
        entry == async_cancel_entry(target),
{
    io_uring::opcode::AsyncCancel::new(target).build()
}

/// The entry that `io_uring::opcode::PollAdd` builds.
pub uninterp spec fn poll_add_entry(
    fd: i32,
    events: u32,
    multi: bool,
) -> Sqe;

/// Builds an `io_uring::opcode::PollAdd`, a request to report `events` on `fd`,
/// once or, with `multi`, as long as it stays armed. The entry that comes out is
/// determined by the three arguments.
#[verifier::external_body]
pub(crate) fn poll_add(fd: i32, events: u32, multi: bool) -> (entry: Sqe)
    ensures
        entry == poll_add_entry(fd, events, multi),
{
    io_uring::opcode::PollAdd::new(io_uring::types::Fd(fd), events).multi(multi).build()
}

/// The time limit of a wait, as the ring takes it.
#[verifier::external_type_specification]
#[verifier::external_body]
pub struct ExTimespec(io_uring::types::Timespec);

/// The time limit that `io_uring::types::Timespec` holds.
pub uninterp spec fn timespec_of(secs: u64, nanos: u32) -> io_uring::types::Timespec;

/// Builds an `io_uring::types::Timespec` with `sec` and `nsec`. The limit that
/// comes out is determined by the two arguments.
#[verifier::external_body]
fn timespec_new(secs: u64, nanos: u32) -> (limit: io_uring::types::Timespec)
    ensures
        limit == timespec_of(secs, nanos),
{
    io_uring::types::Timespec::new().sec(secs).nsec(nanos)
}

/// The time limit of a wait, as the ring takes it.
pub fn timespec(duration: Duration) -> (limit: io_uring::types::Timespec)
    ensures
        limit == timespec_of(duration.secs, duration.nanos),
{
    timespec_new(duration.secs, duration.nanos)
}

/// Reads `io_uring::EnterFlags::GETEVENTS`; claims its bits.
#[verifier::external_body]
fn enter_getevents() -> (bits: u32)
    ensures
        bits == ENTER_GETEVENTS,
{
    io_uring::EnterFlags::GETEVENTS.bits()
}

/// Reads `io_uring::EnterFlags::EXT_ARG`; claims its bits.
#[verifier::external_body]
fn enter_ext_arg() -> (bits: u32)
    ensures
        bits == ENTER_EXT_ARG,
{
    io_uring::EnterFlags::EXT_ARG.bits()
}

/// Reads `io_uring::EnterFlags::NO_IOWAIT`; claims its bits.
#[verifier::external_body]
fn enter_no_iowait() -> (bits: u32)
    ensures
        bits == ENTER_NO_IOWAIT,
{
    io_uring::EnterFlags::NO_IOWAIT.bits()
}

/// The flags of an enter call that drives completions.
pub open spec fn enter_bits(no_iowait: bool, ext_arg: bool) -> u32 {
    (ENTER_GETEVENTS + (if ext_arg {
        ENTER_EXT_ARG as int
    } else {
        0
    }) + (if no_iowait {
        ENTER_NO_IOWAIT as int
    } else {
        0
    })) as u32
}

/// The flags of an enter call that drives completions, without being charged as
/// iowait or with an extended argument where that is wanted.
pub fn enter_flags(no_iowait: bool, ext_arg: bool) -> (flags: u32)
    ensures
        flags == enter_bits(no_iowait, ext_arg),
{
    let mut flags: u32 = enter_getevents();
    if no_iowait {
        flags = flags | enter_no_iowait();
    }
    if ext_arg {
        flags = flags | enter_ext_arg();
    }
    assert(1u32 | 128u32 == 129u32) by (bit_vector);
    assert(1u32 | 8u32 == 9u32) by (bit_vector);
    assert(129u32 | 8u32 == 137u32) by (bit_vector);
    flags
}

} // verus!

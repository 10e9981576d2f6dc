//! Completions and whom they belong to.

use crate::completion::Entry;
use crate::error::{Error, ErrorKind, os_error};
use crate::os;
use vstd::prelude::*;

verus! {

/// The tag of cancellation requests.
pub const CANCEL: u64 = 0xffff_ffff_ffff_ffff;

/// The tag of the notifier's poll request.
pub const NOTIFY: u64 = 0xffff_ffff_ffff_fffe;

/// Tokens from here on are reserved.
pub const TOKEN_LIMIT: u64 = 0x7fff_ffff_ffff_ffff;

/// The flag of a completion that further ones follow.
pub const CQE_F_MORE: u32 = 2;

/// A completion, as the ring reports it.
#[derive(Clone, Copy, Debug, PartialEq, Eq, Structural)]
pub struct Completion {
    pub user_data: u64,
    pub result: i32,
    pub flags: u32,
}

/// A completion of the owner lane.
#[derive(Clone, Copy, Debug, PartialEq, Eq, Structural)]
pub struct OwnerCompletion {
    /// The token that the submission carried.
    pub token: u64,
    pub result: i32,
    pub flags: u32,
}

/// Whom a completion belongs to, and what is to be done about it.
#[derive(Clone, Copy, Debug, PartialEq, Eq)]
pub enum Dispatch {
    /// A cancellation request was taken in.
    Acknowledged,
    /// The notifier fired and is to be cleared. Without `armed`, its poll
    /// request is no longer armed.
    Notified { armed: bool },
    /// The owner lane takes it.
    Owner(OwnerCompletion),
    /// The operation made progress and stays in flight.
    Multishot(Entry),
    /// The operation is finished.
    Finished(Entry),
}

/// Calls `io_uring::cqueue::more`, which tells whether the flags announce
/// further completions of the same submission.
#[verifier::external_body]
fn more(flags: u32) -> (further: bool)
    ensures
        further == has_more(flags),
{
    io_uring::cqueue::more(flags)
}

/// The flags announce further completions of the same submission.
pub open spec fn has_more(flags: u32) -> bool {
    flags & CQE_F_MORE != 0
}

/// The tag of the owner's submission with this token.
pub open spec fn owner_tag(token: u64) -> u64 {
    (2 * token + 1) as u64
}

/// The result that a completion's number stands for. Negative ones are error
/// numbers, of which `ENOBUFS` tells that the buffer ring ran dry.
pub open spec fn result_of(result: i32) -> Result<usize, Error> {
    if result >= 0 {
        Ok(result as usize)
    } else if result == -os::ENOBUFS {
        Err(
            Error::Custom {
                kind: ErrorKind::ResourceBusy,
                message: "buffer ring has no available buffer",
            },
        )
    } else if result == i32::MIN {
        Err(os_error(i32::MIN))
    } else {
        Err(os_error((-result) as i32))
    }
}

/// The entry that a completion of an operation makes.
pub open spec fn entry_of(completion: Completion) -> Entry {
    Entry {
        key: completion.user_data,
        result: result_of(completion.result),
        flags: completion.flags,
    }
}

/// Whom a completion belongs to. Tags that are odd are the owner's; the others
/// are the keys of operations.
pub open spec fn dispatch_of(completion: Completion) -> Dispatch {
    if completion.user_data == CANCEL {
        Dispatch::Acknowledged
    } else if completion.user_data == NOTIFY {
        Dispatch::Notified { armed: has_more(completion.flags) }
    } else if completion.user_data % 2 == 1 {
        Dispatch::Owner(
            OwnerCompletion {
                token: completion.user_data / 2,
                result: completion.result,
                flags: completion.flags,
            },
        )
    } else if has_more(completion.flags) {
        Dispatch::Multishot(entry_of(completion))
    } else {
        Dispatch::Finished(entry_of(completion))
    }
}

/// The tag of the owner's submission with this token.
pub(crate) fn tag_of_token(token: u64) -> (tag: u64)
    requires
        token < TOKEN_LIMIT,
    ensures
        tag == owner_tag(token),
{
    assert((token << 1) | 1 == 2 * token + 1) by (bit_vector)
        requires
            token < 0x7fff_ffff_ffff_ffffu64,
    ;
    (token << 1) | 1
}

/// The result that a completion's number stands for.
pub fn create_result(result: i32) -> (outcome: Result<usize, Error>)
    ensures
        outcome == result_of(result),
{
    if result < 0 {
        let code: i32 = if result == i32::MIN {
            i32::MIN
        } else {
            -result
        };
        if code == os::enobufs() {
            Err(Error::new(ErrorKind::ResourceBusy, "buffer ring has no available buffer"))
        } else {
            Err(Error::from_raw_os_error(code))
        }
    } else {
        Ok(result as usize)
    }
}

/// The entry that a completion of an operation makes.
pub fn create_entry(completion: &Completion) -> (entry: Entry)
    ensures
        entry == entry_of(*completion),
{
    let mut entry = Entry::new(completion.user_data, create_result(completion.result));
    entry.set_flags(completion.flags);
    entry
}

/// Tells whom a completion belongs to.
pub fn dispatch(completion: &Completion) -> (dispatch: Dispatch)
    ensures
        dispatch == dispatch_of(*completion),
{
    let tag: u64 = completion.user_data;
    assert(tag & 1 == tag % 2) by (bit_vector);
    assert(tag >> 1 == tag / 2) by (bit_vector);
    if tag == CANCEL {
        Dispatch::Acknowledged
    } else if tag == NOTIFY {
        Dispatch::Notified { armed: more(completion.flags) }
    } else if tag & 1 != 0 {
        Dispatch::Owner(
            OwnerCompletion {
                token: tag >> 1,
                result: completion.result,
                flags: completion.flags,
            },
        )
    } else if more(completion.flags) {
        Dispatch::Multishot(create_entry(completion))
    } else {
        Dispatch::Finished(create_entry(completion))
    }
}

} // verus!

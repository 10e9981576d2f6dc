//! What an operation waits for.

use crate::unix::{Interest, RawFd};
use vstd::prelude::*;

verus! {

/// One readiness that an operation waits for.
#[derive(Clone, Copy, Debug, PartialEq, Eq, Structural)]
pub struct WaitArg {
    pub fd: RawFd,
    pub interest: Interest,
}

/// One item in local or more items on heap: a `smallvec::SmallVec`.
#[verifier::external_body]
#[derive(Debug)]
pub struct Multi {
    items: smallvec::SmallVec<[WaitArg; 1]>,
}

/// The items, in order.
pub uninterp spec fn items(args: Multi) -> Seq<WaitArg>;

/// Calls `SmallVec::from_buf` with an array of one item, which becomes the
/// whole contents.
#[verifier::external_body]
fn smallvec_from_buf(arg: WaitArg) -> (args: Multi)
    ensures
        items(args) == seq![arg],
{
    Multi { items: smallvec::SmallVec::from_buf([arg]) }
}

/// Calls `SmallVec::from_vec`, which keeps the items and their order.
#[verifier::external_body]
fn smallvec_from_vec(args: Vec<WaitArg>) -> (multi: Multi)
    ensures
        items(multi) == args@,
{
    Multi { items: smallvec::SmallVec::from_vec(args) }
}

/// Calls `SmallVec::len`, the number of items.
#[verifier::external_body]
fn smallvec_len(args: &Multi) -> (len: usize)
    ensures
        len == items(*args).len(),
{
    args.items.len()
}

/// Indexes the `SmallVec`, which panics past the end.
#[verifier::external_body]
fn smallvec_index(args: &Multi, i: usize) -> (arg: WaitArg)
    requires
        i < items(*args).len(),
    ensures
        arg == items(*args)[i as int],
{
    args.items[i]
}

impl View for Multi {
    type V = Seq<WaitArg>;

    open spec fn view(&self) -> Seq<WaitArg> {
        items(*self)
    }
}

impl Multi {
    /// A single item, held in place.
    pub fn from_buf(arg: WaitArg) -> (args: Multi)
        ensures
            args@ == seq![arg],
    {
        smallvec_from_buf(arg)
    }

    /// The items of a vector.
    pub fn from_vec(args: Vec<WaitArg>) -> (multi: Multi)
        ensures
            multi@ == args@,
    {
        smallvec_from_vec(args)
    }

    /// The number of items.
    pub fn len(&self) -> (len: usize)
        ensures
            len == self@.len(),
    {
        smallvec_len(self)
    }

    /// The item at position `i`.
    pub fn get(&self, i: usize) -> (arg: WaitArg)
        requires
            i < self@.len(),
        ensures
            arg == self@[i as int],
    {
        smallvec_index(self, i)
    }
}

} // verus!

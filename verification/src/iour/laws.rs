//! What holds of the driver across calls.

use crate::completion::Key;
use crate::config::Duration;
use crate::error::{Error, ErrorKind, kind_error};
use crate::iour::cqe::{
    CANCEL, Completion, Dispatch, NOTIFY, OwnerCompletion, TOKEN_LIMIT, dispatch_of, entry_of,
    has_more, owner_tag,
};
use crate::iour::driver::{Route, route_of};
use crate::iour::setup::Probe;
use crate::iour::sqe::{ENTER_GETEVENTS, ENTER_NO_IOWAIT};
use crate::iour::state::{PushAction, PushEvent, State, lemma_took};
use vstd::prelude::*;

verus! {

/// The completions among `completions` that are the owner's, in order.
pub open spec fn owners(completions: Seq<Completion>) -> Seq<OwnerCompletion>
    decreases completions.len(),
{
    if completions.len() == 0 {
        Seq::empty()
    } else {
        let init = owners(completions.drop_last());
        match dispatch_of(completions.last()) {
            Dispatch::Owner(owned) => init.push(owned),
            _ => init,
        }
    }
}

/// `completion` is the last one of the operation `key`.
pub open spec fn terminal(completion: Completion, key: Key) -> bool {
    dispatch_of(completion) matches Dispatch::Finished(entry) && entry.key == key
}

/// `completion` tells that the notifier is no longer armed.
pub open spec fn disarms(completion: Completion) -> bool {
    dispatch_of(completion) == (Dispatch::Notified { armed: false })
}

/// A completion of the owner's submission comes back to the owner, with the
/// token that it was submitted with.
pub proof fn law_owner_token_comes_back(token: u64, result: i32, flags: u32)
    requires
        token < TOKEN_LIMIT,
    ensures
        dispatch_of(Completion { user_data: owner_tag(token), result, flags }) == Dispatch::Owner(
            OwnerCompletion { token, result, flags },
        ),
{
}

/// A completion of an operation comes back to the operation, whatever the
/// owner's tokens are. It ends the operation exactly when no further ones
/// follow.
pub proof fn law_operation_key_comes_back(key: Key, result: i32, flags: u32)
    requires
        key % 2 == 0,
        key != NOTIFY,
    ensures
        ({
            let completion = Completion { user_data: key, result, flags };
            dispatch_of(completion) == (if has_more(flags) {
                Dispatch::Multishot(entry_of(completion))
            } else {
                Dispatch::Finished(entry_of(completion))
            })
        }),
        forall|token: u64| token < TOKEN_LIMIT ==> #[trigger] owner_tag(token) != key,
{
}

/// In every state, the completions of an operation in flight come back to it.
pub proof fn law_operation_in_flight_is_found(s: State, key: Key, result: i32, flags: u32)
    requires
        s.wf(),
        s.in_flight.contains(key),
        key != NOTIFY,
    ensures
        ({
            let completion = Completion { user_data: key, result, flags };
            if has_more(flags) {
                &&& dispatch_of(completion) == Dispatch::Multishot(entry_of(completion))
                &&& s.took(completion) == s
            } else {
                &&& dispatch_of(completion) == Dispatch::Finished(entry_of(completion))
                &&& s.took(completion).in_flight == s.in_flight.remove(key)
                &&& s.took(completion).lane == s.lane
            }
        }),
{
    law_operation_key_comes_back(key, result, flags);
}

/// Cancellation requests and the notifier are told apart from all tokens.
pub proof fn law_reserved_tags_are_no_tokens(token: u64)
    requires
        token < TOKEN_LIMIT,
    ensures
        owner_tag(token) != CANCEL,
        owner_tag(token) != NOTIFY,
{
}

/// How many completions are taken in follows from the state and from what the
/// ring shows.
pub proof fn law_intake_is_determined(s: State, shown: Seq<Completion>, n: nat, m: nat)
    requires
        s.takes(shown, n),
        s.takes(shown, m),
    ensures
        n == m,
{
    if n < m {
        assert(!s.took_all(shown.take(n as int)).full());
    }
    if m < n {
        assert(!s.took_all(shown.take(m as int)).full());
    }
}

/// A full lane holds everything back: what the ring shows stays there, in
/// order.
pub proof fn law_full_lane_takes_nothing(s: State, shown: Seq<Completion>, n: nat)
    requires
        s.full(),
        s.takes(shown, n),
    ensures
        n == 0,
{
    if n > 0 {
        assert(shown.take(0) =~= Seq::empty());
        assert(!s.took_all(shown.take(0)).full());
    }
}

/// The lane grows by the owner's completions and by nothing else.
pub proof fn law_lane_keeps_owner_completions(s: State, completions: Seq<Completion>)
    ensures
        s.took_all(completions).lane == s.lane + owners(completions),
        s.took_all(completions).capacity == s.capacity,
        owners(completions).len() <= completions.len(),
    decreases completions.len(),
{
    if completions.len() == 0 {
        assert(s.lane + owners(completions) =~= s.lane);
    } else {
        let init = completions.drop_last();
        law_lane_keeps_owner_completions(s, init);
        assert(s.took_all(completions).lane =~= s.lane + owners(completions));
    }
}

/// Without a lane, or with a lane that has room for all of them, everything
/// that the ring shows is taken in.
pub proof fn law_batch_within_room_is_taken_whole(s: State, shown: Seq<Completion>, n: nat)
    requires
        s.takes(shown, n),
        s.owned() ==> s.lane.len() + shown.len() <= s.capacity,
    ensures
        n == shown.len(),
{
    if n < shown.len() {
        law_lane_keeps_owner_completions(s, shown.take(n as int));
    }
}

/// No completion of the owner is lost, repeated or reordered: those taken in
/// from the ring and those already in the lane are what the owner drains now and
/// what it can drain later.
pub proof fn law_owner_completions_are_lossless(
    s: State,
    shown: Seq<Completion>,
    n: nat,
    limit: usize,
)
    requires
        s.takes(shown, n),
    ensures
        ({
            let taken = shown.take(n as int);
            let left = shown.skip(n as int);
            let t = s.took_all(taken);
            let drained = t.lane.take(t.share(limit));
            let rest = t.lane_drained(t.share(limit)).lane;
            &&& taken + left == shown
            &&& s.lane + owners(shown) == drained + rest + owners(left)
        }),
{
    let taken = shown.take(n as int);
    let left = shown.skip(n as int);
    let t = s.took_all(taken);
    assert(taken + left =~= shown);
    law_lane_keeps_owner_completions(s, taken);
    lemma_owners_concat(taken, left);
    assert(t.lane.take(t.share(limit)) + t.lane.skip(t.share(limit)) =~= t.lane);
    assert(s.lane + owners(shown) =~= t.lane + owners(left));
}

/// The owner's completions of two runs are those of one after those of the
/// other.
pub proof fn lemma_owners_concat(a: Seq<Completion>, b: Seq<Completion>)
    ensures
        owners(a + b) == owners(a) + owners(b),
    decreases b.len(),
{
    if b.len() == 0 {
        assert(a + b =~= a);
        assert(owners(a) + owners(b) =~= owners(a));
    } else {
        assert((a + b).drop_last() =~= a + b.drop_last());
        lemma_owners_concat(a, b.drop_last());
        assert(owners(a + b) =~= owners(a) + owners(b));
    }
}

/// The lane never holds more than its capacity, keys in flight stay apart from
/// tokens, and only operations in flight are about to be cancelled, however many
/// completions are taken in.
pub proof fn law_intake_keeps_the_invariant(s: State, shown: Seq<Completion>, n: nat)
    requires
        s.wf(),
        s.takes(shown, n),
    ensures
        s.took_all(shown.take(n as int)).wf(),
{
    lemma_intake(s, shown, n);
}

proof fn lemma_intake(s: State, shown: Seq<Completion>, n: nat)
    requires
        s.wf(),
        n <= shown.len(),
        forall|i: int| 0 <= i < n ==> !(#[trigger] s.took_all(shown.take(i))).full(),
    ensures
        s.took_all(shown.take(n as int)).wf(),
    decreases n,
{
    let taken = shown.take(n as int);
    if n > 0 {
        let m = (n - 1) as nat;
        let init = shown.take(m as int);
        assert(taken.drop_last() =~= init);
        lemma_intake(s, shown, m);
        assert(!s.took_all(init).full());
        lemma_took(s.took_all(init), taken.last());
    }
}

/// Only its own last completion ends an operation: one that is in flight stays
/// so through every completion that announces further ones, and through those
/// of all others.
pub proof fn law_only_terminal_completions_release(
    s: State,
    completions: Seq<Completion>,
    key: Key,
)
    ensures
        s.took_all(completions).in_flight.contains(key) <==> s.in_flight.contains(key) && forall|
            i: int,
        |
            0 <= i < completions.len() ==> !terminal(#[trigger] completions[i], key),
    decreases completions.len(),
{
    if completions.len() > 0 {
        let init = completions.drop_last();
        let last = completions.last();
        law_only_terminal_completions_release(s, init, key);
        let before = forall|i: int| 0 <= i < init.len() ==> !terminal(#[trigger] init[i], key);
        let all = forall|i: int|
            0 <= i < completions.len() ==> !terminal(#[trigger] completions[i], key);
        assert(all == (before && !terminal(last, key))) by {
            if all {
                assert(completions[completions.len() - 1] == last);
                assert forall|i: int| 0 <= i < init.len() implies !terminal(
                    #[trigger] init[i],
                    key,
                ) by {
                    assert(completions[i] == init[i]);
                }
            }
            if before && !terminal(last, key) {
                assert forall|i: int| 0 <= i < completions.len() implies !terminal(
                    #[trigger] completions[i],
                    key,
                ) by {
                    if i < init.len() {
                        assert(init[i] == completions[i]);
                    }
                }
            }
        }
    }
}

/// What the operations use is retained while the last completion of one of them
/// was not observed, be it held back by a full lane or not there yet.
pub proof fn law_unobserved_operation_is_retained(s: State, completions: Seq<Completion>, key: Key)
    requires
        s.in_flight.contains(key),
        forall|i: int| 0 <= i < completions.len() ==> !terminal(#[trigger] completions[i], key),
    ensures
        !s.took_all(completions).in_flight.is_empty(),
{
    law_only_terminal_completions_release(s, completions, key);
}

/// The notifier is pushed again after it went off for the last time, and not
/// otherwise.
pub proof fn law_notifier_is_rearmed(s: State, completions: Seq<Completion>)
    ensures
        s.took_all(completions).need_push_notifier <==> s.need_push_notifier || exists|i: int|
            0 <= i < completions.len() && disarms(#[trigger] completions[i]),
    decreases completions.len(),
{
    if completions.len() > 0 {
        let init = completions.drop_last();
        let last = completions.last();
        law_notifier_is_rearmed(s, init);
        if disarms(last) {
            assert(completions[completions.len() - 1] == last);
        }
        if exists|i: int| 0 <= i < init.len() && disarms(#[trigger] init[i]) {
            let i = choose|i: int| 0 <= i < init.len() && disarms(#[trigger] init[i]);
            assert(completions[i] == init[i]);
        }
        if exists|i: int| 0 <= i < completions.len() && disarms(#[trigger] completions[i]) {
            let i = choose|i: int|
                0 <= i < completions.len() && disarms(#[trigger] completions[i]);
            if i < init.len() {
                assert(init[i] == completions[i]);
            }
        }
    }
}

/// Cancelling an operation twice is cancelling it once, and one that is not in
/// flight is left alone. The operation stays in flight until its own last
/// completion, which also takes back a cancellation that is still to be
/// submitted.
pub proof fn law_cancellation_waits_for_the_target(s: State, key: Key, completion: Completion)
    ensures
        s.cancelling(key).cancelling(key) == s.cancelling(key),
        s.cancelling(key).in_flight == s.in_flight,
        s.cancelling(key).cancel_submitted(key).in_flight == s.in_flight,
        s.cancelling(key).pending_cancel.contains(key) <==> s.in_flight.contains(key)
            || s.pending_cancel.contains(key),
        terminal(completion, key) ==> !s.cancelling(key).took(
            completion,
        ).pending_cancel.contains(key),
{
    assert(s.cancelling(key).cancelling(key) =~= s.cancelling(key));
}

/// A pending cancellation keeps the driver from sleeping.
pub proof fn law_pending_cancellation_never_sleeps(
    s: State,
    key: Key,
    timeout: Option<Duration>,
    need_wait: bool,
    taskrun: bool,
)
    requires
        s.pending_cancel.contains(key),
    ensures
        s.submission(timeout, need_wait, taskrun).want == 0,
{
}

/// A turn that sleeps leaves nothing behind: no finished operation, no
/// notification, no completion of the owner and no cancellation.
pub proof fn law_sleep_has_no_backlog(
    s: State,
    timeout: Option<Duration>,
    blocking: bool,
    notified: bool,
    taskrun: bool,
)
    requires
        s.submission(timeout, s.waits(s.turn(blocking), notified), taskrun).want > 0,
    ensures
        !blocking,
        !notified,
        !taskrun,
        s.lane.len() == 0,
        s.pending_cancel == Set::<Key>::empty(),
{
    assert(s.pending_cancel =~= Set::empty());
}

/// There are never more cancellations to submit than operations in flight.
pub proof fn law_pending_cancellations_are_bounded(s: State)
    requires
        s.wf(),
    ensures
        s.pending_cancel.len() <= s.in_flight.len(),
{
    vstd::set_lib::lemma_len_subset(s.pending_cancel, s.in_flight);
}

/// Only a wait that can sleep is kept from being charged as iowait.
pub proof fn law_only_sleeping_waits_are_marked(
    s: State,
    timeout: Option<Duration>,
    need_wait: bool,
    taskrun: bool,
)
    ensures
        s.submission(timeout, need_wait, taskrun).flags matches Some(flags) && flags
            & ENTER_NO_IOWAIT != 0 ==> s.no_iowait && s.submission(
            timeout,
            need_wait,
            taskrun,
        ).want > 0 && timeout != Some(Duration::zero_span()),
{
    assert(1u32 & 128 == 0) by (bit_vector);
    assert(9u32 & 128 == 0) by (bit_vector);
}

/// With a lane, every turn drives completions, also one that neither submits
/// nor waits.
pub proof fn law_lane_drives_every_turn(
    s: State,
    timeout: Option<Duration>,
    need_wait: bool,
    taskrun: bool,
)
    requires
        s.owned(),
    ensures
        s.submission(timeout, need_wait, taskrun).flags matches Some(flags) && flags
            & ENTER_GETEVENTS == ENTER_GETEVENTS,
{
    assert(1u32 & 1 == 1) by (bit_vector);
    assert(9u32 & 1 == 1) by (bit_vector);
    assert(129u32 & 1 == 1) by (bit_vector);
    assert(137u32 & 1 == 1) by (bit_vector);
}

/// An entry is given up only when the submission queue and the lane are both
/// full, or when submitting failed; it is reported as pushed only when the queue
/// accepted it.
pub proof fn law_push_is_refused_only_under_pressure(s: State, event: PushEvent)
    requires
        s.wf(),
    ensures
        s.push_step(event) == PushAction::Return(Ok(())) <==> event == (PushEvent::Offered {
            accepted: true,
        }),
        s.push_step(event) matches PushAction::Return(Err(e)) ==> event == PushEvent::Submitted(
            Err(e),
        ) || (event == (PushEvent::Polled { full: true }) && s.full() && e == kind_error(
            ErrorKind::WouldBlock,
        )),
        s.full() ==> s.push_step(PushEvent::Polled { full: true }) is Return,
{
}

/// An operation falls back at most once.
pub proof fn law_one_fallback(code: Option<u32>, probe: Probe)
    ensures
        route_of(code, probe, true) != Route::Fallback,
{
}

/// A lane is opened once.
pub proof fn law_lane_opens_once(s: State, first: usize, second: usize)
    requires
        s.lane_refusal(first) is None,
    ensures
        s.lane_opened(first).owned(),
        s.lane_opened(first).lane_refusal(second) is Some,
{
}

/// With a lane, lost completions are reported whatever the enter call came to;
/// without one, they are not looked at.
pub proof fn law_lost_completions_are_reported(
    s: State,
    entered: Result<usize, Error>,
    overflow: u32,
)
    ensures
        s.owned() && overflow != 0 ==> s.progress(entered, overflow) is Err,
        !s.owned() ==> s.loss(overflow) is Ok,
{
}

} // verus!

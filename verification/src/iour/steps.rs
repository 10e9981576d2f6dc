//! What each step does, told from completions, calls and what is in flight alone.

use crate::completion::Key;
use crate::config::{Duration, ProactorBuilder};
use crate::error::{Error, ErrorKind};
use crate::iour::cqe::{
    CANCEL, Completion, Dispatch, NOTIFY, TOKEN_LIMIT, dispatch_of, entry_of, has_more, owner_tag,
    result_of,
};
use crate::iour::driver::{cancel_request, notifier_request, route_of, submit_result};
use crate::iour::setup::{Probe, setup_of};
use crate::iour::sqe::{async_cancel_entry, enter_bits, poll_add_entry, tagged_entry};
use crate::iour::state::{Features, PushAction, PushEvent, State, Turn};
use crate::os;
use vstd::prelude::*;

verus! {

/// The error was made from the number `code`.
pub open spec fn numbered(error: Error, code: i32) -> bool {
    error matches Error::Os { code: c, .. } && c == code
}

/// The error is of the category `kind`, by itself or with an explanation.
pub open spec fn categorized(error: Error, kind: ErrorKind) -> bool {
    ||| error matches Error::Simple { kind: k } && k == kind
    ||| error matches Error::Custom { kind: k, .. } && k == kind
}

/// Nothing but the lane, the set of operations or the notifier differs.
pub open spec fn same_setup(s: State, t: State) -> bool {
    &&& t.capacity == s.capacity
    &&& t.no_iowait == s.no_iowait
    &&& t.features == s.features
}

/// A completion succeeds with `n` exactly when its number is `n`, which is not
/// negative. A negative number fails: `-ENOBUFS` as a busy resource, and every
/// other one with the error number that it is the negative of.
pub proof fn law_result_is_the_number_or_its_error(result: i32, n: usize)
    ensures
        result_of(result) == Ok::<usize, Error>(n) <==> result >= 0 && n == result,
        result_of(result) is Err <==> result < 0,
        result < 0 && result != -os::ENOBUFS && result != i32::MIN ==> (result_of(
            result,
        ) matches Err(e) && numbered(e, (-result) as i32)),
        result == -os::ENOBUFS ==> (result_of(result) matches Err(e) && categorized(
            e,
            ErrorKind::ResourceBusy,
        )),
        result == i32::MIN ==> (result_of(result) matches Err(e) && numbered(e, i32::MIN)),
{
}

/// The entry of a completion names the operation, and has the completion's result
/// and flags.
pub proof fn law_entry_tells_the_completion(completion: Completion, n: usize)
    ensures
        entry_of(completion).key == completion.user_data,
        entry_of(completion).flags == completion.flags,
        entry_of(completion).result == Ok::<usize, Error>(n) <==> completion.result >= 0 && n
            == completion.result,
        entry_of(completion).result is Err <==> completion.result < 0,
        completion.result < 0 && completion.result != -os::ENOBUFS && completion.result
            != i32::MIN ==> (entry_of(completion).result matches Err(e) && numbered(
            e,
            (-completion.result) as i32,
        )),
        completion.result == -os::ENOBUFS ==> (entry_of(completion).result matches Err(e)
            && categorized(e, ErrorKind::ResourceBusy)),
{
    law_result_is_the_number_or_its_error(completion.result, n);
}

/// The reserved tags and the bit that announces further completions are what the
/// ring and the owner go by.
pub proof fn law_tags_are_what_the_owner_computes(token: u64, flags: u32)
    ensures
        CANCEL == u64::MAX,
        NOTIFY == u64::MAX - 1,
        TOKEN_LIMIT == u64::MAX / 2,
        token < TOKEN_LIMIT ==> owner_tag(token) == 2 * token + 1,
        has_more(flags) <==> (flags / 2) % 2 == 1,
{
    assert((flags & 2u32 != 0) <==> ((flags / 2) % 2 == 1)) by (bit_vector);
}

/// Every completion goes to exactly one place, by its tag: the two reserved tags
/// acknowledge a cancellation and report the notifier, all other odd ones go to
/// the owner with the token, result and flags, and all other even ones to the
/// operation, which is finished unless further ones are announced.
pub proof fn law_completion_goes_where_its_tag_says(c: Completion)
    ensures
        ({
            let more = (c.flags / 2) % 2 == 1;
            let d = dispatch_of(c);
            &&& c.user_data == u64::MAX ==> d is Acknowledged
            &&& c.user_data == u64::MAX - 1 ==> (d matches Dispatch::Notified { armed } && armed
                == more)
            &&& c.user_data % 2 == 1 && c.user_data != u64::MAX ==> (d matches Dispatch::Owner(o)
                && 2 * o.token + 1 == c.user_data && o.result == c.result && o.flags == c.flags)
            &&& c.user_data % 2 == 0 && c.user_data != u64::MAX - 1 && more ==> (
            d matches Dispatch::Multishot(e) && e == entry_of(c))
            &&& c.user_data % 2 == 0 && c.user_data != u64::MAX - 1 && !more ==> (
            d matches Dispatch::Finished(e) && e == entry_of(c))
        }),
{
    let flags = c.flags;
    assert((flags & 2u32 != 0) <==> ((flags / 2) % 2 == 1)) by (bit_vector);
}

/// Taking in a completion changes what it is about and nothing else: the lane
/// grows by the owner's completion, the notifier is to be pushed again after its
/// last report, and an operation leaves with its last completion, a cancellation
/// of it that is still to be submitted along with it.
pub proof fn law_intake_changes_what_it_is_about(s: State, c: Completion, key: Key)
    ensures
        ({
            let t = s.took(c);
            let more = (c.flags / 2) % 2 == 1;
            let ends = c.user_data % 2 == 0 && c.user_data != u64::MAX - 1 && !more;
            let owners = c.user_data % 2 == 1 && c.user_data != u64::MAX;
            &&& t.in_flight.contains(key) <==> s.in_flight.contains(key) && !(ends && key
                == c.user_data)
            &&& t.pending_cancel.contains(key) <==> s.pending_cancel.contains(key) && !(ends
                && key == c.user_data)
            &&& owners ==> t.lane.len() == s.lane.len() + 1 && t.lane.drop_last() == s.lane && 2
                * t.lane.last().token + 1 == c.user_data && t.lane.last().result == c.result
                && t.lane.last().flags == c.flags
            &&& !owners ==> t.lane == s.lane
            &&& t.need_push_notifier <==> s.need_push_notifier || (c.user_data == u64::MAX - 1
                && !more)
            &&& same_setup(s, t)
        }),
{
    law_completion_goes_where_its_tag_says(c);
    let t = s.took(c);
    if c.user_data % 2 == 1 && c.user_data != u64::MAX {
        assert(t.lane.drop_last() =~= s.lane);
    }
}

/// Completions are taken in one after the other, in the order in which the ring
/// shows them.
pub proof fn law_intake_goes_one_by_one(s: State, a: Seq<Completion>, c: Completion)
    ensures
        s.took_all(Seq::<Completion>::empty()) == s,
        s.took_all(a.push(c)) == s.took_all(a).took(c),
        s.took_all(seq![c]) == s.took(c),
{
    assert(a.push(c).drop_last() =~= a);
    assert(seq![c].drop_last() =~= Seq::<Completion>::empty());
}

/// The intake goes on until the ring shows no more or the lane holds all that it
/// can, and stops there; without a lane it stops only when there is no more.
pub proof fn law_intake_stops_at_the_end_or_a_full_lane(s: State, shown: Seq<Completion>, n: nat)
    requires
        s.takes(shown, n),
    ensures
        n <= shown.len(),
        s.capacity == 0 ==> n == shown.len(),
        n < shown.len() ==> s.took_all(shown.take(n as int)).lane.len() >= s.capacity,
        s.capacity > 0 ==> forall|i: int|
            0 <= i < n ==> (#[trigger] s.took_all(shown.take(i))).lane.len() < s.capacity,
{
    assert forall|cs: Seq<Completion>| (#[trigger] s.took_all(cs)).capacity == s.capacity by {
        lemma_setup_is_kept(s, cs);
    }
    assert forall|i: int| 0 <= i < n && s.capacity > 0 implies (#[trigger] s.took_all(
        shown.take(i),
    )).lane.len() < s.capacity by {
        assert(!s.took_all(shown.take(i)).full());
    }
}

proof fn lemma_setup_is_kept(s: State, cs: Seq<Completion>)
    ensures
        s.took_all(cs).capacity == s.capacity,
    decreases cs.len(),
{
    if cs.len() > 0 {
        lemma_setup_is_kept(s, cs.drop_last());
    }
}

/// There is a lane exactly when it has a capacity, and it is full exactly when it
/// holds as much.
pub proof fn law_lane_is_full_at_its_capacity(s: State)
    ensures
        s.owned() <==> s.capacity > 0,
        s.full() <==> s.capacity > 0 && s.lane.len() >= s.capacity,
{
}

/// A lane can be opened exactly on a ring that drops nothing and has no kernel
/// submission thread, with some capacity and where there is none yet. The two
/// ways to be refused are told apart, and the ring comes first.
pub proof fn law_lane_is_refused_for_cause(s: State, capacity: usize)
    ensures
        s.lane_refusal(capacity) is None <==> s.features.nodrop && !s.features.sqpoll && capacity
            > 0 && s.capacity == 0,
        !s.features.nodrop || s.features.sqpoll ==> (s.lane_refusal(capacity) matches Some(e)
            && categorized(e, ErrorKind::Unsupported)),
        s.features.nodrop && !s.features.sqpoll && (capacity == 0 || s.capacity > 0) ==> (
        s.lane_refusal(capacity) matches Some(e) && categorized(e, ErrorKind::InvalidInput)),
{
}

/// An opened lane is empty and has the capacity asked for; nothing else changes.
pub proof fn law_opened_lane_is_empty(s: State, capacity: usize)
    ensures
        ({
            let t = s.lane_opened(capacity);
            &&& t.capacity == capacity && t.lane.len() == 0
            &&& t.in_flight == s.in_flight && t.pending_cancel == s.pending_cancel
            &&& t.need_push_notifier == s.need_push_notifier
            &&& t.no_iowait == s.no_iowait && t.features == s.features
        }),
{
}

/// The owner gets as many completions as it asks for, or all that there are. What
/// it gets and what stays make up the lane as it was; nothing else changes.
pub proof fn law_owner_gets_the_oldest(s: State, limit: usize)
    ensures
        ({
            let n = s.share(limit);
            let t = s.lane_drained(n);
            &&& 0 <= n <= limit && n <= s.lane.len()
            &&& n == limit || n == s.lane.len()
            &&& s.lane.take(n) + t.lane == s.lane
            &&& t.in_flight == s.in_flight && t.pending_cancel == s.pending_cancel
            &&& t.need_push_notifier == s.need_push_notifier
            &&& same_setup(s, t)
        }),
{
    let n = s.share(limit);
    assert(s.lane.take(n) + s.lane_drained(n).lane =~= s.lane);
}

/// Lost completions fail exactly where there is a lane. Progress fails only on
/// such a loss, or with the error of a call that neither met pressure nor was
/// interrupted.
pub proof fn law_progress_fails_for_cause(
    s: State,
    entered: Result<usize, Error>,
    overflow: u32,
)
    ensures
        s.loss(overflow) is Err <==> s.capacity > 0 && overflow > 0,
        s.loss(overflow) matches Err(e) ==> categorized(e, ErrorKind::Other),
        s.progress(entered, overflow) is Ok <==> !(s.capacity > 0 && overflow > 0) && (
        entered matches Err(e) ==> numbered(e, os::EBUSY) || numbered(e, os::EAGAIN) || numbered(
            e,
            os::EINTR,
        )),
        s.capacity > 0 && overflow > 0 ==> s.progress(entered, overflow) == s.loss(overflow),
        !(s.capacity > 0 && overflow > 0) ==> (s.progress(entered, overflow) matches Err(e)
            ==> entered == Err::<usize, Error>(e)),
{
}

/// The turn waits whenever there is nothing else to do, with a lane or without:
/// no operation was finished by another thread, no notification was pending, the
/// lane is empty, no cancellation is to be submitted and no completion work is to
/// be run. In all other cases it does not.
pub proof fn law_turn_waits_exactly_without_work(
    s: State,
    timeout: Option<Duration>,
    blocking: bool,
    notified: bool,
    taskrun: bool,
)
    ensures
        ({
            let nothing_to_do = !blocking && !notified && s.lane.len() == 0 && s.pending_cancel
                =~= Set::<Key>::empty() && !taskrun;
            let want = s.submission(timeout, s.waits(s.turn(blocking), notified), taskrun).want;
            &&& nothing_to_do ==> want == 1
            &&& !nothing_to_do ==> want == 0
        }),
{
}

/// A turn is over at once where other threads finished operations and there is no
/// lane; with a lane it goes on without waiting; else it looks at the notifier.
pub proof fn law_finished_calls_shape_the_turn(s: State, blocking: bool, notified: bool, turn: Turn)
    ensures
        s.turn(blocking) is Return <==> blocking && s.capacity == 0,
        s.turn(blocking) matches Turn::Return(r) ==> r is Ok,
        s.turn(blocking) is Proceed <==> blocking && s.capacity > 0,
        s.turn(blocking) is Reset <==> !blocking,
        s.waits(turn, notified) <==> turn is Reset && !notified && s.lane.len() == 0,
{
}

/// The enter call waits for one completion exactly when it is to wait, no
/// cancellation is to be submitted and no completion work is to be run, and for
/// none otherwise, as long as it was told. Its flags are given exactly where there
/// is a lane or a wait that can sleep is kept from being charged as iowait.
pub proof fn law_enter_call_does_what_the_turn_needs(
    s: State,
    timeout: Option<Duration>,
    need_wait: bool,
    taskrun: bool,
)
    ensures
        ({
            let call = s.submission(timeout, need_wait, taskrun);
            let sleeps = need_wait && s.pending_cancel =~= Set::<Key>::empty() && !taskrun;
            let endless = timeout matches Some(limit) ==> limit.secs > 0 || limit.nanos > 0;
            let unmarked = s.no_iowait && sleeps && endless;
            &&& call.want == (if sleeps {
                1u32
            } else {
                0u32
            })
            &&& call.timeout == timeout
            &&& call.flags is Some <==> s.capacity > 0 || unmarked
            &&& call.flags matches Some(flags) ==> flags == 1 + (if timeout is Some {
                8int
            } else {
                0
            }) + (if unmarked {
                128int
            } else {
                0
            })
        }),
{
}

/// The flags of a call that drives completions always ask for them, and name the
/// extended argument and the accounting exactly where that is wanted.
pub proof fn law_enter_flags_say_what_is_wanted(no_iowait: bool, ext_arg: bool)
    ensures
        ({
            let flags = enter_bits(no_iowait, ext_arg);
            &&& flags & 1 != 0
            &&& flags & 8 != 0 <==> ext_arg
            &&& flags & 128 != 0 <==> no_iowait
            &&& flags & !137u32 == 0
        }),
{
    assert(1u32 & 1 != 0 && 1u32 & 8 == 0 && 1u32 & 128 == 0 && 1u32 & !137u32 == 0)
        by (bit_vector);
    assert(9u32 & 1 != 0 && 9u32 & 8 != 0 && 9u32 & 128 == 0 && 9u32 & !137u32 == 0)
        by (bit_vector);
    assert(129u32 & 1 != 0 && 129u32 & 8 == 0 && 129u32 & 128 != 0 && 129u32 & !137u32 == 0)
        by (bit_vector);
    assert(137u32 & 1 != 0 && 137u32 & 8 != 0 && 137u32 & 128 != 0 && 137u32 & !137u32 == 0)
        by (bit_vector);
}

/// A call that waited and shows nothing has timed out, as has one that failed with
/// `ETIME`; pressure counts as an interruption; every other error stays, and every
/// other success is one.
pub proof fn law_enter_call_is_judged_by_its_outcome(
    want: u32,
    none_shown: bool,
    entered: Result<usize, Error>,
)
    ensures
        ({
            let outcome = submit_result(want, none_shown, entered);
            let late = entered matches Err(e) && numbered(e, os::ETIME);
            let pressed = entered matches Err(e) && (numbered(e, os::EBUSY) || numbered(
                e,
                os::EAGAIN,
            ));
            &&& outcome is Ok <==> entered is Ok && !(want > 0 && none_shown)
            &&& late || (entered is Ok && want > 0 && none_shown) ==> (outcome matches Err(e)
                && categorized(e, ErrorKind::TimedOut))
            &&& pressed ==> (outcome matches Err(e) && categorized(e, ErrorKind::Interrupted))
            &&& entered is Err && !late && !pressed ==> (outcome matches Err(e) && entered == Err::<
                usize,
                Error,
            >(e))
        }),
{
}

/// Pushing an entry tries until it succeeds: it offers the entry first, makes room
/// when the queue is full, takes in completions even if making room timed out or
/// was interrupted, and offers the entry again, unless lane and queue are both
/// full.
pub proof fn law_pushing_tries_until_pressed(s: State, e: Error, full: bool)
    ensures
        s.push_step(PushEvent::Begin) is Offer,
        s.push_step(PushEvent::Offered { accepted: true }) == PushAction::Return(Ok(())),
        s.push_step(PushEvent::Offered { accepted: false }) is Submit,
        s.push_step(PushEvent::Submitted(Ok(()))) is Poll,
        categorized(e, ErrorKind::TimedOut) || categorized(e, ErrorKind::Interrupted)
            ==> s.push_step(PushEvent::Submitted(Err(e))) is Poll,
        (e matches Error::Os { code, decoded } && decoded is None && (code == os::EINTR || code
            == os::ETIMEDOUT)) ==> s.push_step(PushEvent::Submitted(Err(e))) is Poll,
        (e matches Error::Os { decoded: Some(kind), .. } && (kind == ErrorKind::TimedOut || kind
            == ErrorKind::Interrupted)) ==> s.push_step(PushEvent::Submitted(Err(e))) is Poll,
        s.push_step(PushEvent::Submitted(Err(e))) is Poll || s.push_step(
            PushEvent::Submitted(Err(e)),
        ) == PushAction::Return(Err(e)),
        s.push_step(PushEvent::Submitted(Err(e))) is Poll ==> e.kind_of() == Some(
            ErrorKind::TimedOut,
        ) || e.kind_of() == Some(ErrorKind::Interrupted),
        !(full && s.capacity > 0 && s.lane.len() == s.capacity) ==> s.push_step(
            PushEvent::Polled { full },
        ) is Offer,
        full && s.capacity > 0 && s.lane.len() == s.capacity ==> (s.push_step(
            PushEvent::Polled { full },
        ) matches PushAction::Return(Err(w)) && categorized(w, ErrorKind::WouldBlock)),
{
}

/// Launching and cancelling speak of one operation. A launched one is in flight;
/// one that is to be cancelled stays in flight, and is remembered only if it is;
/// once its cancellation was submitted it is no longer to be cancelled.
pub proof fn law_launch_and_cancel_speak_of_one_operation(s: State, key: Key, other: Key)
    ensures
        ({
            let t = s.launched(key);
            &&& t.in_flight.contains(other) <==> s.in_flight.contains(other) || other == key
            &&& t.pending_cancel == s.pending_cancel && t.lane == s.lane
            &&& t.need_push_notifier == s.need_push_notifier && same_setup(s, t)
        }),
        ({
            let t = s.cancelling(key);
            &&& t.pending_cancel.contains(other) <==> s.pending_cancel.contains(other) || (other
                == key && s.in_flight.contains(key))
            &&& t.in_flight == s.in_flight && t.lane == s.lane
            &&& t.need_push_notifier == s.need_push_notifier && same_setup(s, t)
        }),
        ({
            let t = s.cancel_submitted(key);
            &&& t.pending_cancel.contains(other) <==> s.pending_cancel.contains(other) && other
                != key
            &&& t.in_flight == s.in_flight && t.lane == s.lane
            &&& t.need_push_notifier == s.need_push_notifier && same_setup(s, t)
        }),
{
}

/// A new driver has nothing in flight and no lane, and arms its notifier first. It
/// keeps waits from being charged as iowait exactly where the ring can do so and
/// no kernel thread submits.
pub proof fn law_new_driver_has_nothing_in_flight(sqpoll: bool, features: Features, key: Key)
    ensures
        ({
            let s = State::fresh(sqpoll, features);
            &&& !s.in_flight.contains(key) && !s.pending_cancel.contains(key)
            &&& s.lane.len() == 0 && s.capacity == 0
            &&& s.need_push_notifier
            &&& s.no_iowait <==> features.no_iowait && !sqpoll
            &&& s.features == features
        }),
{
}

/// An entry is pushed exactly when the ring supports its operation. Else the
/// operation falls back the first time and runs on a thread the second; one
/// without an entry runs on a thread at once.
pub proof fn law_route_follows_support(code: Option<u32>, probe: Probe, has_fallbacked: bool)
    ensures
        ({
            let supported = code matches Some(c) && {
                &&& (c as u8) < probe.supported@.len()
                &&& probe.supported@[(c as u8) as int]
            };
            &&& route_of(code, probe, has_fallbacked) is Submit <==> supported
            &&& route_of(code, probe, has_fallbacked) is Fallback <==> code is Some && !supported
                && !has_fallbacked
            &&& route_of(code, probe, has_fallbacked) is Blocking <==> code is None || (!supported
                && has_fallbacked)
        }),
{
}

/// The operations that are supported are those that the ring says it supports;
/// codes beyond its answer are not.
pub proof fn law_probe_is_the_answer_of_the_ring(probe: Probe, code: u8)
    ensures
        code >= probe.supported@.len() ==> !probe.has(code),
        code < probe.supported@.len() ==> probe.has(code) == probe.supported@[code as int],
{
}

/// The requests that the driver makes of its own: one cancels the operation with
/// the key, and one reports the notifier for as long as it stays armed. Each has
/// its reserved tag.
pub proof fn law_requests_of_the_driver(key: Key, fd: i32)
    ensures
        cancel_request(key) == tagged_entry(async_cancel_entry(key), u64::MAX),
        notifier_request(fd) == tagged_entry(
            poll_add_entry(fd, os::POLLIN, true),
            (u64::MAX - 1) as u64,
        ),
{
}

/// The ring is set up as the settings say. A processor goes with a kernel
/// submission thread and deferred work with a single submitter; neither is set up
/// alone.
pub proof fn law_setup_is_what_the_settings_say(builder: &ProactorBuilder)
    ensures
        ({
            let setup = setup_of(builder);
            &&& setup.entries == builder.capacity
            &&& setup.cqsize == builder.cqsize
            &&& setup.eventfd == builder.eventfd
            &&& setup.dontfork
            &&& setup.sqpoll is Some <==> builder.sqpoll_idle is Some
            &&& builder.sqpoll_idle matches Some(idle) ==> (setup.sqpoll->0) as int == (idle.secs
                * 1000 + idle.nanos / 1_000_000) % 0x1_0000_0000
            &&& builder.sqpoll_idle is Some ==> setup.sqpoll_cpu == builder.sqpoll_cpu
            &&& builder.sqpoll_idle is None ==> setup.sqpoll_cpu is None
            &&& setup.single_issuer == builder.single_issuer
            &&& setup.defer_taskrun <==> builder.defer_taskrun && builder.single_issuer
            &&& setup.coop_taskrun == builder.coop_taskrun
            &&& setup.taskrun_flag == builder.taskrun_flag
        }),
{
}

} // verus!

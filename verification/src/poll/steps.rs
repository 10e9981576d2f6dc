//! What each step does to the operations that wait, to what is believed of the
//! sources and to what the poller holds, told from the queues alone.

use crate::completion::Key;
use crate::error::Error;
use crate::os;
use crate::poll::args::WaitArg;
use crate::poll::driver::{Wait, Waited, after_wait};
use crate::poll::laws::{flushed_out, law_flush_applies_every_change};
use crate::poll::mask::{Event, Mask};
use crate::poll::queue::Source;
use crate::poll::state::{Change, State};
use crate::seqs::{lemma_without, without};
use crate::unix::{Interest, RawFd};
use vstd::prelude::*;

verus! {

/// The operations that wait for `interest` in `fd`, the next one first.
pub open spec fn queued(s: State, fd: RawFd, interest: Interest) -> Seq<Key> {
    if !s.sources.contains_key(fd) {
        Seq::empty()
    } else if interest is Readable {
        s.sources[fd].read
    } else {
        s.sources[fd].write
    }
}

/// `fd` is believed not to be ready for `interest`.
pub open spec fn believed(s: State, fd: RawFd, interest: Interest) -> bool {
    &&& s.sources.contains_key(fd)
    &&& interest is Readable ==> s.sources[fd].stale.readable
    &&& interest is Writable ==> s.sources[fd].stale.writable
}

/// The poller watches `fd` for `interest`.
pub open spec fn watched(s: State, fd: RawFd, interest: Interest) -> bool {
    &&& s.sources.contains_key(fd)
    &&& s.sources[fd].armed is Some
    &&& interest is Readable ==> (s.sources[fd].armed->0).readable
    &&& interest is Writable ==> (s.sources[fd].armed->0).writable
}

/// The mask that the poller holds for `fd`, where it holds one.
pub open spec fn armed(s: State, fd: RawFd) -> Option<Mask> {
    if s.sources.contains_key(fd) {
        s.sources[fd].armed
    } else {
        None
    }
}

/// The event reports, or asks for, `interest`.
pub open spec fn speaks_of(event: Event, interest: Interest) -> bool {
    &&& interest is Readable ==> event.readable
    &&& interest is Writable ==> event.writable
}

/// Something waits on `fd`.
pub open spec fn busy(s: State, fd: RawFd) -> bool {
    queued(s, fd, Interest::Readable).len() > 0 || queued(s, fd, Interest::Writable).len() > 0
}

/// How often `args` asks for `interest` in `fd`.
pub open spec fn asks(args: Seq<WaitArg>, fd: RawFd, interest: Interest) -> nat
    decreases args.len(),
{
    if args.len() == 0 {
        0
    } else {
        let rest = asks(args.drop_last(), fd, interest);
        if args.last().fd == fd && args.last().interest == interest {
            rest + 1
        } else {
            rest
        }
    }
}

/// `key`, `n` times over.
pub open spec fn times(key: Key, n: nat) -> Seq<Key> {
    Seq::new(n, |i: int| key)
}

proof fn lemma_asked(args: Seq<WaitArg>, i: int)
    requires
        0 <= i < args.len(),
    ensures
        asks(args, args[i].fd, args[i].interest) > 0,
    decreases args.len(),
{
    if i < args.len() - 1 {
        lemma_asked(args.drop_last(), i);
        assert(args.drop_last()[i] == args[i]);
    }
}

/// A submitted operation waits last for what it asks for and nowhere else.
/// Nothing else changes but that its source is listed.
pub proof fn law_submitting_queues_last(
    s: State,
    key: Key,
    arg: WaitArg,
    fd: RawFd,
    interest: Interest,
)
    ensures
        ({
            let t = s.submitted(key, arg);
            &&& queued(t, fd, interest) == (if fd == arg.fd && interest == arg.interest {
                queued(s, fd, interest) + seq![key]
            } else {
                queued(s, fd, interest)
            })
            &&& believed(t, fd, interest) <==> believed(s, fd, interest)
            &&& armed(t, fd) == armed(s, fd)
            &&& fd != arg.fd ==> t.sources.contains_key(fd) == s.sources.contains_key(fd)
                && t.sources[fd] == s.sources[fd]
            &&& t.sources.contains_key(arg.fd) && t.sources[arg.fd].listed
            &&& t.dirty == (if s.sources.contains_key(arg.fd) && s.sources[arg.fd].listed {
                s.dirty
            } else {
                s.dirty.push(arg.fd)
            })
            &&& t.applying == s.applying && t.failed == s.failed
        }),
{
}

/// An operation submitted to the front waits first for what it asks for and
/// nowhere else. Nothing else changes but that its source is listed.
pub proof fn law_submitting_to_the_front_queues_first(
    s: State,
    key: Key,
    arg: WaitArg,
    fd: RawFd,
    interest: Interest,
)
    ensures
        ({
            let t = s.submitted_front(key, arg);
            &&& queued(t, fd, interest) == (if fd == arg.fd && interest == arg.interest {
                seq![key] + queued(s, fd, interest)
            } else {
                queued(s, fd, interest)
            })
            &&& believed(t, fd, interest) <==> believed(s, fd, interest)
            &&& armed(t, fd) == armed(s, fd)
            &&& fd != arg.fd ==> t.sources.contains_key(fd) == s.sources.contains_key(fd)
                && t.sources[fd] == s.sources[fd]
            &&& t.sources.contains_key(arg.fd) && t.sources[arg.fd].listed
            &&& t.dirty == (if s.sources.contains_key(arg.fd) && s.sources[arg.fd].listed {
                s.dirty
            } else {
                s.dirty.push(arg.fd)
            })
            &&& t.applying == s.applying && t.failed == s.failed
        }),
{
}

/// A woken operation that is pending again goes back to the front: each queue
/// that it asks for, to read or to write, starts with it, once for each time it
/// asks, and goes on with all that waited before. All other queues stay as they
/// are, and so does what is believed and what the poller holds.
pub proof fn law_pending_operation_goes_back_to_the_front(
    s: State,
    key: Key,
    args: Seq<WaitArg>,
    fd: RawFd,
    interest: Interest,
)
    ensures
        ({
            let t = s.resubmitted(key, args);
            let before = queued(s, fd, interest);
            let after = queued(t, fd, interest);
            &&& after == times(key, asks(args, fd, interest)) + before
            &&& believed(t, fd, interest) <==> believed(s, fd, interest)
            &&& armed(t, fd) == armed(s, fd)
            &&& asks(args, fd, interest) > 0 ==> t.sources.contains_key(fd)
                && t.sources[fd].listed
            &&& s.sources.contains_key(fd) ==> t.sources.contains_key(fd) && (
            s.sources[fd].listed ==> t.sources[fd].listed)
            &&& t.applying == s.applying && t.failed == s.failed
        }),
    decreases args.len(),
{
    let t = s.resubmitted(key, args);
    let before = queued(s, fd, interest);
    if args.len() == 0 {
        assert(times(key, 0) + before =~= before);
    } else {
        let init = args.drop_last();
        law_pending_operation_goes_back_to_the_front(s, key, init, fd, interest);
        law_submitting_to_the_front_queues_first(
            s.resubmitted(key, init),
            key,
            args.last(),
            fd,
            interest,
        );
        let n = asks(init, fd, interest);
        assert(seq![key] + (times(key, n) + before) =~= times(key, n + 1) + before);
        assert(queued(t, fd, interest) =~= times(key, asks(args, fd, interest)) + before);
    }
}

/// Each thing that a pending operation asks for finds it first in its queue, with
/// the whole earlier queue behind it; the next report of it wakes the operation.
pub proof fn law_pending_operation_is_woken_next(
    s: State,
    key: Key,
    args: Seq<WaitArg>,
    i: int,
    event: Event,
)
    requires
        0 <= i < args.len(),
    ensures
        ({
            let t = s.resubmitted(key, args);
            let before = queued(s, args[i].fd, args[i].interest);
            let after = queued(t, args[i].fd, args[i].interest);
            &&& after.len() > before.len()
            &&& after[0] == key
            &&& after.skip(after.len() - before.len()) == before
            &&& speaks_of(event, args[i].interest) && (args[i].interest is Writable ==> !(
            event.readable && queued(t, args[i].fd, Interest::Readable).len() > 0)) ==> t.woken(
                args[i].fd,
                event,
            ) == Some((key, args[i].interest))
        }),
{
    let t = s.resubmitted(key, args);
    let before = queued(s, args[i].fd, args[i].interest);
    let after = queued(t, args[i].fd, args[i].interest);
    lemma_asked(args, i);
    law_pending_operation_goes_back_to_the_front(s, key, args, args[i].fd, args[i].interest);
    assert(after.skip(after.len() - before.len()) =~= before);
}

/// An operation that found none of `args` ready waits last for each of them, once
/// for each time it asks, behind all that waited before; all other queues stay as
/// they are. Exactly the interests that it asks for are newly believed not to be
/// ready.
pub proof fn law_blocked_operation_queues_last(
    s: State,
    key: Key,
    args: Seq<WaitArg>,
    fd: RawFd,
    interest: Interest,
)
    ensures
        ({
            let t = s.waiting(key, args);
            &&& queued(t, fd, interest) == queued(s, fd, interest) + times(
                key,
                asks(args, fd, interest),
            )
            &&& believed(t, fd, interest) <==> believed(s, fd, interest) || asks(
                args,
                fd,
                interest,
            ) > 0
            &&& armed(t, fd) == armed(s, fd)
            &&& asks(args, fd, interest) > 0 ==> t.sources.contains_key(fd)
                && t.sources[fd].listed
            &&& s.sources.contains_key(fd) ==> t.sources.contains_key(fd) && (
            s.sources[fd].listed ==> t.sources[fd].listed)
            &&& t.applying == s.applying && t.failed == s.failed
        }),
    decreases args.len(),
{
    let t = s.waiting(key, args);
    let before = queued(s, fd, interest);
    if args.len() == 0 {
        assert(before + times(key, 0) =~= before);
    } else {
        let init = args.drop_last();
        let u = s.waiting(key, init);
        let arg = args.last();
        law_blocked_operation_queues_last(s, key, init, fd, interest);
        law_submitting_queues_last(u, key, arg, fd, interest);
        law_belief_is_set(u.submitted(key, arg), arg.fd, arg.interest, fd, interest);
        let n = asks(init, fd, interest);
        assert((before + times(key, n)) + seq![key] =~= before + times(key, n + 1));
        assert(queued(t, fd, interest) =~= before + times(key, asks(args, fd, interest)));
    }
}

/// Readiness that was consumed is believed spent, for that source and interest
/// alone; nothing else changes.
pub proof fn law_belief_is_set(
    s: State,
    fd: RawFd,
    interest: Interest,
    other: RawFd,
    another: Interest,
)
    ensures
        ({
            let t = s.staled(fd, interest);
            &&& believed(t, other, another) <==> believed(s, other, another) || (other == fd
                && another == interest && s.sources.contains_key(fd))
            &&& queued(t, other, another) == queued(s, other, another)
            &&& armed(t, other) == armed(s, other)
            &&& t.sources.contains_key(other) == s.sources.contains_key(other)
            &&& s.sources.contains_key(other) ==> t.sources[other].listed
                == s.sources[other].listed
            &&& t.dirty == s.dirty && t.applying == s.applying && t.failed == s.failed
        }),
{
}

/// What is asked of the belief is what is believed.
pub proof fn law_belief_is_what_is_asked(s: State, fd: RawFd, interest: Interest)
    ensures
        s.is_stale(fd, interest) <==> believed(s, fd, interest),
{
}

/// An operation that is taken off a source waits there no more; the others wait
/// as they did. The source is listed, so that its registration follows.
pub proof fn law_removed_operation_leaves_the_others(
    s: State,
    key: Key,
    fd: RawFd,
    other: RawFd,
    interest: Interest,
)
    ensures
        ({
            let t = s.removed(key, fd);
            &&& queued(t, other, interest) == (if other == fd {
                without(queued(s, fd, interest), key)
            } else {
                queued(s, other, interest)
            })
            &&& believed(t, other, interest) <==> believed(s, other, interest)
            &&& armed(t, other) == armed(s, other)
            &&& t.sources.contains_key(other) == s.sources.contains_key(other)
            &&& other != fd ==> t.sources[other] == s.sources[other]
            &&& s.sources.contains_key(fd) ==> t.sources[fd].listed
            &&& t.dirty == (if s.sources.contains_key(fd) && !s.sources[fd].listed {
                s.dirty.push(fd)
            } else {
                s.dirty
            })
            &&& t.applying == s.applying && t.failed == s.failed
        }),
{
    assert(without(Seq::<Key>::empty(), key) =~= Seq::<Key>::empty()) by {
        reveal(Seq::filter);
    }
}

/// A cancelled operation is taken off every queue of the descriptors it waited on
/// and off no other; those of them that are sources are listed. The others wait as
/// they did, and what is believed and what the poller holds stays.
pub proof fn law_cancelled_operation_leaves_the_others(
    s: State,
    key: Key,
    fds: Seq<RawFd>,
    fd: RawFd,
    interest: Interest,
)
    ensures
        ({
            let t = s.removed_from(key, fds);
            &&& queued(t, fd, interest) == (if fds.contains(fd) {
                without(queued(s, fd, interest), key)
            } else {
                queued(s, fd, interest)
            })
            &&& believed(t, fd, interest) <==> believed(s, fd, interest)
            &&& armed(t, fd) == armed(s, fd)
            &&& t.sources.contains_key(fd) == s.sources.contains_key(fd)
            &&& fds.contains(fd) && s.sources.contains_key(fd) ==> t.sources[fd].listed
            &&& s.sources.contains_key(fd) && s.sources[fd].listed ==> t.sources[fd].listed
            &&& !fds.contains(fd) && s.sources.contains_key(fd) ==> t.sources[fd] == s.sources[fd]
            &&& t.applying == s.applying && t.failed == s.failed
        }),
    decreases fds.len(),
{
    if fds.len() > 0 {
        let init = fds.drop_last();
        let before = s.removed_from(key, init);
        let queue = queued(s, fd, interest);
        law_cancelled_operation_leaves_the_others(s, key, init, fd, interest);
        law_removed_operation_leaves_the_others(before, key, fds.last(), fd, interest);
        lemma_without(queue, key);
        lemma_without(without(queue, key), key);
        assert(!without(queue, key).contains(key));
        assert(fds.contains(fd) <==> init.contains(fd) || fd == fds.last()) by {
            if init.contains(fd) {
                assert(fds[init.index_of(fd)] == fd);
            }
            assert(fds[fds.len() - 1] == fds.last());
            if fds.contains(fd) && fd != fds.last() {
                assert(init[fds.index_of(fd)] == fd);
            }
        }
    }
}

/// A report wakes the operation that has waited longest for what it names, reads
/// before writes, and takes it off that queue alone. It supersedes what was
/// believed of the interests that it names. A report of an unknown source changes
/// nothing.
pub proof fn law_report_wakes_one_and_corrects_belief(
    s: State,
    fd: RawFd,
    event: Event,
    other: RawFd,
    interest: Interest,
)
    ensures
        ({
            let t = s.reported(fd, event);
            let reads = event.readable && queued(s, fd, Interest::Readable).len() > 0;
            let writes = event.writable && queued(s, fd, Interest::Writable).len() > 0;
            &&& s.woken(fd, event) == (if reads {
                Some((queued(s, fd, Interest::Readable)[0], Interest::Readable))
            } else if writes {
                Some((queued(s, fd, Interest::Writable)[0], Interest::Writable))
            } else {
                None
            })
            &&& s.woken(fd, event) matches Some((key, woken)) ==> queued(s, fd, woken) == seq![key]
                + queued(t, fd, woken)
            &&& (other != fd || s.woken(fd, event) is None || (s.woken(fd, event)->0).1
                != interest) ==> queued(t, other, interest) == queued(s, other, interest)
            &&& believed(t, other, interest) <==> believed(s, other, interest) && !(other == fd
                && speaks_of(event, interest))
            &&& armed(t, other) == armed(s, other)
            &&& t.sources.contains_key(other) == s.sources.contains_key(other)
            &&& other != fd ==> t.sources[other] == s.sources[other]
            &&& s.woken(fd, event) is Some ==> t.sources[fd].listed
            &&& t.dirty == (if s.woken(fd, event) is Some && !s.sources[fd].listed {
                s.dirty.push(fd)
            } else {
                s.dirty
            })
            &&& t.applying == s.applying && t.failed == s.failed
        }),
{
    let t = s.reported(fd, event);
    if let Some((key, woken)) = s.woken(fd, event) {
        assert(queued(s, fd, woken) =~= seq![key] + queued(t, fd, woken));
    }
}

/// Looking at a listed source asks the poller for exactly what the queues of that
/// source need: nothing where it watches for that already, the end of the
/// registration where nothing waits any more, and else an event for that source
/// that names reading exactly when an operation waits to read, and writing exactly
/// when one waits to write.
pub proof fn law_change_asks_for_what_is_waited_for(s: State)
    requires
        s.dirty.len() > 0,
    ensures
        ({
            let fd = s.dirty.last();
            let known = s.sources.contains_key(fd);
            let in_place = armed(s, fd) is Some && forall|interest: Interest|
                #![trigger watched(s, fd, interest)]
                watched(s, fd, interest) <==> queued(s, fd, interest).len() > 0;
            match s.due() {
                None => false,
                Some(Change::Keep) => !known || (busy(s, fd) && in_place),
                Some(Change::Drop) => known && !busy(s, fd) && armed(s, fd) is None,
                Some(Change::Forget(f)) => f == fd && known && !busy(s, fd) && armed(s, fd) is Some,
                Some(Change::Modify(f, event)) => f == fd && busy(s, fd) && armed(s, fd) is Some
                    && !in_place && event.key as i32 == fd && (forall|interest: Interest|
                    #![trigger speaks_of(event, interest)]
                    speaks_of(event, interest) <==> queued(s, fd, interest).len() > 0),
                Some(Change::Register(f, event)) => f == fd && busy(s, fd) && armed(s, fd) is None
                    && event.key as i32 == fd && (forall|interest: Interest|
                    #![trigger speaks_of(event, interest)]
                    speaks_of(event, interest) <==> queued(s, fd, interest).len() > 0),
            }
        }),
{
    let fd = s.dirty.last();
    assert((fd as usize) as i32 == fd) by (bit_vector);
    if s.sources.contains_key(fd) && s.sources[fd].armed is Some {
        assert(watched(s, fd, Interest::Readable) <==> (s.sources[fd].armed->0).readable);
        assert(watched(s, fd, Interest::Writable) <==> (s.sources[fd].armed->0).writable);
    }
}

/// Nothing is due exactly when nothing is listed.
pub proof fn law_due_ends_with_the_list(s: State)
    ensures
        s.due() is None <==> s.dirty.len() == 0,
        s.dirty.len() == 0 ==> s.flushed() == s,
{
}

/// Looking at a listed source takes it off the list. A source that nothing waits
/// on is gone; of all others the queues, the belief and the registration stay. A
/// change is under way exactly where the poller is asked for one, and then it is
/// for what is waited for.
pub proof fn law_looking_takes_off_the_list(s: State, fd: RawFd, interest: Interest)
    requires
        s.dirty.len() > 0,
        s.applying is None,
    ensures
        ({
            let last = s.dirty.last();
            let t = s.flushed();
            &&& t.dirty == s.dirty.drop_last()
            &&& t.failed == s.failed
            &&& queued(t, fd, interest) == queued(s, fd, interest)
            &&& t.sources.contains_key(fd) <==> s.sources.contains_key(fd) && (fd != last || busy(
                s,
                fd,
            ))
            &&& t.sources.contains_key(fd) ==> (believed(t, fd, interest) <==> believed(
                s,
                fd,
                interest,
            )) && armed(t, fd) == armed(s, fd) && t.sources[fd].listed == (fd != last
                && s.sources[fd].listed)
            &&& t.applying is Some <==> (s.due() matches Some(change) && (change is Modify
                || change is Register))
            &&& t.applying matches Some((f, mask)) ==> f == last && (mask.readable <==> queued(
                s,
                last,
                Interest::Readable,
            ).len() > 0) && (mask.writable <==> queued(s, last, Interest::Writable).len() > 0)
        }),
{
    assert(queued(s.flushed(), fd, interest) =~= queued(s, fd, interest));
}

/// An accepted change is what the poller holds from then on; a refused one takes
/// the source away and is remembered as a failure. Nothing else changes.
pub proof fn law_outcome_settles_the_change(s: State, fd: RawFd, interest: Interest)
    requires
        s.applying matches Some((f, _)) && s.sources.contains_key(f),
    ensures
        ({
            let (changed, mask) = s.applying->0;
            let t = s.accepted();
            let r = s.refused();
            &&& t.applying is None && r.applying is None
            &&& t.dirty == s.dirty && r.dirty == s.dirty
            &&& t.failed == s.failed && r.failed
            &&& armed(t, fd) == (if fd == changed {
                Some(mask)
            } else {
                armed(s, fd)
            })
            &&& queued(t, fd, interest) == queued(s, fd, interest)
            &&& believed(t, fd, interest) <==> believed(s, fd, interest)
            &&& t.sources.contains_key(fd) == s.sources.contains_key(fd)
            &&& s.sources.contains_key(fd) ==> t.sources[fd].listed == s.sources[fd].listed
            &&& !r.sources.contains_key(changed)
            &&& fd != changed ==> r.sources.contains_key(fd) == s.sources.contains_key(fd)
                && r.sources[fd] == s.sources[fd]
        }),
{
}

/// Without a change under way an outcome changes nothing; one for a source that is
/// gone only ends the change, and counts as a failure where it was refused.
pub proof fn law_outcome_needs_a_change(s: State)
    ensures
        s.applying is None ==> s.accepted() == s && s.refused() == s,
        (s.applying matches Some((fd, _)) && !s.sources.contains_key(fd)) ==> {
            &&& s.accepted() == (State { applying: None, ..s })
            &&& s.refused() == (State { applying: None, failed: true, ..s })
        },
{
    if let Some((fd, _)) = s.applying {
        if !s.sources.contains_key(fd) {
            assert(s.sources.remove(fd) =~= s.sources);
        }
    }
}

/// After a flush that the poller accepts, it watches a source for an interest
/// exactly when an operation waits for that interest in it, and the operations
/// wait as they did.
pub proof fn law_poller_watches_exactly_what_is_waited_for(
    s: State,
    fd: RawFd,
    interest: Interest,
)
    requires
        s.quiet(),
    ensures
        watched(flushed_out(s), fd, interest) <==> queued(s, fd, interest).len() > 0,
        queued(flushed_out(s), fd, interest) == queued(s, fd, interest),
        armed(flushed_out(s), fd) is Some <==> busy(s, fd),
        flushed_out(s).registrations().contains_key(fd) <==> busy(s, fd),
        busy(s, fd) ==> ({
            let mask = flushed_out(s).registrations()[fd];
            &&& mask.readable <==> queued(s, fd, Interest::Readable).len() > 0
            &&& mask.writable <==> queued(s, fd, Interest::Writable).len() > 0
        }),
        flushed_out(s).dirty.len() == 0,
{
    let t = flushed_out(s);
    law_flush_applies_every_change(s, fd);
    law_source_of_nothing_is_fresh(s, fd);
    law_source_of_nothing_is_fresh(t, fd);
    law_account_is_what_is_armed(t, fd);
    assert(queued(t, fd, interest) =~= queued(s, fd, interest));
}

/// What is known of a source that was never heard of is that nothing waits on it,
/// nothing is believed and the poller does not hold it.
pub proof fn law_source_of_nothing_is_fresh(s: State, fd: RawFd)
    ensures
        s.at(fd).read == queued(s, fd, Interest::Readable),
        s.at(fd).write == queued(s, fd, Interest::Writable),
        s.at(fd).armed == armed(s, fd),
        s.at(fd).stale.readable <==> believed(s, fd, Interest::Readable),
        s.at(fd).stale.writable <==> believed(s, fd, Interest::Writable),
        s.at(fd).listed <==> s.sources.contains_key(fd) && s.sources[fd].listed,
        s.at(fd).idle() <==> !busy(s, fd),
{
}

/// The account of what the poller holds is the armed masks of the sources.
pub proof fn law_account_is_what_is_armed(s: State, fd: RawFd)
    ensures
        s.registrations().contains_key(fd) <==> armed(s, fd) is Some,
        s.registrations().contains_key(fd) ==> Some(s.registrations()[fd]) == armed(s, fd),
{
}

/// A new driver knows of no source, has nothing to look at and no failure to
/// tell.
pub proof fn law_new_driver_knows_nothing(fd: RawFd)
    ensures
        !State::empty().sources.contains_key(fd),
        State::empty().dirty.len() == 0,
        State::empty().applying is None,
        !State::empty().failed,
{
}

/// Attaching a descriptor takes away its source and its place in the list; all
/// else stays, and a descriptor that is no source is left alone.
pub proof fn law_attaching_takes_away_one_source(s: State, fd: RawFd, other: RawFd)
    ensures
        ({
            let t = s.attached(fd);
            &&& !t.sources.contains_key(fd)
            &&& other != fd ==> t.sources.contains_key(other) == s.sources.contains_key(other)
                && t.sources[other] == s.sources[other]
            &&& t.dirty == (if s.sources.contains_key(fd) {
                without(s.dirty, fd)
            } else {
                s.dirty
            })
            &&& t.applying == s.applying && t.failed == s.failed
        }),
{
}

/// Deciding whether to wait uses up the failure and nothing else.
pub proof fn law_failure_is_told_once(s: State)
    ensures
        !s.rested().failed,
        s.rested().sources == s.sources,
        s.rested().dirty == s.dirty,
        s.rested().applying == s.applying,
{
}

/// Of one source: it needs an interest exactly when an operation waits for it,
/// and it is idle exactly when none waits for either.
pub proof fn law_source_needs_what_is_waited_for(source: Source)
    ensures
        source.needs().readable <==> source.read != Seq::<Key>::empty(),
        source.needs().writable <==> source.write != Seq::<Key>::empty(),
        source.idle() <==> source.read == Seq::<Key>::empty() && source.write == Seq::<
            Key,
        >::empty(),
{
    if source.read.len() == 0 {
        assert(source.read =~= Seq::empty());
    }
    if source.write.len() == 0 {
        assert(source.write =~= Seq::empty());
    }
}

/// Of one source: queueing, taking out and removing change the queue that is
/// meant, in the way that is meant, and leave the rest of the source alone. The
/// operation that is taken out was first in its queue.
pub proof fn law_source_keeps_its_queues_apart(
    source: Source,
    interest: Interest,
    keys: Seq<Key>,
    key: Key,
    event: Event,
)
    ensures
        source.queue(Interest::Readable) == source.read,
        source.queue(Interest::Writable) == source.write,
        ({
            let t = source.with_queue(interest, keys);
            &&& interest is Readable ==> t.read == keys && t.write == source.write
            &&& interest is Writable ==> t.write == keys && t.read == source.read
            &&& t.armed == source.armed && t.listed == source.listed && t.stale == source.stale
        }),
        ({
            let t = source.dropped(key);
            &&& t.read == without(source.read, key) && t.write == without(source.write, key)
            &&& t.armed == source.armed && t.listed == source.listed && t.stale == source.stale
        }),
        ({
            let t = source.popped(event);
            let reads = event.readable && source.read.len() > 0;
            let writes = !reads && event.writable && source.write.len() > 0;
            &&& source.next(event) is Some <==> reads || writes
            &&& source.next(event) matches Some((k, i)) ==> (if reads {
                i is Readable && source.read == seq![k] + t.read && t.write == source.write
            } else {
                i is Writable && source.write == seq![k] + t.write && t.read == source.read
            })
            &&& source.next(event) is None ==> t == source
            &&& t.armed == source.armed && t.listed == source.listed && t.stale == source.stale
        }),
        source.holds(key) <==> source.read.contains(key) || source.write.contains(key),
{
    let t = source.popped(event);
    if let Some((k, i)) = source.next(event) {
        if i is Readable {
            assert(source.read =~= seq![k] + t.read);
        } else {
            assert(source.write =~= seq![k] + t.write);
        }
    }
}

/// A limited wait in which nothing was reported and nothing finished times out,
/// whatever its limit was, and nothing else does. With nothing reported, finished
/// operations end the turn well; in all other cases the reports are taken in.
pub proof fn law_limited_wait_without_news_times_out(wait: Wait, no_events: bool, drained: bool)
    ensures
        (after_wait(wait, no_events, drained) matches Waited::Return(Err(Error::Os { code, .. }))
            && code == os::ETIMEDOUT) <==> wait.timed && no_events && !drained,
        after_wait(wait, no_events, drained) == Waited::Return(Ok(())) <==> no_events && drained,
        after_wait(wait, no_events, drained) is Dispatch <==> !no_events || (!drained
            && !wait.timed),
{
}

} // verus!

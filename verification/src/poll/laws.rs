//! What holds of the driver across calls.

use crate::completion::Key;
use crate::error::Error;
use crate::poll::args::WaitArg;
use crate::poll::mask::Event;
use crate::poll::queue::Source;
use crate::poll::state::{
    Change, State, lemma_flushed, lemma_removed_from, lemma_reported, lemma_settled,
    lemma_submitted,
};
use crate::seqs::{distinct, lemma_distinct, lemma_without, without};
use crate::unix::{Interest, RawFd};
use vstd::prelude::*;

verus! {

/// Once the registrations are flushed, the poller holds for every source what
/// its queued operations need, and nothing for any other.
pub proof fn law_flushed_registrations_match_the_queues(s: State, fd: RawFd)
    requires
        s.quiet(),
        s.dirty.len() == 0,
    ensures
        s.registrations().contains_key(fd) <==> !s.at(fd).idle(),
        s.registrations().contains_key(fd) ==> s.registrations()[fd] == s.at(fd).needs(),
{
    if s.sources.contains_key(fd) {
        assert(!s.dirty.contains(fd));
        assert(s.in_step(fd));
    }
}

/// No wakeup is lost: at all times, an operation that waits for readiness is
/// registered for it, or its source is looked at before the next wait.
pub proof fn law_waiting_operation_is_registered_or_listed(
    s: State,
    fd: RawFd,
    interest: Interest,
    key: Key,
)
    requires
        s.quiet(),
        s.at(fd).queue(interest).contains(key),
    ensures
        s.dirty.contains(fd) || (s.registrations().contains_key(fd)
            && s.registrations()[fd].has(interest)),
{
    assert(s.sources.contains_key(fd));
    if !s.sources[fd].listed {
        assert(s.in_step(fd));
    } else {
        assert(s.dirty.contains(fd));
    }
}

/// Flushing comes to an end: each step takes one source off the list.
pub proof fn law_flushing_ends(s: State)
    ensures
        s.due() is None <==> s.dirty.len() == 0,
        s.dirty.len() > 0 ==> s.flushed().dirty.len() == s.dirty.len() - 1,
        s.flushed().accepted().dirty == s.flushed().dirty,
        s.flushed().refused().dirty == s.flushed().dirty,
{
}

/// Marking a source keeps the list in step with the sources. One that is unknown
/// or listed already is left alone; else it is listed last, and nothing else
/// changes. Marking twice is marking once.
pub proof fn law_marking_keeps_the_list_in_step(s: State, fd: RawFd)
    requires
        s.tallied(),
    ensures
        s.marked(fd).tallied(),
        !s.sources.contains_key(fd) || s.dirty.contains(fd) ==> s.marked(fd) == s,
        s.sources.contains_key(fd) && !s.dirty.contains(fd) ==> s.marked(fd) == (State {
            sources: s.sources.insert(fd, Source { listed: true, ..s.sources[fd] }),
            dirty: s.dirty.push(fd),
            ..s
        }),
        s.marked(fd).marked(fd) == s.marked(fd),
{
    let t = s.marked(fd);
    assert(s.dirty.contains(fd) <==> s.sources.contains_key(fd) && s.sources[fd].listed);
    if s.sources.contains_key(fd) && !s.dirty.contains(fd) {
        assert forall|f: RawFd| #[trigger] t.dirty.contains(f) <==> t.sources.contains_key(f)
            && t.sources[f].listed by {
            if s.dirty.contains(f) {
                assert(t.dirty[s.dirty.index_of(f)] == f);
            }
            assert(t.dirty[s.dirty.len() as int] == fd);
            assert(s.dirty.contains(f) <==> s.sources.contains_key(f) && s.sources[f].listed);
        }
    }
}

/// The state after all listed sources were looked at, where the poller accepts
/// every change.
pub open spec fn flushed_out(s: State) -> State
    decreases s.dirty.len(),
{
    if s.dirty.len() == 0 {
        s
    } else {
        flushed_out(s.flushed().accepted())
    }
}

/// A flush applies every pending change: where the poller accepts them, it holds
/// afterwards for each source what the operations queued on it need, and these
/// operations stay as they are.
pub proof fn law_flush_applies_every_change(s: State, fd: RawFd)
    requires
        s.quiet(),
    ensures
        ({
            let t = flushed_out(s);
            &&& t.quiet()
            &&& t.dirty.len() == 0
            &&& t.at(fd).read == s.at(fd).read
            &&& t.at(fd).write == s.at(fd).write
            &&& !s.at(fd).idle() ==> t.at(fd).stale == s.at(fd).stale
            &&& t.registrations().contains_key(fd) <==> !s.at(fd).idle()
            &&& t.registrations().contains_key(fd) ==> t.registrations()[fd] == s.at(fd).needs()
        }),
    decreases s.dirty.len(),
{
    if s.dirty.len() == 0 {
        law_flushed_registrations_match_the_queues(s, fd);
    } else {
        let t = s.flushed().accepted();
        lemma_flushed(s);
        lemma_settled(s.flushed());
        assert(t.at(fd).read =~= s.at(fd).read);
        assert(t.at(fd).write =~= s.at(fd).write);
        law_flush_applies_every_change(t, fd);
    }
}

/// The state after each of `keys`, the operations of the refused source `fd`, was
/// taken off the other descriptors it waits on, which `waits` tells.
pub open spec fn failed_keys(
    s: State,
    fd: RawFd,
    keys: Seq<Key>,
    waits: spec_fn(Key) -> Seq<RawFd>,
) -> State
    decreases keys.len(),
{
    if keys.len() == 0 {
        s
    } else {
        failed_keys(s, fd, keys.drop_last(), waits).removed_from(
            keys.last(),
            without(waits(keys.last()), fd),
        )
    }
}

/// The state after the source listed last was looked at and, where that asked
/// for a change of its registration, after the outcome was taken in.
pub open spec fn flush_step(
    s: State,
    outcome: Option<Result<(), Error>>,
    waits: spec_fn(Key) -> Seq<RawFd>,
) -> State {
    let t = s.flushed();
    match outcome {
        None => t,
        Some(Ok(_)) => t.accepted(),
        Some(Err(_)) => {
            let fd = (t.applying->0).0;
            let source = t.sources[fd];
            failed_keys(t.refused(), fd, distinct(source.read + source.write), waits)
        },
    }
}

/// The state after the sources that `run` tells of were looked at, one by one.
pub open spec fn flush_run(
    s: State,
    run: Seq<Option<Result<(), Error>>>,
    waits: spec_fn(Key) -> Seq<RawFd>,
) -> State
    decreases run.len(),
{
    if run.len() == 0 {
        s
    } else {
        flush_step(flush_run(s, run.drop_last(), waits), run.last(), waits)
    }
}

/// `run` is what a flush of `s` may come to: as long as it goes on a source is
/// listed, and there is an outcome exactly where a change was asked for.
pub open spec fn flush_may_run(
    s: State,
    run: Seq<Option<Result<(), Error>>>,
    waits: spec_fn(Key) -> Seq<RawFd>,
) -> bool
    decreases run.len(),
{
    run.len() > 0 ==> {
        let t = flush_run(s, run.drop_last(), waits);
        &&& flush_may_run(s, run.drop_last(), waits)
        &&& t.dirty.len() > 0
        &&& run.last() is Some <==> t.flushed().applying is Some
    }
}

/// The outcome of a change that the poller refused.
pub open spec fn refusal(outcome: Option<Result<(), Error>>) -> bool {
    outcome matches Some(Err(_))
}

/// A flush as a whole, whatever the poller makes of each change. It keeps the
/// invariant and comes to an end, at which the list is empty. It failed exactly
/// when a change was refused. A source that is kept is believed of as before, and
/// in the end the poller holds for it what it needs. No operation waits where it
/// did not wait, and without a refusal all wait as they did.
pub proof fn law_flush_takes_any_outcomes(
    s: State,
    run: Seq<Option<Result<(), Error>>>,
    waits: spec_fn(Key) -> Seq<RawFd>,
    fd: RawFd,
    key: Key,
)
    requires
        s.quiet(),
        flush_may_run(s, run, waits),
    ensures
        ({
            let t = flush_run(s, run, waits);
            let refused = exists|i: int| 0 <= i < run.len() && refusal(#[trigger] run[i]);
            let n = s.sources.dom().len();
            &&& t.quiet()
            &&& run.len() + t.dirty.len() <= s.dirty.len() + n * n
            &&& t.failed <==> s.failed || refused
            &&& t.sources.contains_key(fd) ==> s.sources.contains_key(fd) && t.sources[fd].stale
                == s.sources[fd].stale
            &&& t.sources.contains_key(fd) && t.dirty.len() == 0 ==> !t.sources[fd].idle()
                && t.sources[fd].armed == Some(t.sources[fd].needs())
            &&& t.at(fd).holds(key) ==> s.at(fd).holds(key)
            &&& !refused ==> t.at(fd).read == s.at(fd).read && t.at(fd).write == s.at(fd).write
        }),
{
    let t = flush_run(s, run, waits);
    lemma_flush_run(s, run, waits);
    lemma_flush_keeps(s, run, waits, fd, key);
    assert(run.len() + t.dirty.len() <= s.dirty.len() + s.sources.dom().len()
        * s.sources.dom().len()) by {
        assert(t.sources.dom().len() * t.sources.dom().len() >= 0) by (nonlinear_arith);
    }
    if t.sources.contains_key(fd) && t.dirty.len() == 0 {
        assert(!t.dirty.contains(fd));
        assert(t.in_step(fd));
    }
}

proof fn lemma_flush_run(
    s: State,
    run: Seq<Option<Result<(), Error>>>,
    waits: spec_fn(Key) -> Seq<RawFd>,
)
    requires
        s.quiet(),
        flush_may_run(s, run, waits),
    ensures
        ({
            let t = flush_run(s, run, waits);
            let m = t.sources.dom().len();
            let n = s.sources.dom().len();
            &&& t.quiet()
            &&& run.len() + t.dirty.len() + m * m <= s.dirty.len() + n * n
            &&& t.failed <==> s.failed || exists|i: int|
                0 <= i < run.len() && refusal(#[trigger] run[i])
        }),
    decreases run.len(),
{
    if run.len() > 0 {
        let init = run.drop_last();
        let t = flush_run(s, init, waits);
        lemma_flush_run(s, init, waits);
        lemma_flush_step(t, run.last(), waits);
        let before = exists|i: int| 0 <= i < init.len() && refusal(#[trigger] init[i]);
        let all = exists|i: int| 0 <= i < run.len() && refusal(#[trigger] run[i]);
        assert(all <==> before || refusal(run.last())) by {
            if before {
                let i = choose|i: int| 0 <= i < init.len() && refusal(#[trigger] init[i]);
                assert(run[i] == init[i]);
            }
            if refusal(run.last()) {
                assert(refusal(run[run.len() - 1]));
            }
            if all && !refusal(run.last()) {
                let i = choose|i: int| 0 <= i < run.len() && refusal(#[trigger] run[i]);
                assert(init[i] == run[i]);
            }
        }
    }
}

proof fn lemma_flush_keeps(
    s: State,
    run: Seq<Option<Result<(), Error>>>,
    waits: spec_fn(Key) -> Seq<RawFd>,
    fd: RawFd,
    key: Key,
)
    requires
        s.quiet(),
        flush_may_run(s, run, waits),
    ensures
        ({
            let t = flush_run(s, run, waits);
            &&& t.sources.contains_key(fd) ==> s.sources.contains_key(fd) && t.sources[fd].stale
                == s.sources[fd].stale
            &&& t.at(fd).holds(key) ==> s.at(fd).holds(key)
            &&& (forall|i: int| 0 <= i < run.len() ==> !refusal(#[trigger] run[i])) ==> t.at(fd).read
                == s.at(fd).read && t.at(fd).write == s.at(fd).write
        }),
    decreases run.len(),
{
    if run.len() > 0 {
        let init = run.drop_last();
        let t = flush_run(s, init, waits);
        lemma_flush_run(s, init, waits);
        lemma_flush_keeps(s, init, waits, fd, key);
        lemma_flush_step(t, run.last(), waits);
        lemma_flush_step_keeps(t, run.last(), waits, fd, key);
        if forall|i: int| 0 <= i < run.len() ==> !refusal(#[trigger] run[i]) {
            assert(!refusal(run[run.len() - 1]));
            assert forall|i: int| 0 <= i < init.len() implies !refusal(#[trigger] init[i]) by {
                assert(run[i] == init[i]);
            }
        }
    }
}

/// One look keeps the invariant and uses up some of what is left to do.
proof fn lemma_flush_step(
    s: State,
    outcome: Option<Result<(), Error>>,
    waits: spec_fn(Key) -> Seq<RawFd>,
)
    requires
        s.quiet(),
        s.dirty.len() > 0,
        outcome is Some <==> s.flushed().applying is Some,
    ensures
        ({
            let t = flush_step(s, outcome, waits);
            let m = t.sources.dom().len();
            let n = s.sources.dom().len();
            &&& t.quiet()
            &&& 1 + t.dirty.len() + m * m <= s.dirty.len() + n * n
            &&& t.failed <==> s.failed || refusal(outcome)
        }),
{
    let f = s.flushed();
    let last = s.dirty.last();
    assert(s.dirty.contains(last));
    lemma_flushed(s);
    lemma_settled(f);
    let t = flush_step(s, outcome, waits);
    let n = s.sources.dom().len() as int;
    if refusal(outcome) {
        let fd = (f.applying->0).0;
        let source = f.sources[fd];
        let keys = distinct(source.read + source.write);
        lemma_failed_keys(f.refused(), fd, keys, waits);
        assert(fd == last);
        assert(t.sources.dom() =~= s.sources.dom().remove(last));
        assert(t.dirty.to_set().subset_of(t.sources.dom())) by {
            assert forall|x: RawFd| t.dirty.to_set().contains(x) implies t.sources.dom().contains(
                x,
            ) by {
                assert(t.dirty.contains(x));
            }
        }
        t.dirty.unique_seq_to_set();
        vstd::set_lib::lemma_len_subset(t.dirty.to_set(), t.sources.dom());
        assert(1 + (n - 1) + (n - 1) * (n - 1) <= 1 + n * n) by (nonlinear_arith)
            requires
                n >= 1,
        ;
    } else {
        let m = t.sources.dom().len() as int;
        if s.sources[last].idle() {
            assert(t.sources.dom() =~= s.sources.dom().remove(last));
        } else {
            assert(t.sources.dom() =~= s.sources.dom());
        }
        assert(m * m <= n * n) by (nonlinear_arith)
            requires
                0 <= m <= n,
        ;
    }
}

/// One look adds nothing to what is known or waited for.
proof fn lemma_flush_step_keeps(
    s: State,
    outcome: Option<Result<(), Error>>,
    waits: spec_fn(Key) -> Seq<RawFd>,
    fd: RawFd,
    key: Key,
)
    requires
        s.quiet(),
        s.dirty.len() > 0,
        outcome is Some <==> s.flushed().applying is Some,
    ensures
        ({
            let t = flush_step(s, outcome, waits);
            &&& t.sources.contains_key(fd) ==> s.sources.contains_key(fd) && t.sources[fd].stale
                == s.sources[fd].stale
            &&& t.at(fd).holds(key) ==> s.at(fd).holds(key)
            &&& !refusal(outcome) ==> t.at(fd).read == s.at(fd).read && t.at(fd).write == s.at(
                fd,
            ).write
        }),
{
    let f = s.flushed();
    let t = flush_step(s, outcome, waits);
    assert(f.at(fd).read =~= s.at(fd).read);
    assert(f.at(fd).write =~= s.at(fd).write);
    if refusal(outcome) {
        let refused = (f.applying->0).0;
        let source = f.sources[refused];
        let keys = distinct(source.read + source.write);
        lemma_failed_keys_keep(f.refused(), refused, keys, waits, fd, key);
    } else {
        assert(t.at(fd).read =~= s.at(fd).read);
        assert(t.at(fd).write =~= s.at(fd).write);
    }
}

proof fn lemma_failed_keys(
    s: State,
    fd: RawFd,
    keys: Seq<Key>,
    waits: spec_fn(Key) -> Seq<RawFd>,
)
    requires
        s.quiet(),
    ensures
        failed_keys(s, fd, keys, waits).quiet(),
        failed_keys(s, fd, keys, waits).failed == s.failed,
        failed_keys(s, fd, keys, waits).sources.dom() == s.sources.dom(),
    decreases keys.len(),
{
    if keys.len() > 0 {
        let before = failed_keys(s, fd, keys.drop_last(), waits);
        let others = without(waits(keys.last()), fd);
        lemma_failed_keys(s, fd, keys.drop_last(), waits);
        lemma_removed_from(before, keys.last(), others);
        lemma_removed_keeps(before, keys.last(), others, fd, keys.last());
    }
}

proof fn lemma_failed_keys_keep(
    s: State,
    fd: RawFd,
    keys: Seq<Key>,
    waits: spec_fn(Key) -> Seq<RawFd>,
    other: RawFd,
    key: Key,
)
    ensures
        ({
            let t = failed_keys(s, fd, keys, waits);
            &&& t.sources.dom() == s.sources.dom()
            &&& t.sources.contains_key(other) ==> t.sources[other].stale == s.sources[other].stale
            &&& t.at(other).holds(key) ==> s.at(other).holds(key)
        }),
    decreases keys.len(),
{
    if keys.len() > 0 {
        let before = failed_keys(s, fd, keys.drop_last(), waits);
        let others = without(waits(keys.last()), fd);
        lemma_failed_keys_keep(s, fd, keys.drop_last(), waits, other, key);
        lemma_removed_keeps(before, keys.last(), others, other, key);
    }
}

/// Removing an operation changes nothing but the queues and the list.
proof fn lemma_removed_keeps(s: State, key: Key, fds: Seq<RawFd>, fd: RawFd, other: Key)
    ensures
        ({
            let t = s.removed_from(key, fds);
            &&& t.failed == s.failed
            &&& t.sources.dom() == s.sources.dom()
            &&& t.sources.contains_key(fd) ==> t.sources[fd].stale == s.sources[fd].stale
            &&& t.at(fd).holds(other) ==> s.at(fd).holds(other)
        }),
    decreases fds.len(),
{
    if fds.len() > 0 {
        let before = s.removed_from(key, fds.drop_last());
        lemma_removed_keeps(s, key, fds.drop_last(), fd, other);
        lemma_without(before.at(fd).read, key);
        lemma_without(before.at(fd).write, key);
        assert(s.removed_from(key, fds).sources.dom() =~= s.sources.dom());
    }
}

/// `change` makes the poller touch the registration of `fd`.
pub open spec fn touches(change: Option<Change>, fd: RawFd) -> bool {
    match change {
        Some(Change::Forget(f)) => f == fd,
        Some(Change::Modify(f, _)) => f == fd,
        Some(Change::Register(f, _)) => f == fd,
        _ => false,
    }
}

/// A source for which the poller holds what it needs costs no call: at no point
/// of a flush without refusals is its registration changed or deleted, whatever
/// other sources are listed.
pub proof fn law_unchanged_source_costs_no_call(
    s: State,
    run: Seq<Option<Result<(), Error>>>,
    waits: spec_fn(Key) -> Seq<RawFd>,
    fd: RawFd,
)
    requires
        s.quiet(),
        flush_may_run(s, run, waits),
        forall|i: int| 0 <= i < run.len() ==> !refusal(#[trigger] run[i]),
        s.sources.contains_key(fd),
        !s.sources[fd].idle(),
        s.sources[fd].armed == Some(s.sources[fd].needs()),
    ensures
        ({
            let t = flush_run(s, run, waits);
            &&& !touches(t.due(), fd)
            &&& t.registrations().contains_key(fd)
            &&& t.registrations()[fd] == s.sources[fd].needs()
        }),
    decreases run.len(),
{
    let t = flush_run(s, run, waits);
    lemma_flush_keeps(s, run, waits, fd, 0);
    if run.len() > 0 {
        let init = run.drop_last();
        let before = flush_run(s, init, waits);
        assert forall|i: int| 0 <= i < init.len() implies !refusal(#[trigger] init[i]) by {
            assert(run[i] == init[i]);
        }
        assert(!refusal(run[run.len() - 1]));
        law_unchanged_source_costs_no_call(s, init, waits, fd);
        lemma_flush_keeps(s, init, waits, fd, 0);
        lemma_flush_run(s, init, waits);
        lemma_flushed(before);
        assert(before.dirty.contains(before.dirty.last()));
        assert(t.sources[fd].armed == before.sources[fd].armed);
    }
}

/// The driver's account of what the poller holds follows the changes that it
/// hands out: kept ones change nothing, a forgotten source is gone, an accepted
/// change is in place, and a refused one leaves nothing.
pub proof fn law_account_follows_the_changes(s: State)
    requires
        s.quiet(),
    ensures
        ({
            let before = s.registrations();
            let after = s.flushed().registrations();
            match s.due() {
                None => after == before,
                Some(Change::Keep) => after == before,
                Some(Change::Drop) => after == before,
                Some(Change::Forget(fd)) => before.contains_key(fd) && after == before.remove(fd),
                Some(Change::Modify(fd, event)) => {
                    let mask = s.sources[fd].needs();
                    &&& before.contains_key(fd)
                    &&& before[fd] != mask
                    &&& event == mask.registration(fd)
                    &&& s.flushed().accepted().registrations() == before.insert(fd, mask)
                    &&& s.flushed().refused().registrations() == before.remove(fd)
                },
                Some(Change::Register(fd, event)) => {
                    let mask = s.sources[fd].needs();
                    &&& !before.contains_key(fd)
                    &&& event == mask.registration(fd)
                    &&& s.flushed().accepted().registrations() == before.insert(fd, mask)
                    &&& s.flushed().refused().registrations() == before
                },
            }
        }),
{
    let before = s.registrations();
    let t = s.flushed();
    if s.dirty.len() > 0 {
        let fd = s.dirty.last();
        assert(s.dirty.contains(fd));
        match s.due() {
            None => {},
            Some(Change::Keep) => {
                assert(t.registrations() =~= before);
            },
            Some(Change::Drop) => {
                assert(t.registrations() =~= before);
            },
            Some(Change::Forget(_)) => {
                assert(t.registrations() =~= before.remove(fd));
            },
            Some(Change::Modify(_, _)) => {
                let mask = s.sources[fd].needs();
                assert(t.accepted().registrations() =~= before.insert(fd, mask));
                assert(t.refused().registrations() =~= before.remove(fd));
            },
            Some(Change::Register(_, _)) => {
                let mask = s.sources[fd].needs();
                assert(t.accepted().registrations() =~= before.insert(fd, mask));
                assert(t.refused().registrations() =~= before);
            },
        }
    } else {
        assert(t.registrations() =~= before);
    }
}

/// An operation that is woken and re-submitted before the driver waits again
/// never re-registers: its source needs what it needed, and where the poller
/// held that, the source costs no call in the next flush.
pub proof fn law_resubmission_never_reregisters(s: State, fd: RawFd, event: Event)
    requires
        s.quiet(),
        s.woken(fd, event) is Some,
        s.sources[fd].armed == Some(s.sources[fd].needs()),
    ensures
        ({
            let (key, interest) = s.woken(fd, event)->0;
            let t = s.reported(fd, event).submitted_front(key, WaitArg { fd, interest });
            &&& t.sources[fd].read == s.sources[fd].read
            &&& t.sources[fd].write == s.sources[fd].write
            &&& t.quiet()
            &&& t.sources.contains_key(fd)
            &&& !t.sources[fd].idle()
            &&& t.sources[fd].armed == Some(t.sources[fd].needs())
            &&& s.dirty.len() == 0 ==> t.due() == Some(Change::Keep)
        }),
{
    let (key, interest) = s.woken(fd, event)->0;
    let arg = WaitArg { fd, interest };
    let r = s.reported(fd, event);
    let t = r.submitted_front(key, arg);
    let seen = Source { stale: s.sources[fd].stale.without(event), ..s.sources[fd] };
    assert(seen.next(event) == s.woken(fd, event));
    lemma_reported(s, fd, event);
    lemma_submitted(r, key, arg);
    assert(seq![key] + s.sources[fd].queue(interest).skip(1) =~= s.sources[fd].queue(interest));
    assert(t.sources[fd].read =~= s.sources[fd].read);
    assert(t.sources[fd].write =~= s.sources[fd].write);
    if s.dirty.len() == 0 {
        assert(!s.dirty.contains(fd));
        assert(t.dirty =~= seq![fd]);
    }
}

/// A report for which something waits always wakes an operation, the one that
/// has waited longest, and reads go first.
pub proof fn law_report_wakes_the_longest_waiting(s: State, fd: RawFd, event: Event)
    ensures
        s.woken(fd, event) is Some <==> (event.readable && s.at(fd).read.len() > 0) || (
        event.writable && s.at(fd).write.len() > 0),
        s.woken(fd, event) matches Some((key, interest)) ==> {
            &&& event.has(interest)
            &&& key == s.at(fd).queue(interest)[0]
            &&& s.reported(fd, event).at(fd).queue(interest) == s.at(fd).queue(interest).skip(1)
            &&& interest == Interest::Writable ==> !(event.readable && s.at(fd).read.len() > 0)
        },
{
}

/// Operations are woken in the order in which they were submitted, and one that
/// was sent back to the front goes first.
pub proof fn law_queues_are_first_in_first_out(s: State, key: Key, arg: WaitArg, event: Event)
    ensures
        s.at(arg.fd).queue(arg.interest).len() > 0 ==> s.submitted(key, arg).woken(arg.fd, event)
            == s.woken(arg.fd, event),
        s.submitted(key, arg).at(arg.fd).queue(arg.interest).last() == key,
        event.has(arg.interest) && !(arg.interest == Interest::Writable && event.readable && s.at(
            arg.fd,
        ).read.len() > 0) ==> s.submitted_front(key, arg).woken(arg.fd, event) == Some(
            (key, arg.interest),
        ),
{
}

/// A report supersedes what was believed of the interests that it names, and of
/// no other.
pub proof fn law_report_supersedes_belief(s: State, fd: RawFd, event: Event, interest: Interest)
    ensures
        s.reported(fd, event).is_stale(fd, interest) <==> s.is_stale(fd, interest) && !event.has(
            interest,
        ),
{
}

/// An operation that found none of `args` ready waits for each of them, behind
/// all that was queued before, and each of these sources is believed not to be
/// ready.
pub proof fn law_waiting_operation_is_queued_everywhere(
    s: State,
    key: Key,
    args: Seq<WaitArg>,
    i: int,
)
    requires
        0 <= i < args.len(),
    ensures
        ({
            let queue = s.waiting(key, args).at(args[i].fd).queue(args[i].interest);
            &&& queue.len() > 0
            &&& queue.last() == key
            &&& s.at(args[i].fd).queue(args[i].interest).is_prefix_of(queue)
        }),
        s.waiting(key, args).is_stale(args[i].fd, args[i].interest),
    decreases args.len(),
{
    let arg = args.last();
    let init = s.waiting(key, args.drop_last());
    lemma_waiting_appends(s, key, args, args[i].fd, args[i].interest);
    if i < args.len() - 1 {
        law_waiting_operation_is_queued_everywhere(s, key, args.drop_last(), i);
        assert(args.drop_last()[i] == args[i]);
    } else {
        let queue = init.at(arg.fd).queue(arg.interest);
        assert(s.waiting(key, args).at(arg.fd).queue(arg.interest) == queue.push(key));
    }
}

/// Waiting only adds to the end of a queue.
proof fn lemma_waiting_appends(
    s: State,
    key: Key,
    args: Seq<WaitArg>,
    fd: RawFd,
    interest: Interest,
)
    ensures
        s.at(fd).queue(interest).is_prefix_of(s.waiting(key, args).at(fd).queue(interest)),
    decreases args.len(),
{
    if args.len() > 0 {
        lemma_waiting_appends(s, key, args.drop_last(), fd, interest);
    }
}

/// A cancelled operation waits nowhere any more, and all other operations wait
/// where they did, in the same order.
pub proof fn law_cancelled_operation_waits_nowhere(s: State, key: Key, fds: Seq<RawFd>, fd: RawFd)
    ensures
        ({
            let t = s.removed_from(key, fds);
            &&& fds.contains(fd) ==> !t.at(fd).holds(key) && t.at(fd).read == without(
                s.at(fd).read,
                key,
            ) && t.at(fd).write == without(s.at(fd).write, key)
            &&& !fds.contains(fd) ==> t.at(fd) == s.at(fd)
            &&& t.sources.dom() == s.sources.dom()
        }),
    decreases fds.len(),
{
    reveal(Seq::filter);
    let t = s.removed_from(key, fds);
    lemma_without(s.at(fd).read, key);
    lemma_without(s.at(fd).write, key);
    lemma_without(without(s.at(fd).read, key), key);
    lemma_without(without(s.at(fd).write, key), key);
    assert(!without(s.at(fd).read, key).contains(key));
    assert(!without(s.at(fd).write, key).contains(key));
    if fds.len() > 0 {
        let init = fds.drop_last();
        let last = fds.last();
        law_cancelled_operation_waits_nowhere(s, key, init, fd);
        let before = s.removed_from(key, init);
        assert(t == before.removed(key, last));
        assert(t.sources.dom() =~= s.sources.dom());
        assert(fds.contains(fd) <==> init.contains(fd) || fd == last) by {
            if init.contains(fd) {
                assert(fds[init.index_of(fd)] == fd);
            }
            assert(fds[fds.len() - 1] == last);
            if fds.contains(fd) && fd != last {
                let i = fds.index_of(fd);
                assert(init[i] == fd);
            }
        }
        if !s.sources.contains_key(fd) {
            assert(s.at(fd) == Source::fresh());
            assert(without(Seq::<Key>::empty(), key) =~= Seq::<Key>::empty());
        }
    }
}

/// When a registration is refused, every operation that waited on the source is
/// completed, each once, and the source is gone.
pub proof fn law_refused_source_fails_each_operation_once(s: State)
    requires
        s.wf(),
        s.applying is Some,
    ensures
        ({
            let fd = (s.applying->0).0;
            let source = s.sources[fd];
            let keys = distinct(source.read + source.write);
            &&& keys.no_duplicates()
            &&& forall|key: Key| #[trigger] keys.contains(key) <==> source.holds(key)
            &&& keys.len() > 0
            &&& !s.refused().sources.contains_key(fd)
            &&& !s.refused().registrations().contains_key(fd)
        }),
{
    let fd = (s.applying->0).0;
    let source = s.sources[fd];
    let all = source.read + source.write;
    lemma_distinct(all);
    assert forall|key: Key| #[trigger] distinct(all).contains(key) <==> source.holds(key) by {
        if source.read.contains(key) {
            assert(all[source.read.index_of(key)] == key);
        }
        if source.write.contains(key) {
            assert(all[source.read.len() + source.write.index_of(key)] == key);
        }
        if all.contains(key) {
            let i = all.index_of(key);
            if i < source.read.len() {
                assert(source.read[i] == key);
            } else {
                assert(source.write[i - source.read.len()] == key);
            }
        }
    }
    assert(s.in_step(fd));
    assert(all.contains(all[0]));
    assert(distinct(all).contains(all[0]));
}

/// A completed operation of a refused source waits nowhere any more, so no
/// later readiness or cancellation touches it.
pub proof fn law_failed_operation_waits_nowhere(
    s: State,
    fd: RawFd,
    key: Key,
    fds: Seq<RawFd>,
    other: RawFd,
)
    requires
        !s.sources.contains_key(fd),
        fds.contains(other),
    ensures
        !s.removed_from(key, without(fds, fd)).at(other).holds(key),
{
    lemma_without(fds, fd);
    law_cancelled_operation_waits_nowhere(s, key, without(fds, fd), other);
    assert(without(fds, fd).contains(other) <==> other != fd);
}

/// A descriptor number starts anew when it is attached: nothing that was known
/// of its previous owner is left, and no other source is touched.
pub proof fn law_attached_descriptor_starts_anew(s: State, fd: RawFd, other: RawFd)
    requires
        s.quiet(),
    ensures
        s.attached(fd).at(fd) == Source::fresh(),
        !s.attached(fd).dirty.contains(fd),
        !s.attached(fd).registrations().contains_key(fd),
        other != fd ==> s.attached(fd).at(other) == s.at(other) && (s.attached(fd).dirty.contains(
            other,
        ) <==> s.dirty.contains(other)),
{
    lemma_without(s.dirty, fd);
    if s.sources.contains_key(fd) {
        assert(!without(s.dirty, fd).contains(fd));
        assert(without(s.dirty, fd).contains(other) <==> s.dirty.contains(other) && other != fd);
    } else {
        assert(!s.dirty.contains(fd));
    }
}

} // verus!

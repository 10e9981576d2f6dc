//! What the driver knows, and how each step changes it.

use crate::completion::Key;
use crate::poll::args::WaitArg;
use crate::poll::mask::{Event, Mask};
use crate::poll::queue::Source;
use crate::seqs::{lemma_without, without};
use crate::unix::{Interest, RawFd};
use vstd::prelude::*;

verus! {

/// What has to happen to the poller for one listed source.
#[derive(Clone, Copy, Debug, PartialEq, Eq)]
pub enum Change {
    /// The poller already holds what the source needs.
    Keep,
    /// The source is gone, and the poller never knew it.
    Drop,
    /// The source is gone: delete its registration, whatever comes of it.
    Forget(RawFd),
    /// Change the registration to the event.
    Modify(RawFd, Event),
    /// Register the event.
    Register(RawFd, Event),
}

/// The sources, the ones among them to look at when the driver flushes, the
/// registration change whose outcome is awaited, and whether one was refused
/// since the driver last decided whether to wait.
#[verifier::ext_equal]
pub struct State {
    pub sources: Map<RawFd, Source>,
    pub dirty: Seq<RawFd>,
    pub applying: Option<(RawFd, Mask)>,
    pub failed: bool,
}

impl State {
    /// No source at all.
    pub open spec fn empty() -> State {
        State { sources: Map::empty(), dirty: Seq::empty(), applying: None, failed: false }
    }

    /// The source `fd`, fresh where it is not known yet.
    pub open spec fn at(self, fd: RawFd) -> Source {
        if self.sources.contains_key(fd) {
            self.sources[fd]
        } else {
            Source::fresh()
        }
    }

    /// The state with another source in the place of `fd`.
    pub open spec fn with(self, fd: RawFd, source: Source) -> State {
        State { sources: self.sources.insert(fd, source), ..self }
    }

    /// The state without the source `fd`.
    pub open spec fn forgotten(self, fd: RawFd) -> State {
        State { sources: self.sources.remove(fd), ..self }
    }

    /// The needs of a listed source match what the poller holds or is about to
    /// hold, and something waits on it.
    pub open spec fn in_step(self, fd: RawFd) -> bool {
        let source = self.sources[fd];
        &&& !source.idle()
        &&& source.armed == Some(source.needs()) || self.applying == Some((fd, source.needs()))
    }

    /// A source is marked as listed exactly when it is listed, and it is listed
    /// once.
    pub open spec fn tallied(self) -> bool {
        &&& self.dirty.no_duplicates()
        &&& forall|fd: RawFd| #[trigger]
            self.dirty.contains(fd) <==> self.sources.contains_key(fd) && self.sources[fd].listed
    }

    /// The invariant of the driver. The list is in step with the sources, and a
    /// source that is not listed needs no change.
    pub open spec fn wf(self) -> bool {
        &&& self.sources.dom().finite()
        &&& self.tallied()
        &&& forall|fd: RawFd| #[trigger]
            self.sources.contains_key(fd) && !self.sources[fd].listed ==> self.in_step(fd)
        &&& self.applying matches Some((fd, mask)) ==> self.sources.contains_key(fd)
            && !self.sources[fd].listed && self.sources[fd].needs() == mask
    }

    /// The invariant holds, and no registration change is under way.
    pub open spec fn quiet(self) -> bool {
        self.wf() && self.applying is None
    }

    /// `fd`, if it is a source, is listed.
    pub open spec fn marked(self, fd: RawFd) -> State {
        if self.sources.contains_key(fd) && !self.sources[fd].listed {
            State {
                sources: self.sources.insert(fd, Source { listed: true, ..self.sources[fd] }),
                dirty: self.dirty.push(fd),
                ..self
            }
        } else {
            self
        }
    }

    /// `key` waits for `arg`, behind the others.
    pub open spec fn submitted(self, key: Key, arg: WaitArg) -> State {
        let source = self.at(arg.fd);
        self.with(
            arg.fd,
            source.with_queue(arg.interest, source.queue(arg.interest).push(key)),
        ).marked(arg.fd)
    }

    /// `key` waits for `arg`, ahead of the others.
    pub open spec fn submitted_front(self, key: Key, arg: WaitArg) -> State {
        let source = self.at(arg.fd);
        self.with(
            arg.fd,
            source.with_queue(arg.interest, seq![key] + source.queue(arg.interest)),
        ).marked(arg.fd)
    }

    /// `key` no longer waits on `fd`.
    pub open spec fn removed(self, key: Key, fd: RawFd) -> State {
        if self.sources.contains_key(fd) {
            self.with(fd, self.sources[fd].dropped(key)).marked(fd)
        } else {
            self
        }
    }

    /// `key` no longer waits on any of `fds`.
    pub open spec fn removed_from(self, key: Key, fds: Seq<RawFd>) -> State
        decreases fds.len(),
    {
        if fds.len() == 0 {
            self
        } else {
            self.removed_from(key, fds.drop_last()).removed(key, fds.last())
        }
    }

    /// `fd`, if it is a source, is believed not to be ready for `interest`.
    pub open spec fn staled(self, fd: RawFd, interest: Interest) -> State {
        if self.sources.contains_key(fd) {
            self.with(
                fd,
                Source { stale: self.sources[fd].stale.with(interest, true), ..self.sources[fd] },
            )
        } else {
            self
        }
    }

    /// `fd` is a source that is believed not to be ready for `interest`.
    pub open spec fn is_stale(self, fd: RawFd, interest: Interest) -> bool {
        self.sources.contains_key(fd) && self.sources[fd].stale.has(interest)
    }

    /// `key` found none of `args` ready and waits for all of them.
    pub open spec fn waiting(self, key: Key, args: Seq<WaitArg>) -> State
        decreases args.len(),
    {
        if args.len() == 0 {
            self
        } else {
            let arg = args.last();
            self.waiting(key, args.drop_last()).submitted(key, arg).staled(arg.fd, arg.interest)
        }
    }

    /// `key` goes back to the front for each of `args`.
    pub open spec fn resubmitted(self, key: Key, args: Seq<WaitArg>) -> State
        decreases args.len(),
    {
        if args.len() == 0 {
            self
        } else {
            self.resubmitted(key, args.drop_last()).submitted_front(key, args.last())
        }
    }

    /// Nothing is left of a previous owner of `fd`.
    pub open spec fn attached(self, fd: RawFd) -> State {
        if self.sources.contains_key(fd) {
            State { dirty: without(self.dirty, fd), ..self.forgotten(fd) }
        } else {
            self
        }
    }

    /// The operation that the report `event` on `fd` lets go on.
    pub open spec fn woken(self, fd: RawFd, event: Event) -> Option<(Key, Interest)> {
        if self.sources.contains_key(fd) {
            self.sources[fd].next(event)
        } else {
            None
        }
    }

    /// The report `event` on `fd` was taken in: it supersedes what was believed
    /// about the source, and the operation that goes on leaves its queue.
    pub open spec fn reported(self, fd: RawFd, event: Event) -> State {
        if self.sources.contains_key(fd) {
            let source = self.sources[fd];
            let seen = Source { stale: source.stale.without(event), ..source };
            if seen.next(event) is Some {
                self.with(fd, seen.popped(event)).marked(fd)
            } else {
                self.with(fd, seen)
            }
        } else {
            self
        }
    }

    /// The change that is due for the source listed last.
    pub open spec fn due(self) -> Option<Change> {
        if self.dirty.len() == 0 {
            None
        } else {
            let fd = self.dirty.last();
            if !self.sources.contains_key(fd) {
                Some(Change::Keep)
            } else {
                let source = self.sources[fd];
                if source.idle() {
                    Some(
                        if source.armed is Some {
                            Change::Forget(fd)
                        } else {
                            Change::Drop
                        },
                    )
                } else if source.armed == Some(source.needs()) {
                    Some(Change::Keep)
                } else if source.armed is Some {
                    Some(Change::Modify(fd, source.needs().registration(fd)))
                } else {
                    Some(Change::Register(fd, source.needs().registration(fd)))
                }
            }
        }
    }

    /// The source listed last was looked at.
    pub open spec fn flushed(self) -> State {
        if self.dirty.len() == 0 {
            self
        } else {
            let fd = self.dirty.last();
            let rest = State { dirty: self.dirty.drop_last(), ..self };
            if !self.sources.contains_key(fd) {
                rest
            } else {
                let source = Source { listed: false, ..self.sources[fd] };
                if source.idle() {
                    rest.forgotten(fd)
                } else if source.armed == Some(source.needs()) {
                    rest.with(fd, source)
                } else {
                    State { applying: Some((fd, source.needs())), ..rest.with(fd, source) }
                }
            }
        }
    }

    /// The poller accepted the change under way.
    pub open spec fn accepted(self) -> State {
        match self.applying {
            Some((fd, mask)) => {
                let settled = State { applying: None, ..self };
                if self.sources.contains_key(fd) {
                    settled.with(fd, Source { armed: Some(mask), ..self.sources[fd] })
                } else {
                    settled
                }
            },
            None => self,
        }
    }

    /// The poller refused the change under way, and the source is forgotten.
    pub open spec fn refused(self) -> State {
        match self.applying {
            Some((fd, _)) => State { applying: None, failed: true, ..self.forgotten(fd) },
            None => self,
        }
    }

    /// The driver decided whether to wait.
    pub open spec fn rested(self) -> State {
        State { failed: false, ..self }
    }

    /// What the poller holds, by source.
    pub open spec fn registrations(self) -> Map<RawFd, Mask> {
        Map::new(
            |fd: RawFd| self.sources.contains_key(fd) && self.sources[fd].armed is Some,
            |fd: RawFd| self.sources[fd].armed->0,
        )
    }
}

/// A source may change in any way, as long as it is marked afterwards.
pub proof fn lemma_touched(s: State, fd: RawFd, source: Source)
    requires
        s.quiet(),
        source.listed == s.at(fd).listed,
    ensures
        s.with(fd, source).marked(fd).quiet(),
{
    let t = s.with(fd, source).marked(fd);
    if source.listed {
        assert(t == s.with(fd, source));
    } else {
        assert(!s.dirty.contains(fd));
        assert(t.dirty == s.dirty.push(fd));
        assert forall|f: RawFd| #[trigger] t.dirty.contains(f) <==> t.sources.contains_key(f)
            && t.sources[f].listed by {
            assert(t.dirty.contains(f) <==> s.dirty.contains(f) || f == fd) by {
                if s.dirty.contains(f) {
                    assert(t.dirty[s.dirty.index_of(f)] == f);
                }
                assert(t.dirty[s.dirty.len() as int] == fd);
            }
        }
    }
    assert forall|f: RawFd| #[trigger]
        t.sources.contains_key(f) && !t.sources[f].listed implies t.in_step(f) by {
        assert(s.sources.contains_key(f));
    }
}

/// What is believed about a source has no part in the invariant.
pub proof fn lemma_staled(s: State, fd: RawFd, stale: Mask)
    requires
        s.wf(),
        s.sources.contains_key(fd),
    ensures
        s.with(fd, Source { stale, ..s.sources[fd] }).wf(),
{
    let t = s.with(fd, Source { stale, ..s.sources[fd] });
    assert forall|f: RawFd| #[trigger] t.dirty.contains(f) <==> t.sources.contains_key(f)
        && t.sources[f].listed by {
        assert(s.dirty.contains(f) <==> s.sources.contains_key(f) && s.sources[f].listed);
    }
    assert forall|f: RawFd| #[trigger]
        t.sources.contains_key(f) && !t.sources[f].listed implies t.in_step(f) by {
        assert(s.sources.contains_key(f) && !s.sources[f].listed);
        assert(s.in_step(f));
    }
}

/// Submitting, at either end, keeps the invariant.
pub proof fn lemma_submitted(s: State, key: Key, arg: WaitArg)
    requires
        s.quiet(),
    ensures
        s.submitted(key, arg).quiet(),
        s.submitted_front(key, arg).quiet(),
{
    let source = s.at(arg.fd);
    lemma_touched(
        s,
        arg.fd,
        source.with_queue(arg.interest, source.queue(arg.interest).push(key)),
    );
    lemma_touched(
        s,
        arg.fd,
        source.with_queue(arg.interest, seq![key] + source.queue(arg.interest)),
    );
}

/// Removing keeps the invariant.
pub proof fn lemma_removed(s: State, key: Key, fd: RawFd)
    requires
        s.quiet(),
    ensures
        s.removed(key, fd).quiet(),
{
    if s.sources.contains_key(fd) {
        lemma_touched(s, fd, s.sources[fd].dropped(key));
    }
}

/// Removing from several sources keeps the invariant.
pub proof fn lemma_removed_from(s: State, key: Key, fds: Seq<RawFd>)
    requires
        s.quiet(),
    ensures
        s.removed_from(key, fds).quiet(),
    decreases fds.len(),
{
    if fds.len() > 0 {
        lemma_removed_from(s, key, fds.drop_last());
        lemma_removed(s.removed_from(key, fds.drop_last()), key, fds.last());
    }
}

/// Waiting keeps the invariant.
pub proof fn lemma_waiting(s: State, key: Key, args: Seq<WaitArg>)
    requires
        s.quiet(),
    ensures
        s.waiting(key, args).quiet(),
    decreases args.len(),
{
    if args.len() > 0 {
        let arg = args.last();
        let init = s.waiting(key, args.drop_last());
        lemma_waiting(s, key, args.drop_last());
        lemma_submitted(init, key, arg);
        let t = init.submitted(key, arg);
        lemma_staled(t, arg.fd, t.sources[arg.fd].stale.with(arg.interest, true));
    }
}

/// Going back to the front keeps the invariant.
pub proof fn lemma_resubmitted(s: State, key: Key, args: Seq<WaitArg>)
    requires
        s.quiet(),
    ensures
        s.resubmitted(key, args).quiet(),
    decreases args.len(),
{
    if args.len() > 0 {
        lemma_resubmitted(s, key, args.drop_last());
        lemma_submitted(s.resubmitted(key, args.drop_last()), key, args.last());
    }
}

/// Taking in a report keeps the invariant.
pub proof fn lemma_reported(s: State, fd: RawFd, event: Event)
    requires
        s.quiet(),
    ensures
        s.reported(fd, event).quiet(),
{
    if s.sources.contains_key(fd) {
        let seen = Source { stale: s.sources[fd].stale.without(event), ..s.sources[fd] };
        if seen.next(event) is Some {
            lemma_touched(s, fd, seen.popped(event));
        } else {
            lemma_staled(s, fd, seen.stale);
        }
    }
}

/// Attaching keeps the invariant.
pub proof fn lemma_attached(s: State, fd: RawFd)
    requires
        s.quiet(),
    ensures
        s.attached(fd).quiet(),
{
    let t = s.attached(fd);
    lemma_without(s.dirty, fd);
    if s.sources.contains_key(fd) {
        assert forall|f: RawFd| #[trigger] t.dirty.contains(f) <==> t.sources.contains_key(f)
            && t.sources[f].listed by {
            assert(without(s.dirty, fd).contains(f) <==> s.dirty.contains(f) && f != fd);
        }
        assert forall|f: RawFd| #[trigger]
            t.sources.contains_key(f) && !t.sources[f].listed implies t.in_step(f) by {
            assert(s.sources.contains_key(f));
        }
    }
}

/// Looking at the source listed last keeps the invariant.
pub proof fn lemma_flushed(s: State)
    requires
        s.quiet(),
    ensures
        s.flushed().wf(),
        s.flushed().applying is Some <==> (s.due() matches Some(change) && (change is Modify
            || change is Register)),
{
    if s.dirty.len() > 0 {
        let fd = s.dirty.last();
        let t = s.flushed();
        assert(s.dirty.contains(fd));
        assert forall|f: RawFd| #[trigger] t.dirty.contains(f) <==> t.sources.contains_key(f)
            && t.sources[f].listed by {
            assert(s.dirty.drop_last().contains(f) <==> s.dirty.contains(f) && f != fd) by {
                if s.dirty.contains(f) && f != fd {
                    let i = s.dirty.index_of(f);
                    assert(s.dirty.drop_last()[i] == f);
                }
                if s.dirty.drop_last().contains(f) {
                    let i = s.dirty.drop_last().index_of(f);
                    assert(s.dirty[i] == f);
                }
            }
        }
        assert forall|f: RawFd| #[trigger]
            t.sources.contains_key(f) && !t.sources[f].listed implies t.in_step(f) by {
            assert(s.sources.contains_key(f));
        }
    }
}

/// Settling the change under way keeps the invariant.
pub proof fn lemma_settled(s: State)
    requires
        s.wf(),
    ensures
        s.accepted().quiet(),
        s.refused().quiet(),
{
    if let Some((fd, mask)) = s.applying {
        let t = s.accepted();
        assert forall|f: RawFd| #[trigger] t.dirty.contains(f) <==> t.sources.contains_key(f)
            && t.sources[f].listed by {
            assert(s.dirty.contains(f) <==> s.sources.contains_key(f) && s.sources[f].listed);
        }
        assert forall|f: RawFd| #[trigger]
            t.sources.contains_key(f) && !t.sources[f].listed implies t.in_step(f) by {
            assert(s.sources.contains_key(f) && !s.sources[f].listed);
        }
        let r = s.refused();
        assert forall|f: RawFd| #[trigger] r.dirty.contains(f) <==> r.sources.contains_key(f)
            && r.sources[f].listed by {
            assert(s.dirty.contains(f) <==> s.sources.contains_key(f) && s.sources[f].listed);
        }
        assert forall|f: RawFd| #[trigger]
            r.sources.contains_key(f) && !r.sources[f].listed implies r.in_step(f) by {
            assert(s.sources.contains_key(f) && !s.sources[f].listed);
        }
    }
}

} // verus!

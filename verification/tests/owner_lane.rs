//! The owner lane on a ring that is acted out in memory.

use compio_driver::completion::Entry;
use compio_driver::config::{Duration, ProactorBuilder};
use compio_driver::error::{Error, ErrorKind};
use compio_driver::iour::cqe::{Completion, Dispatch, OwnerCompletion};
use compio_driver::iour::driver::{Cancelling, Driver, OpEntry, Route};
use compio_driver::iour::setup::Probe;
use compio_driver::iour::sqe::ENTER_GETEVENTS;
use compio_driver::iour::state::{Features, PushAction, PushEvent, Submission, Turn};
use compio_driver::unix::Poll;
use io_uring::cqueue;
use io_uring::opcode;
use io_uring::types::Fd;
use std::collections::{HashSet, VecDeque};

const MORE: u32 = 2;
const NOTIF: u32 = 8;

/// What a submission does.
#[derive(Clone, Copy)]
enum Op {
    /// Completes at once with the result.
    Done(i32),
    /// Completes with the result, then with a notification.
    ZeroCopy(i32),
    /// Completes when it is cancelled, or when it is fired.
    Idle,
    /// Cancels the submission with the tag.
    Cancel(u64),
}

/// A ring that keeps completions which do not fit, and shows them later.
struct Ring {
    entries: usize,
    cqsize: usize,
    sq: VecDeque<(u64, Op)>,
    cq: VecDeque<Completion>,
    backlog: VecDeque<Completion>,
    deferred: Vec<Completion>,
    idle: Vec<u64>,
    lost: u32,
    slept: bool,
}

impl Ring {
    fn new(entries: usize, cqsize: usize) -> Ring {
        Ring {
            entries,
            cqsize,
            sq: VecDeque::new(),
            cq: VecDeque::new(),
            backlog: VecDeque::new(),
            deferred: Vec::new(),
            idle: Vec::new(),
            lost: 0,
            slept: false,
        }
    }

    fn offer(&mut self, entry: &io_uring::squeue::Entry, op: Op) -> bool {
        if self.sq.len() == self.entries {
            return false;
        }
        self.sq.push_back((entry.get_user_data(), op));
        true
    }

    fn complete(&mut self, user_data: u64, result: i32, flags: u32) {
        self.backlog.push_back(Completion { user_data, result, flags });
        self.show();
    }

    fn show(&mut self) {
        while self.cq.len() < self.cqsize {
            match self.backlog.pop_front() {
                Some(completion) => self.cq.push_back(completion),
                None => break,
            }
        }
    }

    fn cancel(&mut self, target: u64) -> i32 {
        match self.idle.iter().position(|tag| *tag == target) {
            Some(at) => {
                self.idle.remove(at);
                self.complete(target, -libc::ECANCELED, 0);
                0
            }
            None => -libc::ENOENT,
        }
    }

    fn submit(&mut self) -> usize {
        let count: usize = self.sq.len();
        while let Some((tag, op)) = self.sq.pop_front() {
            match op {
                Op::Done(result) => self.complete(tag, result, 0),
                Op::ZeroCopy(result) => {
                    self.complete(tag, result, MORE);
                    self.complete(tag, 0, NOTIF);
                }
                Op::Idle => self.idle.push(tag),
                Op::Cancel(target) => {
                    let result: i32 = self.cancel(target);
                    self.complete(tag, result, 0);
                }
            }
        }
        count
    }

    /// Work that is done only when completions are asked for.
    fn fire_deferred(&mut self, user_data: u64, result: i32) {
        self.idle.retain(|tag| *tag != user_data);
        self.deferred.push(Completion { user_data, result, flags: 0 });
    }

    fn enter(&mut self, submission: Submission) -> Result<usize, Error> {
        let drives = match submission.flags {
            Some(flags) => flags & ENTER_GETEVENTS != 0,
            None => submission.want > 0,
        };
        if drives {
            self.show();
            for completion in std::mem::take(&mut self.deferred) {
                self.complete(completion.user_data, completion.result, completion.flags);
            }
        }
        if !self.backlog.is_empty() {
            return Err(Error::from_raw_os_error(libc::EBUSY));
        }
        let count: usize = self.submit();
        if submission.want > 0 && self.cq.is_empty() {
            self.slept = submission.timeout != Some(Duration::zero());
            return Err(Error::from_raw_os_error(libc::ETIME));
        }
        Ok(count)
    }
}

/// A driver on such a ring.
struct Proactor {
    driver: Driver,
    ring: Ring,
    progressed: Vec<Entry>,
    finished: Vec<Entry>,
}

fn builder(capacity: u32) -> ProactorBuilder {
    ProactorBuilder {
        capacity,
        op_codes: Vec::new(),
        sqpoll_idle: None,
        sqpoll_cpu: None,
        single_issuer: false,
        defer_taskrun: false,
        coop_taskrun: false,
        taskrun_flag: false,
        cqsize: None,
        eventfd: None,
    }
}

impl Proactor {
    fn new() -> Proactor {
        Proactor::build(&builder(1024))
    }

    fn build(builder: &ProactorBuilder) -> Proactor {
        let cqsize: u32 = match builder.cqsize {
            Some(cqsize) => cqsize,
            None => 2 * builder.capacity,
        };
        let features = Features { nodrop: true, sqpoll: false, no_iowait: false };
        Proactor {
            driver: Driver::new(builder, features),
            ring: Ring::new(builder.capacity as usize, cqsize as usize),
            progressed: Vec::new(),
            finished: Vec::new(),
        }
    }

    fn poll_entries(&mut self) {
        loop {
            let mut shown: VecDeque<Completion> = VecDeque::new();
            while shown.len() < self.driver.room() {
                match self.ring.cq.pop_front() {
                    Some(completion) => shown.push_back(completion),
                    None => break,
                }
            }
            if shown.is_empty() {
                return;
            }
            let (has_entry, taken) = self.driver.poll_entries(&mut shown);
            assert!(has_entry);
            assert!(shown.is_empty());
            for dispatch in taken {
                match dispatch {
                    Dispatch::Multishot(entry) => self.progressed.push(entry),
                    Dispatch::Finished(entry) => self.finished.push(entry),
                    _ => {}
                }
            }
        }
    }

    fn push_pending_cancels(&mut self) {
        let mut event = Cancelling::Begin;
        while let Some((key, entry)) = self.driver.push_pending_cancels(event) {
            let accepted = self.ring.offer(&entry, Op::Cancel(key));
            event = Cancelling::Offered { key, accepted };
        }
    }

    fn submit_auto(&mut self, timeout: Option<Duration>, need_wait: bool) -> Result<(), Error> {
        self.push_pending_cancels();
        let submission = self.driver.submit_auto(timeout, need_wait, false);
        let entered = self.ring.enter(submission);
        self.driver.submitted(submission.want, self.ring.cq.is_empty(), entered)
    }

    fn push_raw(&mut self, entry: &io_uring::squeue::Entry, op: Op) -> Result<(), Error> {
        let mut event = PushEvent::Begin;
        loop {
            event = match self.driver.push_raw(event) {
                PushAction::Offer => {
                    self.push_pending_cancels();
                    PushEvent::Offered { accepted: self.ring.offer(entry, op) }
                }
                PushAction::Submit => {
                    PushEvent::Submitted(self.submit_auto(Some(Duration::zero()), true))
                }
                PushAction::Poll => {
                    self.poll_entries();
                    PushEvent::Polled { full: self.ring.sq.len() == self.ring.entries }
                }
                PushAction::Return(outcome) => return outcome,
            };
        }
    }

    fn push(&mut self, key: u64, op: Op) -> Poll<Result<usize, Error>> {
        let made = OpEntry::Submission(opcode::Nop::new().build());
        let probe = Probe { supported: vec![true] };
        assert_eq!(self.driver.push(&made, &probe, false), Route::Submit);
        let entry = self.driver.tag_operation(opcode::Nop::new().build(), key);
        let pushed = self.push_raw(&entry, op);
        self.driver.push_raw_with_key(key, pushed)
    }

    fn cancel(&mut self, key: u64) {
        if self.driver.cancel(key) {
            self.push_pending_cancels();
        }
    }

    /// The finished operation, where it is finished.
    fn pop(&mut self, key: u64) -> Option<Entry> {
        let at = self.finished.iter().position(|entry| entry.key == key)?;
        Some(self.finished.remove(at))
    }

    fn owner_init(&mut self, capacity: usize) -> Result<(), Error> {
        self.driver.owner_init(capacity)
    }

    fn owner_push(&mut self, op: Op, token: u64) -> Result<(), Error> {
        self.owner_push_entry(opcode::Nop::new().build(), op, token)
    }

    fn owner_push_entry(
        &mut self,
        entry: io_uring::squeue::Entry,
        op: Op,
        token: u64,
    ) -> Result<(), Error> {
        let code: u32 = entry.get_opcode();
        let entry = self.driver.owner_push(entry, token)?;
        assert_eq!(entry.get_opcode(), code);
        self.push_pending_cancels();
        let accepted = self.ring.offer(&entry, op);
        self.driver.owner_pushed(accepted)
    }

    fn owner_progress(&mut self) -> Result<(), Error> {
        self.poll_entries();
        self.push_pending_cancels();
        let submission = self.driver.owner_submission();
        let entered = self.ring.enter(submission);
        self.poll_entries();
        self.driver.owner_progress(entered, self.ring.lost)
    }

    fn owner_drain(&mut self, batch: &mut Vec<OwnerCompletion>, limit: usize) -> usize {
        self.driver.owner_drain(batch, limit)
    }

    fn poll(&mut self, timeout: Option<Duration>) -> Result<(), Error> {
        let (entries, turn) = self.driver.poll(self.ring.lost);
        self.finished.extend(entries);
        if let Turn::Return(outcome) = turn {
            return outcome;
        }
        let need_wait = self.driver.wait_after(turn, false);
        if let Some(entry) = self.driver.notifier_entry(3) {
            self.push_raw(&entry, Op::Idle)?;
            self.driver.notifier_pushed();
        }
        self.submit_auto(timeout, need_wait)?;
        self.poll_entries();
        self.driver.check_owner_completions(self.ring.lost)
    }

    fn quiesce(&mut self) -> bool {
        self.poll_entries();
        self.ring.submit();
        for tag in self.ring.idle.clone() {
            self.ring.cancel(tag);
        }
        self.poll_entries();
        self.driver.quiesce(self.ring.lost)
    }
}

#[test]
fn zero_copy_notifications_survive_a_single_entry_owner_lane() {
    for vectored in [false, true] {
        let mut p = Proactor::new();
        p.owner_init(1).unwrap();
        let payload = vec![b'z'; 32768];
        let entry = if vectored {
            opcode::SendMsgZc::new(Fd(3), std::ptr::null()).build()
        } else {
            opcode::SendZc::new(Fd(3), payload.as_ptr(), payload.len() as u32).build()
        };
        p.owner_push_entry(entry, Op::ZeroCopy(payload.len() as i32), 7).unwrap();
        p.owner_push(Op::Done(0), 8).unwrap();
        let mut turns: u32 = 0;
        let (mut initial, mut notification, mut more, mut nop) = (false, false, false, false);
        let mut batch: Vec<OwnerCompletion> = Vec::with_capacity(1);
        while !initial || (more && !notification) || !nop {
            turns += 1;
            assert!(turns < 100);
            p.owner_progress().unwrap();
            batch.clear();
            assert!(p.owner_drain(&mut batch, 8) <= 1);
            for c in &batch {
                if c.token == 8 {
                    assert!(!nop);
                    assert_eq!(c.result, 0);
                    nop = true;
                } else {
                    assert_eq!(c.token, 7);
                    if cqueue::notif(c.flags) {
                        assert!(initial && more && !notification);
                        assert!(!cqueue::more(c.flags));
                        notification = true;
                    } else {
                        assert!(!initial);
                        assert_eq!(c.result as usize, payload.len());
                        initial = true;
                        more = cqueue::more(c.flags);
                    }
                }
            }
        }
    }
}

#[test]
fn bounded_lane_preserves_completions_and_generic_keys() {
    let mut p = Proactor::new();
    p.owner_init(2).unwrap();
    let generic: u64 = 0x5000;
    assert_eq!(p.push(generic, Op::Done(8)), Poll::Pending);
    for token in 0..32 {
        p.owner_push(Op::Done(0), token).unwrap();
    }
    assert!(p.owner_push(Op::Done(0), u64::MAX >> 1).is_err());
    let mut turns: u32 = 0;
    let mut seen: HashSet<u64> = HashSet::new();
    let mut batch: Vec<OwnerCompletion> = Vec::with_capacity(2);
    while seen.len() < 32 {
        turns += 1;
        assert!(turns < 100);
        p.owner_progress().unwrap();
        batch.clear();
        assert!(p.owner_drain(&mut batch, 100) <= 2);
        for c in &batch {
            assert_eq!(c.result, 0);
            assert!(seen.insert(c.token));
        }
    }
    let mut popped = p.pop(generic);
    while popped.is_none() {
        turns += 1;
        assert!(turns < 100);
        p.owner_progress().unwrap();
        popped = p.pop(generic);
    }
    assert_eq!(popped, Some(Entry::new(generic, Ok(8))));
}

#[test]
fn cancellation_requires_multishot_target_terminal() {
    let mut p = Proactor::new();
    p.owner_init(4).unwrap();
    p.owner_push(Op::Idle, 4).unwrap();
    p.owner_progress().unwrap();
    p.owner_push(Op::Cancel((4 << 1) | 1), 5).unwrap();
    let mut turns: u32 = 0;
    let mut target = false;
    let mut cancel = false;
    let mut batch: Vec<OwnerCompletion> = Vec::with_capacity(4);
    while !target || !cancel {
        turns += 1;
        assert!(turns < 100);
        p.owner_progress().unwrap();
        batch.clear();
        p.owner_drain(&mut batch, 4);
        for c in &batch {
            match c.token {
                4 => {
                    assert!(!cqueue::more(c.flags));
                    assert_eq!(c.result, -libc::ECANCELED);
                    target = true;
                }
                5 => {
                    assert_eq!(c.result, 0);
                    cancel = true;
                }
                _ => panic!("unexpected token"),
            }
        }
    }
}

#[test]
fn cq_overflow_and_sq_pressure_are_lossless() {
    let mut settings = builder(8);
    settings.cqsize = Some(8);
    let mut p = Proactor::build(&settings);
    p.owner_init(1).unwrap();
    let mut submitted: u64 = 0;
    // Deliberately fill the owned lane, CQ and SQ before draining anything.
    for _ in 0..16 {
        while submitted < 128 {
            match p.owner_push(Op::Done(0), submitted) {
                Ok(()) => submitted += 1,
                Err(e) => {
                    assert_eq!(e.kind(), Some(ErrorKind::WouldBlock));
                    break;
                }
            }
        }
        p.owner_progress().unwrap();
    }
    assert!(submitted > 8);
    let mut seen: HashSet<u64> = HashSet::new();
    let mut batch: Vec<OwnerCompletion> = Vec::with_capacity(1);
    let mut turns: u32 = 0;
    while seen.len() < submitted as usize {
        turns += 1;
        assert!(turns < 1000);
        p.owner_progress().unwrap();
        batch.clear();
        assert!(p.owner_drain(&mut batch, 128) <= 1);
        for c in &batch {
            assert_eq!(c.result, 0);
            assert!(seen.insert(c.token));
        }
    }
}

#[test]
fn pool_is_retained_when_owner_pressure_hides_generic_terminal() {
    let mut p = Proactor::new();
    p.owner_init(1).unwrap();
    let buffer_len: usize = 64;
    let pool = vec![0u8; buffer_len];
    p.owner_push(Op::Done(0), 1).unwrap();
    let key: u64 = 0x40;
    assert_eq!(p.push(key, Op::Idle), Poll::Pending);
    p.owner_progress().unwrap();
    // The pool is released only once the driver proves it unused.
    let freed: usize = if p.quiesce() { pool.len() } else { 0 };
    assert_eq!(freed, 0);
    // Draining the owner uncovers the terminal completion.
    let mut batch: Vec<OwnerCompletion> = Vec::new();
    assert_eq!(p.owner_drain(&mut batch, 1), 1);
    assert!(p.quiesce());
    assert_eq!(
        p.pop(key),
        Some(Entry::new(key, Err(Error::from_raw_os_error(libc::ECANCELED)))),
    );
}

#[test]
fn generic_cancel_survives_full_owner_sq() {
    let mut p = Proactor::build(&builder(8));
    p.owner_init(16).unwrap();
    let _ = p.poll(Some(Duration::zero()));
    let key: u64 = 0x80;
    if p.push(key, Op::Idle) != Poll::Pending {
        panic!("receive must pend")
    }
    let mut submitted: u64 = 0;
    loop {
        match p.owner_push(Op::Idle, submitted) {
            Ok(()) => submitted += 1,
            Err(e) => {
                assert_eq!(e.kind(), Some(ErrorKind::WouldBlock));
                break;
            }
        }
    }
    assert_eq!(submitted, 7);
    p.cancel(key);
    assert!(p.pop(key).is_none());
    // Pending cancellation must prevent sleeping behind an SQ of idle
    // operations.
    p.ring.slept = false;
    p.poll(Some(Duration { secs: 0, nanos: 20_000_000 })).unwrap();
    assert!(!p.ring.slept);
    let mut turns: u32 = 0;
    let mut batch: Vec<OwnerCompletion> = Vec::with_capacity(16);
    loop {
        turns += 1;
        assert!(turns < 100);
        p.owner_progress().unwrap();
        batch.clear();
        p.owner_drain(&mut batch, 16);
        if let Some(entry) = p.pop(key) {
            assert_eq!(entry.result.unwrap_err().raw_os_error(), Some(libc::ECANCELED));
            break;
        }
    }
    for token in 0..submitted {
        p.owner_push(Op::Cancel((token << 1) | 1), 100 + token).unwrap();
    }
    let mut terminals: u64 = 0;
    while terminals < submitted {
        turns += 1;
        assert!(turns < 100);
        p.owner_progress().unwrap();
        batch.clear();
        p.owner_drain(&mut batch, 16);
        for c in &batch {
            if c.token < submitted {
                assert_eq!(c.result, -libc::ECANCELED);
                terminals += 1;
            }
        }
    }
}

#[test]
fn regular_poll_drives_owner_deferred_work_without_submissions() {
    let mut settings = builder(1024);
    settings.single_issuer = true;
    settings.defer_taskrun = true;
    settings.taskrun_flag = true;
    let mut p = Proactor::build(&settings);
    p.owner_init(4).unwrap();
    p.owner_push(Op::Idle, 9).unwrap();
    let _ = p.poll(Some(Duration::zero()));
    p.ring.fire_deferred((9 << 1) | 1, libc::POLLIN as i32);
    let mut turns: u32 = 0;
    let mut batch: Vec<OwnerCompletion> = Vec::with_capacity(4);
    loop {
        turns += 1;
        assert!(turns < 100);
        match p.poll(Some(Duration::zero())) {
            Ok(()) => {}
            Err(e) => assert!(matches!(
                e.kind(),
                Some(ErrorKind::TimedOut | ErrorKind::Interrupted)
            )),
        }
        if p.owner_drain(&mut batch, 4) != 0 {
            break;
        }
    }
    assert_eq!(batch[0].token, 9);
    assert_ne!(batch[0].result & libc::POLLIN as i32, 0);
}

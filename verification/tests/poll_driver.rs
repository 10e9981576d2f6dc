//! The polling driver.

use compio_driver::completion::Entry;
use compio_driver::config::{DriverType, Duration, ProactorBuilder};
use compio_driver::error::{Error, ErrorKind};
use compio_driver::poll::args::{Multi, WaitArg};
use compio_driver::poll::driver::{
    Decision, Driver, OpType, Operated, Pushed, Registered, Wait, Waited, aio_submitted,
    events_capacity,
    poll_timeout, register, turn_after_wait,
};
use compio_driver::poll::mask::{Event, Mask};
use compio_driver::poll::queue::FdQueue;
use compio_driver::poll::state::Change;
use compio_driver::unix::{Interest, Poll};

fn read(fd: i32) -> WaitArg {
    WaitArg { fd, interest: Interest::Readable }
}

fn write(fd: i32) -> WaitArg {
    WaitArg { fd, interest: Interest::Writable }
}

fn event(fd: i32, readable: bool, writable: bool) -> Event {
    Event { key: fd as usize, readable, writable }
}

fn driver() -> Driver {
    match Driver::new(true) {
        Ok(driver) => driver,
        Err(_) => panic!("level triggering is supported"),
    }
}

/// Queues the operation for all of `args`.
fn wait(driver: &mut Driver, key: u64, args: Vec<WaitArg>) {
    let decision = Ok(Decision::Wait(Multi::from_vec(args)));
    assert_eq!(driver.push_decided(key, &decision), Pushed::Settled(Poll::Pending));
}

/// Flushes on a poller that accepts everything; returns the changes.
fn flush(driver: &mut Driver) -> Vec<Change> {
    let mut changes: Vec<Change> = Vec::new();
    while let Some(change) = driver.flush_registrations() {
        if matches!(change, Change::Modify(..) | Change::Register(..)) {
            assert!(driver.applied(Ok(())).is_none());
        }
        changes.push(change);
    }
    changes
}

/// Lets the poller refuse the registration of `fd`.
fn refuse(driver: &mut Driver, fd: i32) {
    driver.submit(2, read(fd));
    assert_eq!(driver.flush_registrations(), Some(Change::Register(fd, event(fd, true, false))));
    let failed = driver.applied(Err(Error::from_raw_os_error(libc::EPERM))).unwrap();
    assert_eq!(failed.keys, vec![2]);
    assert_eq!(driver.flush_registrations(), None);
}

#[test]
fn one_shot_pollers_are_refused() {
    match Driver::new(false) {
        Ok(_) => panic!("refused"),
        Err(e) => assert_eq!(
            e,
            Error::new(
                ErrorKind::Unsupported,
                "the poll driver needs level-triggered readiness",
            ),
        ),
    }
    assert_eq!(driver().driver_type(), DriverType::Poll);
}

#[test]
fn capacity_limits_the_events_of_one_wait() {
    let mut builder = ProactorBuilder {
        capacity: 0,
        op_codes: Vec::new(),
        sqpoll_idle: None,
        sqpoll_cpu: None,
        single_issuer: false,
        defer_taskrun: false,
        coop_taskrun: false,
        taskrun_flag: false,
        cqsize: None,
        eventfd: None,
    };
    assert_eq!(events_capacity(&builder), None);
    builder.capacity = 1024;
    assert_eq!(events_capacity(&builder), Some(1024));
}

#[test]
fn masks_hold_interests() {
    let mut mask = Mask::default();
    assert!(mask.is_empty());
    mask.set(Interest::Writable, true);
    assert!(!mask.is_empty());
    assert!(mask.get(Interest::Writable));
    assert!(!mask.get(Interest::Readable));
    mask.set(Interest::Readable, true);
    mask.set(Interest::Writable, false);
    assert_eq!(mask, Mask { readable: true, writable: false });
}

#[test]
fn events_name_their_source() {
    let mask = Mask { readable: true, writable: false };
    for fd in [0, 5, i32::MAX, -1, i32::MIN] {
        let registration = mask.event(fd);
        assert_eq!(registration.key, fd as usize);
        assert!(registration.readable);
        assert!(!registration.writable);
        assert_eq!(registration.source(), fd);
    }
}

#[test]
fn smallvec_keeps_items_in_order() {
    let one = Multi::from_buf(read(3));
    assert_eq!(one.len(), 1);
    assert_eq!(one.get(0), read(3));
    let many = Multi::from_vec(vec![read(3), write(4), read(5)]);
    assert_eq!(many.len(), 3);
    assert_eq!((many.get(0), many.get(1), many.get(2)), (read(3), write(4), read(5)));
}

#[test]
fn queue_pops_reads_first_and_in_order() {
    let mut queue = FdQueue::new();
    assert!(queue.is_empty());
    queue.push_back_interest(2, Interest::Writable);
    queue.push_back_interest(4, Interest::Readable);
    queue.push_back_interest(6, Interest::Readable);
    queue.push_front_interest(8, Interest::Readable);
    assert_eq!(queue.desired(), Mask { readable: true, writable: true });
    let both = event(1, true, true);
    assert_eq!(queue.pop_interest(&both), Some((8, Interest::Readable)));
    assert_eq!(queue.pop_interest(&event(1, false, true)), Some((2, Interest::Writable)));
    assert_eq!(queue.pop_interest(&event(1, false, true)), None);
    assert_eq!(queue.pop_interest(&event(1, false, false)), None);
    assert_eq!(queue.pop_interest(&both), Some((4, Interest::Readable)));
    assert_eq!(queue.desired(), Mask { readable: true, writable: false });
    assert_eq!(queue.pop_interest(&both), Some((6, Interest::Readable)));
    assert!(queue.is_empty());
}

#[test]
fn queue_removes_an_operation_everywhere() {
    let mut queue = FdQueue::new();
    for key in [2, 4, 2, 6] {
        queue.push_back_interest(key, Interest::Readable);
        queue.push_back_interest(key, Interest::Writable);
    }
    queue.remove(&2);
    assert_eq!(queue.read_queue, vec![4, 6]);
    assert_eq!(queue.write_queue, vec![4, 6]);
    queue.remove(&8);
    assert_eq!(queue.read_queue, vec![4, 6]);
}

#[test]
fn first_attempt_decides_where_an_operation_goes() {
    let mut driver = driver();
    assert_eq!(
        driver.push_decided(2, &Ok(Decision::Completed(7))),
        Pushed::Settled(Poll::Ready(Ok(7))),
    );
    assert_eq!(driver.push_decided(2, &Ok(Decision::Blocking)), Pushed::Dispatch);
    assert_eq!(driver.push_decided(2, &Ok(Decision::Aio)), Pushed::SubmitAio);
    let error = Error::from_raw_os_error(libc::EBADF);
    assert_eq!(driver.push_decided(2, &Err(error)), Pushed::Settled(Poll::Ready(Err(error))));
    assert_eq!(flush(&mut driver), vec![]);
    wait(&mut driver, 2, vec![read(5)]);
    assert_eq!(flush(&mut driver), vec![Change::Register(5, event(5, true, false))]);
}

#[test]
fn refused_asynchronous_io_runs_on_a_thread() {
    assert_eq!(aio_submitted(Ok(())), Pushed::Settled(Poll::Pending));
    for code in [libc::EOPNOTSUPP, libc::EAGAIN] {
        assert_eq!(aio_submitted(Err(Error::from_raw_os_error(code))), Pushed::Dispatch);
    }
    for error in [Error::from_raw_os_error(libc::EINVAL), Error::from_kind(ErrorKind::Other)] {
        assert_eq!(aio_submitted(Err(error)), Pushed::Settled(Poll::Ready(Err(error))));
    }
}

#[test]
fn stale_sources_are_not_attempted() {
    let mut driver = driver();
    assert!(driver.push(2, Some(read(5))).is_none());
    assert!(driver.push(2, None).is_none());
    wait(&mut driver, 2, vec![read(5)]);
    // The other interest is not believed to be stale.
    assert!(driver.push(4, Some(write(5))).is_none());
    let args = driver.push(4, Some(read(5))).unwrap();
    assert_eq!(args.len(), 1);
    assert_eq!(args.get(0), read(5));
    // A report supersedes the belief, and both operations are woken in order.
    assert_eq!(driver.poll_one(event(5, true, false), 5), Some((2, Interest::Readable)));
    assert!(driver.push(6, Some(read(5))).is_none());
    assert_eq!(driver.poll_one(event(5, true, false), 5), Some((4, Interest::Readable)));
    assert_eq!(driver.poll_one(event(5, true, false), 5), None);
    // A finished operation has consumed the readiness.
    let operated = Operated::Ready(Ok(3));
    assert_eq!(
        driver.poll_operated(4, 5, Interest::Readable, &operated),
        Some(Entry::new(4, Ok(3))),
    );
    assert!(driver.push(6, Some(read(5))).is_some());
}

#[test]
fn registrations_follow_the_queues() {
    let mut driver = driver();
    wait(&mut driver, 2, vec![read(5)]);
    wait(&mut driver, 4, vec![read(5)]);
    assert_eq!(flush(&mut driver), vec![Change::Register(5, event(5, true, false))]);
    wait(&mut driver, 6, vec![write(5)]);
    assert_eq!(flush(&mut driver), vec![Change::Modify(5, event(5, true, true))]);
    assert_eq!(driver.armed(), vec![5]);
    driver.remove_one(&6, 5);
    assert_eq!(flush(&mut driver), vec![Change::Modify(5, event(5, true, false))]);
    driver.remove_one(&2, 5);
    assert_eq!(flush(&mut driver), vec![Change::Keep]);
    driver.remove_one(&4, 5);
    assert_eq!(flush(&mut driver), vec![Change::Forget(5)]);
    assert_eq!(driver.armed(), Vec::<i32>::new());
    driver.submit(8, read(5));
    driver.remove_one(&8, 5);
    assert_eq!(flush(&mut driver), vec![Change::Drop]);
    assert_eq!(flush(&mut driver), vec![]);
}

#[test]
fn marked_sources_are_looked_at_once() {
    let mut driver = driver();
    driver.mark_dirty(5);
    assert_eq!(flush(&mut driver), vec![]);
    wait(&mut driver, 2, vec![read(5)]);
    flush(&mut driver);
    wait(&mut driver, 4, vec![read(6)]);
    driver.mark_dirty(5);
    driver.mark_dirty(5);
    // What the poller holds for the first source is what it needs.
    assert_eq!(
        flush(&mut driver),
        vec![Change::Keep, Change::Register(6, event(6, true, false))],
    );
}

#[test]
fn resubmission_costs_no_registration() {
    let mut driver = driver();
    wait(&mut driver, 2, vec![read(5)]);
    flush(&mut driver);
    let (key, interest) = driver.poll_one(event(5, true, false), 5).unwrap();
    let operated = Operated::Pending(vec![read(5)]);
    assert_eq!(driver.poll_operated(key, 5, interest, &operated), None);
    assert_eq!(flush(&mut driver), vec![Change::Keep]);
    // Back at the front, it is woken before a later one.
    driver.submit(4, read(5));
    assert_eq!(driver.poll_one(event(5, true, false), 5), Some((2, Interest::Readable)));
}

#[test]
fn reports_of_unknown_sources_are_ignored() {
    let mut driver = driver();
    assert_eq!(driver.poll_one(event(5, true, true), 5), None);
    assert_eq!(flush(&mut driver), vec![]);
}

#[test]
fn cancelled_operation_completes_once_and_waits_nowhere() {
    let mut driver = driver();
    wait(&mut driver, 2, vec![read(5), write(6), read(6)]);
    wait(&mut driver, 4, vec![read(5)]);
    assert!(!driver.cancel(2, Some(OpType::Fd(vec![5, 6]))));
    assert_eq!(driver.poll_completed(), vec![Entry::new_cancelled(2)]);
    assert_eq!(driver.poll_completed(), vec![]);
    assert_eq!(driver.poll_one(event(6, true, true), 6), None);
    assert_eq!(driver.poll_one(event(5, true, true), 5), Some((4, Interest::Readable)));
    // Nothing is cancelled without descriptors.
    assert!(!driver.cancel(4, None));
    assert!(driver.cancel(4, Some(OpType::Aio)));
    driver.cancel(4, Some(OpType::Fd(Vec::new())));
    assert_eq!(driver.poll_completed(), vec![]);
}

#[test]
fn one_cancelled_interest_leaves_the_others() {
    let mut driver = driver();
    wait(&mut driver, 2, vec![read(5), write(6)]);
    assert_eq!(driver.cancel_one(2, 5), Entry::new_cancelled(2));
    assert_eq!(driver.poll_one(event(5, true, true), 5), None);
    assert_eq!(driver.poll_one(event(6, true, true), 6), Some((2, Interest::Writable)));
    driver.submit_front(8, write(6));
    assert_eq!(driver.poll_one(event(6, false, true), 6), Some((8, Interest::Writable)));
}

#[test]
fn refused_registration_fails_each_operation_once() {
    let mut driver = driver();
    wait(&mut driver, 2, vec![read(5), write(5), read(6)]);
    wait(&mut driver, 4, vec![write(5)]);
    let mut failures: usize = 0;
    while let Some(change) = driver.flush_registrations() {
        if let Change::Register(5, _) = change {
            let error = Error::new(ErrorKind::PermissionDenied, "not this one");
            let failed = driver.applied(Err(error)).unwrap();
            assert_eq!(failed.fd, 5);
            assert!(!failed.forget);
            assert_eq!(failed.keys, vec![2, 4]);
            for key in failed.keys {
                let fds: Vec<i32> = if key == 2 { vec![5, 6] } else { vec![5] };
                let entry = driver.fail_key(5, key, Some(OpType::Fd(fds)), &failed.error);
                assert_eq!(entry.key, key);
                assert_eq!(entry.result, Err(Error::from_kind(ErrorKind::PermissionDenied)));
            }
            failures += 1;
        } else if let Change::Register(_, _) | Change::Modify(_, _) = change {
            assert!(driver.applied(Ok(())).is_none());
        }
    }
    assert_eq!(failures, 1);
    assert_eq!(driver.poll_one(event(6, true, true), 6), None);
    assert_eq!(driver.poll_one(event(5, true, true), 5), None);
    assert_eq!(driver.armed(), Vec::<i32>::new());
}

#[test]
fn refused_modification_leaves_a_registration_to_delete() {
    let mut driver = driver();
    wait(&mut driver, 2, vec![read(5)]);
    flush(&mut driver);
    wait(&mut driver, 4, vec![write(5)]);
    assert_eq!(driver.flush_registrations(), Some(Change::Modify(5, event(5, true, true))));
    let failed = driver.applied(Err(Error::from_raw_os_error(libc::EBADF))).unwrap();
    assert!(failed.forget);
    assert_eq!(failed.keys, vec![2, 4]);
    let entry = driver.fail_key(5, 2, None, &failed.error);
    assert_eq!(entry.result, Err(Error::from_raw_os_error(libc::EBADF)));
    // Nothing is under way any more.
    assert!(driver.applied(Err(Error::from_raw_os_error(libc::EBADF))).is_none());
}

#[test]
fn known_sources_are_modified_instead_of_added() {
    assert_eq!(register(Ok(())), Registered::Settled(Ok(())));
    let known = Error::Os { code: libc::EEXIST, decoded: Some(ErrorKind::AlreadyExists) };
    assert_eq!(register(Err(known)), Registered::Modify);
    assert_eq!(register(Err(Error::from_raw_os_error(libc::EEXIST))), Registered::Modify);
    let other = Error::Os { code: libc::EPERM, decoded: Some(ErrorKind::PermissionDenied) };
    assert_eq!(register(Err(other)), Registered::Settled(Err(other)));
}

#[test]
fn attached_descriptor_starts_anew() {
    let mut driver = driver();
    assert!(driver.attachable(5));
    assert!(!driver.attach(5));
    wait(&mut driver, 2, vec![read(5)]);
    wait(&mut driver, 4, vec![read(6)]);
    assert!(!driver.attachable(5));
    flush(&mut driver);
    driver.remove_one(&2, 5);
    assert!(driver.attachable(5));
    assert!(driver.attach(5));
    // Attaching drops what should not have been queued.
    wait(&mut driver, 8, vec![read(7)]);
    assert!(!driver.attachable(7));
    assert!(!driver.attach(7));
    assert!(driver.attachable(7));
    // The list holds nothing of it, nor is it believed to be stale.
    assert_eq!(flush(&mut driver), vec![]);
    assert!(driver.push(8, Some(read(5))).is_none());
    assert_eq!(driver.armed(), vec![6]);
}

#[test]
fn all_registrations_are_deleted_in_the_end() {
    let mut driver = driver();
    for fd in [3, 4, 5, 6] {
        wait(&mut driver, fd as u64 * 2, vec![read(fd)]);
    }
    flush(&mut driver);
    wait(&mut driver, 20, vec![write(7)]);
    let mut armed = driver.armed();
    armed.sort();
    assert_eq!(armed, vec![3, 4, 5, 6]);
}

#[test]
fn nothing_pending_lets_the_driver_sleep() {
    let second = Some(Duration { secs: 1, nanos: 0 });
    let zero = Some(Duration::zero());
    let mut driver = driver();
    assert_eq!(
        driver.poll(second, false),
        Wait { timeout: second, timed: true, has_completed: false },
    );
    assert_eq!(
        driver.poll(None, false),
        Wait { timeout: None, timed: false, has_completed: false },
    );
    // A refused registration keeps the driver from sleeping once.
    refuse(&mut driver, 8);
    assert_eq!(driver.poll(second, false).timeout, zero);
    assert_eq!(driver.poll(second, false).timeout, second);
    assert_eq!(driver.poll(None, true).timeout, zero);
    driver.cancel(2, Some(OpType::Fd(vec![5])));
    assert_eq!(
        driver.poll(None, false),
        Wait { timeout: zero, timed: false, has_completed: true },
    );
    assert_eq!(driver.poll_completed(), vec![Entry::new_cancelled(2)]);
    assert_eq!(
        driver.poll(second, false),
        Wait { timeout: second, timed: true, has_completed: false },
    );
    assert_eq!(
        poll_timeout(second, false, false, true),
        Wait { timeout: zero, timed: true, has_completed: true },
    );
    refuse(&mut driver, 9);
    assert!(driver.flush(false));
    assert!(driver.flush(true));
    assert!(!driver.flush(false));
}

#[test]
fn waits_end_in_events_completions_or_a_timeout() {
    let timed = Wait { timeout: None, timed: true, has_completed: false };
    let open = Wait { timeout: None, timed: false, has_completed: false };
    let timed_out = Waited::Return(Err(Error::from_raw_os_error(libc::ETIMEDOUT)));
    assert_eq!(turn_after_wait(timed, true, true), Waited::Return(Ok(())));
    assert_eq!(turn_after_wait(timed, true, false), timed_out);
    assert_eq!(turn_after_wait(open, true, false), Waited::Dispatch);
    assert_eq!(turn_after_wait(timed, false, false), Waited::Dispatch);
    let mut driver = driver();
    assert_eq!(driver.poll_waited(timed, true), (vec![], timed_out));
    driver.cancel(2, Some(OpType::Fd(vec![5])));
    // Events come first, unless finished operations were seen before.
    assert_eq!(driver.poll_waited(timed, false), (vec![], Waited::Dispatch));
    let seen = driver.poll(None, false);
    assert_eq!(
        driver.poll_waited(seen, false),
        (vec![Entry::new_cancelled(2)], Waited::Dispatch),
    );
    driver.cancel(4, Some(OpType::Fd(vec![5])));
    assert_eq!(
        driver.poll_waited(timed, true),
        (vec![Entry::new_cancelled(4)], Waited::Return(Ok(()))),
    );
}

#[test]
fn other_threads_complete_through_their_own_end() {
    let mut driver = driver();
    let completer = driver.completer();
    completer.send(Entry::new(2, Ok(9))).unwrap();
    assert_eq!(driver.poll_completed(), vec![Entry::new(2, Ok(9))]);
    assert_eq!(driver.pop_multishot(&2), None);
}

//! The driver of io-uring.

use compio_driver::completion::Entry;
use compio_driver::config::{DriverType, Duration, ProactorBuilder};
use compio_driver::error::{Error, ErrorKind};
use compio_driver::iour::cqe::{
    CANCEL, Completion, Dispatch, NOTIFY, OwnerCompletion, TOKEN_LIMIT, create_entry,
    create_result, dispatch,
};
use compio_driver::iour::driver::{Cancelling, Driver, OpEntry, Route, route};
use compio_driver::iour::setup::{Probe, RingSetup, check_codes, ring_setup};
use compio_driver::iour::sqe::{
    ENTER_EXT_ARG, ENTER_GETEVENTS, ENTER_NO_IOWAIT, enter_flags, timespec,
};
use compio_driver::iour::state::{Features, PushAction, PushEvent, Submission, Turn};
use compio_driver::unix::Poll;
use io_uring::EnterFlags;
use io_uring::opcode;
use std::collections::VecDeque;

const MORE: u32 = 2;

const PLAIN: Features = Features { nodrop: true, sqpoll: false, no_iowait: false };

fn builder() -> ProactorBuilder {
    ProactorBuilder {
        capacity: 64,
        op_codes: Vec::new(),
        sqpoll_idle: None,
        sqpoll_cpu: None,
        single_issuer: false,
        defer_taskrun: false,
        coop_taskrun: false,
        taskrun_flag: false,
        cqsize: None,
        eventfd: None,
    }
}

fn driver() -> Driver {
    Driver::new(&builder(), PLAIN)
}

fn completion(user_data: u64, result: i32, flags: u32) -> Completion {
    Completion { user_data, result, flags }
}

fn take(driver: &mut Driver, shown: Vec<Completion>) -> (usize, Vec<Dispatch>) {
    let mut shown: VecDeque<Completion> = VecDeque::from(shown);
    let (_, taken) = driver.poll_entries(&mut shown);
    (shown.len(), taken)
}

fn launch(driver: &mut Driver, key: u64) {
    assert_eq!(driver.push_raw_with_key(key, Ok(())), Poll::Pending);
}

#[test]
fn flags_are_those_of_the_ring() {
    assert_eq!(ENTER_GETEVENTS, EnterFlags::GETEVENTS.bits());
    assert_eq!(ENTER_EXT_ARG, EnterFlags::EXT_ARG.bits());
    assert_eq!(ENTER_NO_IOWAIT, EnterFlags::NO_IOWAIT.bits());
    assert_eq!(enter_flags(false, false), 1);
    assert_eq!(enter_flags(false, true), 9);
    assert_eq!(enter_flags(true, false), 129);
    assert_eq!(enter_flags(true, true), 137);
}

#[test]
fn setup_follows_the_settings() {
    let plain = RingSetup {
        entries: 64,
        sqpoll: None,
        sqpoll_cpu: None,
        single_issuer: false,
        defer_taskrun: false,
        coop_taskrun: false,
        taskrun_flag: false,
        cqsize: None,
        dontfork: true,
        eventfd: None,
    };
    assert_eq!(ring_setup(&builder()), plain);
    let mut settings = builder();
    settings.sqpoll_cpu = Some(2);
    settings.defer_taskrun = true;
    assert_eq!(ring_setup(&settings), plain);
    settings.sqpoll_idle = Some(Duration { secs: 2, nanos: 7_900_000 });
    settings.single_issuer = true;
    settings.coop_taskrun = true;
    settings.taskrun_flag = true;
    settings.cqsize = Some(256);
    settings.eventfd = Some(11);
    assert_eq!(
        ring_setup(&settings),
        RingSetup {
            entries: 64,
            sqpoll: Some(2007),
            sqpoll_cpu: Some(2),
            single_issuer: true,
            defer_taskrun: true,
            coop_taskrun: true,
            taskrun_flag: true,
            cqsize: Some(256),
            dontfork: true,
            eventfd: Some(11),
        },
    );
    settings.sqpoll_idle = Some(Duration { secs: 4_294_968, nanos: 0 });
    assert_eq!(ring_setup(&settings).sqpoll, Some(704));
}

#[test]
fn unsupported_codes_are_refused() {
    let probe = Probe { supported: vec![true, false, true] };
    assert!(probe.is_op_supported(0));
    assert!(!probe.is_op_supported(1));
    assert!(!probe.is_op_supported(3));
    let mut settings = builder();
    assert_eq!(check_codes(&settings, &probe), Ok(()));
    settings.op_codes = vec![2, 0];
    assert_eq!(check_codes(&settings, &probe), Ok(()));
    settings.op_codes = vec![2, 9, 1];
    assert_eq!(
        check_codes(&settings, &probe),
        Err(Error::UnsupportedOpcode { opcode: 9 }),
    );
}

#[test]
fn results_are_numbers_or_errors() {
    assert_eq!(create_result(0), Ok(0));
    assert_eq!(create_result(i32::MAX), Ok(2147483647));
    assert_eq!(create_result(-1), Err(Error::from_raw_os_error(1)));
    assert_eq!(
        create_result(-libc::ECANCELED),
        Err(Error::from_raw_os_error(libc::ECANCELED)),
    );
    assert_eq!(
        create_result(-libc::ENOBUFS),
        Err(Error::new(ErrorKind::ResourceBusy, "buffer ring has no available buffer")),
    );
    assert_eq!(create_result(-11).unwrap_err().kind(), Some(ErrorKind::WouldBlock));
    assert_eq!(create_result(i32::MIN), Err(Error::from_raw_os_error(i32::MIN)));
}

#[test]
fn completions_find_whom_they_belong_to() {
    assert_eq!(dispatch(&completion(CANCEL, -2, 0)), Dispatch::Acknowledged);
    assert_eq!(dispatch(&completion(NOTIFY, 1, MORE)), Dispatch::Notified { armed: true });
    assert_eq!(dispatch(&completion(NOTIFY, 1, 1)), Dispatch::Notified { armed: false });
    assert_eq!(
        dispatch(&completion(15, -4, 9)),
        Dispatch::Owner(OwnerCompletion { token: 7, result: -4, flags: 9 }),
    );
    let mut entry = Entry::new(64, Ok(5));
    assert_eq!(dispatch(&completion(64, 5, 0)), Dispatch::Finished(entry));
    entry.set_flags(MORE | 1);
    assert_eq!(dispatch(&completion(64, 5, MORE | 1)), Dispatch::Multishot(entry));
    assert_eq!(create_entry(&completion(64, 5, MORE | 1)), entry);
}

#[test]
fn tokens_come_back_from_their_tags() {
    let mut driver = driver();
    assert_eq!(driver.owner_init(2), Ok(()));
    for token in [0, 1, 7, TOKEN_LIMIT - 1] {
        let entry = driver.owner_push(opcode::Nop::new().build(), token).unwrap();
        let tag: u64 = entry.get_user_data();
        assert_eq!(tag, 2 * token + 1);
        assert_eq!(
            dispatch(&completion(tag, 3, 0)),
            Dispatch::Owner(OwnerCompletion { token, result: 3, flags: 0 }),
        );
    }
}

#[test]
fn reserved_tokens_and_missing_lanes_are_refused() {
    let refusal = Error::new(
        ErrorKind::InvalidInput,
        "owner lane uninitialized or token reserved",
    );
    let mut driver = driver();
    assert_eq!(driver.owner_push(opcode::Nop::new().build(), 1).unwrap_err(), refusal);
    assert_eq!(driver.owner_init(1), Ok(()));
    assert!(driver.owner_push(opcode::Nop::new().build(), 1).is_ok());
    for token in [TOKEN_LIMIT, TOKEN_LIMIT + 1, u64::MAX] {
        assert_eq!(driver.owner_push(opcode::Nop::new().build(), token).unwrap_err(), refusal);
    }
    assert_eq!(driver.owner_pushed(true), Ok(()));
    assert_eq!(driver.owner_pushed(false), Err(Error::from_kind(ErrorKind::WouldBlock)));
}

#[test]
fn lane_opens_once_and_only_where_nothing_is_dropped() {
    let unsupported = Error::new(
        ErrorKind::Unsupported,
        "owner lane requires IORING_FEAT_NODROP without SQPOLL",
    );
    let invalid = Error::new(
        ErrorKind::InvalidInput,
        "invalid or already initialized owner capacity",
    );
    for (nodrop, sqpoll) in [(false, false), (true, true), (false, true)] {
        let features = Features { nodrop, sqpoll, no_iowait: false };
        let mut driver = Driver::new(&builder(), features);
        assert_eq!(driver.owner_init(4), Err(unsupported));
        assert_eq!(driver.owner_refusal(0), Some(unsupported));
    }
    let mut driver = driver();
    assert_eq!(driver.owner_init(0), Err(invalid));
    assert_eq!(driver.owner_refusal(4), None);
    assert_eq!(driver.owner_init(4), Ok(()));
    assert_eq!(driver.owner_refusal(4), Some(invalid));
    assert_eq!(driver.owner_init(4), Err(invalid));
}

#[test]
fn full_lane_leaves_completions_in_the_ring() {
    let mut driver = driver();
    assert_eq!(driver.room(), usize::MAX);
    assert_eq!(driver.owner_init(2), Ok(()));
    assert_eq!(driver.room(), 2);
    launch(&mut driver, 64);
    let shown = vec![
        completion(3, 0, 0),
        completion(CANCEL, 0, 0),
        completion(5, 0, 0),
        completion(64, 1, 0),
        completion(7, 0, 0),
    ];
    let (left, taken) = take(&mut driver, shown);
    assert_eq!(left, 2);
    assert_eq!(taken.len(), 3);
    assert_eq!(driver.room(), 0);
    assert!(!driver.quiesce(0));
    // Nothing more is taken in until the owner drains.
    let (left, taken) = take(&mut driver, vec![completion(64, 1, 0), completion(7, 0, 0)]);
    assert_eq!((left, taken.len()), (2, 0));
    let mut out: Vec<OwnerCompletion> = Vec::new();
    assert_eq!(driver.owner_drain(&mut out, 1), 1);
    assert_eq!(driver.owner_drain(&mut out, 9), 1);
    assert_eq!(driver.owner_drain(&mut out, 9), 0);
    let tokens: Vec<u64> = out.iter().map(|c| c.token).collect();
    assert_eq!(tokens, vec![1, 2]);
    let (left, taken) = take(&mut driver, vec![completion(64, 1, 0), completion(7, 0, 0)]);
    assert_eq!((left, taken.len()), (0, 2));
    assert!(driver.quiesce(0));
    assert!(!driver.quiesce(1));
}

#[test]
fn empty_rings_show_nothing() {
    let mut driver = driver();
    let mut shown: VecDeque<Completion> = VecDeque::new();
    assert_eq!(driver.poll_entries(&mut shown), (false, vec![]));
    shown.push_back(completion(CANCEL, 0, 0));
    assert_eq!(driver.poll_entries(&mut shown), (true, vec![Dispatch::Acknowledged]));
}

#[test]
fn operations_stay_in_flight_until_their_last_completion() {
    let mut driver = driver();
    assert!(driver.quiesce(0));
    let failed = Err(Error::from_kind(ErrorKind::WouldBlock));
    assert_eq!(
        driver.push_raw_with_key(64, failed),
        Poll::Ready(Err(Error::from_kind(ErrorKind::WouldBlock))),
    );
    assert!(driver.quiesce(0));
    launch(&mut driver, 64);
    launch(&mut driver, 66);
    take(&mut driver, vec![completion(64, 1, MORE), completion(66, 1, 0)]);
    assert!(!driver.quiesce(0));
    assert!(!driver.cancel(66));
    assert!(driver.cancel(64));
    take(&mut driver, vec![completion(CANCEL, 0, 0), completion(64, 1, MORE)]);
    assert!(!driver.quiesce(0));
    take(&mut driver, vec![completion(64, -libc::ECANCELED, 0)]);
    assert!(driver.quiesce(0));
}

#[test]
fn cancellations_are_submitted_once() {
    let mut driver = driver();
    assert!(!driver.cancel(64));
    assert!(driver.push_pending_cancels(Cancelling::Begin).is_none());
    launch(&mut driver, 64);
    assert!(driver.cancel(64));
    assert!(driver.cancel(64));
    let (key, entry) = driver.push_pending_cancels(Cancelling::Begin).unwrap();
    assert_eq!(key, 64);
    assert_eq!(entry.get_user_data(), CANCEL);
    assert_eq!(entry.get_opcode(), opcode::AsyncCancel::CODE as u32);
    // A full queue ends the round, and the request stays pending.
    assert!(
        driver.push_pending_cancels(Cancelling::Offered { key, accepted: false }).is_none()
    );
    assert_eq!(driver.submit_auto(None, true, false).want, 0);
    assert!(driver.push_pending_cancels(Cancelling::Begin).is_some());
    assert!(driver.push_pending_cancels(Cancelling::Offered { key, accepted: true }).is_none());
    assert_eq!(driver.submit_auto(None, true, false).want, 1);
    // A finished operation needs no cancellation any more.
    assert!(driver.cancel(64));
    take(&mut driver, vec![completion(64, 0, 0)]);
    assert!(driver.push_pending_cancels(Cancelling::Begin).is_none());
}

#[test]
fn operations_fall_back_at_most_once() {
    let driver = driver();
    let nop = OpEntry::Submission(opcode::Nop::new().build());
    let cancel = OpEntry::Submission(opcode::AsyncCancel::new(3).build());
    let mut supported = vec![true; 256];
    supported[opcode::Nop::CODE as usize] = false;
    let probe = Probe { supported };
    assert_eq!(driver.push(&cancel, &probe, false), Route::Submit);
    assert_eq!(driver.push(&cancel, &probe, true), Route::Submit);
    assert_eq!(driver.push(&nop, &probe, false), Route::Fallback);
    assert_eq!(driver.push(&nop, &probe, true), Route::Blocking);
    assert_eq!(driver.push(&OpEntry::Blocking, &probe, false), Route::Blocking);
    assert_eq!(route(Some(1), &probe, false), Route::Submit);
    assert_eq!(route(Some(0), &probe, false), Route::Fallback);
    assert_eq!(route(None, &probe, false), Route::Blocking);
}

#[test]
fn operations_are_tagged_with_their_key() {
    let entry = driver().tag_operation(opcode::Nop::new().build(), 64);
    assert_eq!(entry.get_user_data(), 64);
    assert_eq!(entry.get_opcode(), opcode::Nop::CODE as u32);
}

#[test]
fn pushing_makes_room_until_the_lane_is_full() {
    let mut driver = driver();
    let full = PushEvent::Polled { full: true };
    assert_eq!(driver.push_raw(PushEvent::Begin), PushAction::Offer);
    assert_eq!(
        driver.push_raw(PushEvent::Offered { accepted: true }),
        PushAction::Return(Ok(())),
    );
    assert_eq!(driver.push_raw(PushEvent::Offered { accepted: false }), PushAction::Submit);
    assert_eq!(driver.push_raw(PushEvent::Submitted(Ok(()))), PushAction::Poll);
    for kind in [ErrorKind::TimedOut, ErrorKind::Interrupted] {
        let retried = Err(Error::from_kind(kind));
        assert_eq!(driver.push_raw(PushEvent::Submitted(retried)), PushAction::Poll);
    }
    let decoded = Error::Os { code: libc::EINTR, decoded: Some(ErrorKind::Interrupted) };
    assert_eq!(driver.push_raw(PushEvent::Submitted(Err(decoded))), PushAction::Poll);
    for code in [libc::EINTR, libc::ETIMEDOUT] {
        let raw = Err(Error::from_raw_os_error(code));
        assert_eq!(driver.push_raw(PushEvent::Submitted(raw)), PushAction::Poll);
    }
    let fatal = Err(Error::from_raw_os_error(libc::EBADF));
    assert_eq!(driver.push_raw(PushEvent::Submitted(fatal)), PushAction::Return(fatal));
    assert_eq!(driver.push_raw(full), PushAction::Offer);
    assert_eq!(driver.owner_init(1), Ok(()));
    assert_eq!(driver.push_raw(full), PushAction::Offer);
    take(&mut driver, vec![completion(3, 0, 0)]);
    assert_eq!(
        driver.push_raw(full),
        PushAction::Return(Err(Error::from_kind(ErrorKind::WouldBlock))),
    );
    assert_eq!(driver.push_raw(PushEvent::Polled { full: false }), PushAction::Offer);
}

#[test]
fn turns_wait_only_when_nothing_is_left_to_do() {
    let plain = driver();
    let second = Some(Duration { secs: 1, nanos: 0 });
    let zero = Some(Duration::zero());
    assert_eq!(
        plain.submit_auto(second, true, false),
        Submission { want: 1, timeout: second, flags: None },
    );
    assert_eq!(plain.submit_auto(None, true, true).want, 0);
    assert_eq!(plain.submit_auto(None, false, false).want, 0);
    // Sleeping waits are marked where the ring can, and only those.
    let features = Features { nodrop: true, sqpoll: false, no_iowait: true };
    let mut marking = Driver::new(&builder(), features);
    assert_eq!(marking.submit_auto(second, true, false).flags, Some(137));
    assert_eq!(marking.submit_auto(None, true, false).flags, Some(129));
    assert_eq!(marking.submit_auto(zero, true, false).flags, None);
    assert_eq!(marking.submit_auto(second, false, false).flags, None);
    let mut settings = builder();
    settings.sqpoll_idle = second;
    assert_eq!(Driver::new(&settings, features).submit_auto(None, true, false).flags, None);
    // With a lane every turn drives completions.
    assert_eq!(marking.owner_init(4), Ok(()));
    assert_eq!(marking.submit_auto(zero, false, false).flags, Some(9));
    assert_eq!(marking.submit_auto(None, false, false).flags, Some(1));
    assert_eq!(marking.submit_auto(zero, true, false).flags, Some(9));
    assert_eq!(
        marking.owner_submission(),
        Submission { want: 0, timeout: None, flags: Some(1) },
    );
}

#[test]
fn enter_calls_are_judged_by_their_error_number() {
    let driver = driver();
    let timed_out = Err(Error::from_kind(ErrorKind::TimedOut));
    let interrupted = Err(Error::from_kind(ErrorKind::Interrupted));
    assert_eq!(driver.submitted(1, false, Ok(3)), Ok(()));
    assert_eq!(driver.submitted(1, true, Ok(3)), timed_out);
    assert_eq!(driver.submitted(0, true, Ok(3)), Ok(()));
    let failed = |code: i32| driver.submitted(1, true, Err(Error::from_raw_os_error(code)));
    assert_eq!(failed(libc::ETIME), timed_out);
    assert_eq!(failed(libc::EBUSY), interrupted);
    assert_eq!(failed(libc::EAGAIN), interrupted);
    assert_eq!(failed(libc::EINTR), Err(Error::from_raw_os_error(libc::EINTR)));
    assert!(driver.flush(timed_out, false));
    assert!(driver.flush(Ok(()), true));
    assert!(!driver.flush(Ok(()), false));
}

#[test]
fn owner_pressure_is_retryable_and_losses_are_not() {
    let mut driver = driver();
    let lost = Err(Error::new(
        ErrorKind::Other,
        "io-uring lost CQEs; retain all in-flight owner resources",
    ));
    let failed = |code: i32| Err(Error::from_raw_os_error(code));
    assert_eq!(driver.check_owner_completions(3), Ok(()));
    assert_eq!(driver.owner_progress(Ok(0), 3), Ok(()));
    assert_eq!(driver.owner_init(1), Ok(()));
    assert_eq!(driver.check_owner_completions(0), Ok(()));
    assert_eq!(driver.check_owner_completions(3), lost);
    assert_eq!(driver.owner_progress(Ok(0), 0), Ok(()));
    for code in [libc::EBUSY, libc::EAGAIN, libc::EINTR] {
        assert_eq!(driver.owner_progress(failed(code), 0), Ok(()));
        assert_eq!(driver.owner_progress(failed(code), 1), lost);
    }
    assert_eq!(
        driver.owner_progress(failed(libc::EBADF), 0),
        Err(Error::from_raw_os_error(libc::EBADF)),
    );
    let kind = Err(Error::from_kind(ErrorKind::Interrupted));
    assert_eq!(driver.owner_progress(kind, 0), Err(Error::from_kind(ErrorKind::Interrupted)));
    let (entries, turn) = driver.poll(1);
    assert!(entries.is_empty());
    assert_eq!(turn, Turn::Return(lost));
}

#[test]
fn finished_calls_end_the_turn_unless_there_is_a_lane() {
    let mut driver = driver();
    let completer = driver.completer();
    assert_eq!(driver.poll(0), (vec![], Turn::Reset));
    completer.send(Entry::new(64, Ok(1))).unwrap();
    assert_eq!(driver.poll(0), (vec![Entry::new(64, Ok(1))], Turn::Return(Ok(()))));
    assert_eq!(driver.owner_init(1), Ok(()));
    completer.send(Entry::new(66, Ok(2))).unwrap();
    assert_eq!(driver.poll(0), (vec![Entry::new(66, Ok(2))], Turn::Proceed));
    assert_eq!(driver.poll_drained(false), Turn::Reset);
    completer.send(Entry::new(68, Ok(3))).unwrap();
    assert_eq!(driver.poll_blocking(), vec![Entry::new(68, Ok(3))]);
    assert!(driver.wait_after(Turn::Reset, false));
    assert!(!driver.wait_after(Turn::Reset, true));
    assert!(!driver.wait_after(Turn::Proceed, false));
    assert!(!driver.wait_after(Turn::Return(Ok(())), false));
    take(&mut driver, vec![completion(3, 0, 0)]);
    assert!(!driver.wait_after(Turn::Reset, false));
}

#[test]
fn notifier_is_armed_again_after_its_last_report() {
    let mut driver = driver();
    let entry = driver.notifier_entry(9).unwrap();
    assert_eq!(entry.get_user_data(), NOTIFY);
    assert_eq!(entry.get_opcode(), opcode::PollAdd::CODE as u32);
    driver.notifier_pushed();
    assert!(driver.notifier_entry(9).is_none());
    take(&mut driver, vec![completion(NOTIFY, 1, MORE)]);
    assert!(driver.notifier_entry(9).is_none());
    take(&mut driver, vec![completion(NOTIFY, 1, 0), completion(NOTIFY, 1, MORE)]);
    assert!(driver.notifier_entry(9).is_some());
}

#[test]
fn time_limits_keep_seconds_and_nanoseconds() {
    let limit = timespec(Duration { secs: 3, nanos: 250 });
    let expected = io_uring::types::Timespec::new().sec(3).nsec(250);
    assert_eq!(format!("{limit:?}"), format!("{expected:?}"));
    let other = io_uring::types::Timespec::new().sec(250).nsec(3);
    assert_ne!(format!("{limit:?}"), format!("{other:?}"));
}

#[test]
fn driver_knows_what_it_is() {
    let mut driver = driver();
    assert_eq!(driver.driver_type(), DriverType::IoUring);
    assert_eq!(driver.attach(5), Ok(()));
    assert!(driver.as_iour().is_some());
    let same = driver.as_iour_mut().unwrap();
    assert_eq!(same.owner_init(3), Ok(()));
    assert_eq!(driver.room(), 3);
}

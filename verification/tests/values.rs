//! Errors, numbers of the system, and retried calls.

use compio_driver::completion::{Channel, Entry};
use compio_driver::config::Duration;
use compio_driver::error::{Error, ErrorKind, decode};
use compio_driver::os;
use compio_driver::unix::{Attempt, CurrentDir, Poll, poll_io};

#[test]
fn numbers_are_those_of_the_system() {
    assert_eq!(os::EINTR, libc::EINTR);
    assert_eq!(os::EAGAIN, libc::EAGAIN);
    assert_eq!(os::EBUSY, libc::EBUSY);
    assert_eq!(os::EEXIST, libc::EEXIST);
    assert_eq!(os::EOPNOTSUPP, libc::EOPNOTSUPP);
    assert_eq!(os::ETIME, libc::ETIME);
    assert_eq!(os::ENOBUFS, libc::ENOBUFS);
    assert_eq!(os::ETIMEDOUT, libc::ETIMEDOUT);
    assert_eq!(os::EINPROGRESS, libc::EINPROGRESS);
    assert_eq!(os::ECANCELED, libc::ECANCELED);
    assert_eq!(os::AT_FDCWD, libc::AT_FDCWD);
    assert_eq!(os::POLLIN, libc::POLLIN as u32);
    assert_eq!(os::EAGAIN, rustix::io::Errno::WOULDBLOCK.raw_os_error());
    assert_eq!(os::EINPROGRESS, rustix::io::Errno::INPROGRESS.raw_os_error());
    assert_eq!(os::EINTR, rustix::io::Errno::INTR.raw_os_error());
}

#[test]
fn working_directory_has_its_number() {
    assert_eq!(CurrentDir.as_raw_fd(), libc::AT_FDCWD);
}

#[test]
fn errors_tell_number_and_category() {
    let os = Error::Os { code: libc::EEXIST, decoded: Some(ErrorKind::AlreadyExists) };
    assert_eq!(os.raw_os_error(), Some(libc::EEXIST));
    assert_eq!(os.kind(), Some(ErrorKind::AlreadyExists));
    let raw = Error::from_raw_os_error(libc::EPERM);
    assert_eq!(raw.raw_os_error(), Some(libc::EPERM));
    assert_eq!(raw.kind(), Some(ErrorKind::PermissionDenied));
    assert_eq!(Error::from_raw_os_error(libc::ECANCELED).kind(), None);
    let simple = Error::from_kind(ErrorKind::BrokenPipe);
    assert_eq!(simple.raw_os_error(), None);
    assert_eq!(simple.kind(), Some(ErrorKind::BrokenPipe));
    let custom = Error::new(ErrorKind::InvalidData, "no such thing");
    assert_eq!(custom.raw_os_error(), None);
    assert_eq!(custom.kind(), Some(ErrorKind::InvalidData));
    let opcode = Error::UnsupportedOpcode { opcode: 7 };
    assert_eq!(opcode.kind(), Some(ErrorKind::Unsupported));
}

#[test]
fn numbers_have_the_category_that_the_standard_library_gives() {
    for code in -1..4100 {
        let standard = format!("{:?}", std::io::Error::from_raw_os_error(code).kind());
        let own = match Error::from_raw_os_error(code).kind() {
            Some(kind) => format!("{kind:?}"),
            None => format!("Uncategorized"),
        };
        assert_eq!(own, standard, "number {code}");
    }
    assert_eq!(decode(libc::EAGAIN), Some(ErrorKind::WouldBlock));
    assert_eq!(decode(libc::EBUSY), Some(ErrorKind::ResourceBusy));
    assert_eq!(decode(0), None);
}

#[test]
fn shared_errors_keep_the_number_or_the_category() {
    let os = Error::Os { code: libc::EBADF, decoded: None };
    assert_eq!(os.share(), os);
    let simple = Error::from_kind(ErrorKind::TimedOut);
    assert_eq!(simple.share(), simple);
    let custom = Error::new(ErrorKind::Other, "lost in sharing");
    assert_eq!(custom.share(), Error::from_kind(ErrorKind::Other));
    let opcode = Error::UnsupportedOpcode { opcode: 9 };
    assert_eq!(opcode.share(), Error::from_kind(ErrorKind::Unsupported));
}

#[test]
fn retried_calls_settle_on_the_first_uninterrupted_attempt() {
    let interrupted: Result<u8, Error> = Err(Error::from_raw_os_error(libc::EINTR));
    assert_eq!(poll_io(interrupted), Attempt::Retry);
    let blocked: Result<u8, Error> = Err(Error::from_raw_os_error(libc::EAGAIN));
    assert_eq!(poll_io(blocked), Attempt::Settled(Poll::Pending));
    let connecting: Result<u8, Error> = Err(Error::from_raw_os_error(libc::EINPROGRESS));
    assert_eq!(poll_io(connecting), Attempt::Settled(Poll::Pending));
    let done: Result<u8, Error> = Ok(42);
    assert_eq!(poll_io(done), Attempt::Settled(Poll::Ready(Ok(42))));
    let attempts: Vec<Result<u8, Error>> = vec![interrupted, interrupted, done, blocked];
    let mut retried: usize = 0;
    for attempt in attempts {
        match poll_io(attempt) {
            Attempt::Retry => retried += 1,
            Attempt::Settled(settled) => {
                assert_eq!(settled, Poll::Ready(Ok(42)));
                break;
            }
        }
    }
    assert_eq!(retried, 2);
}

#[test]
fn other_errors_are_handed_on() {
    for error in [
        Error::from_raw_os_error(libc::EBADF),
        Error::from_raw_os_error(0),
        Error::from_raw_os_error(-libc::EINTR),
        Error::from_raw_os_error(4096),
        Error::from_kind(ErrorKind::WouldBlock),
        Error::from_kind(ErrorKind::Interrupted),
    ] {
        let failed: Result<u8, Error> = Err(error);
        assert_eq!(poll_io(failed), Attempt::Settled(Poll::Ready(Err(error))));
    }
}

#[test]
fn durations_count_whole_milliseconds() {
    assert_eq!(Duration::zero(), Duration { secs: 0, nanos: 0 });
    assert_eq!(Duration { secs: 3, nanos: 999_999 }.as_millis(), 3000);
    assert_eq!(Duration { secs: 3, nanos: 1_000_000 }.as_millis(), 3001);
    let longest = Duration { secs: u64::MAX, nanos: 999_999_999 };
    assert_eq!(longest.as_millis(), u64::MAX as u128 * 1000 + 999);
}

#[test]
fn entries_carry_key_result_and_flags() {
    let mut entry = Entry::new(6, Ok(3));
    assert_eq!((entry.key, entry.result, entry.flags), (6, Ok(3), 0));
    entry.set_flags(5);
    assert_eq!((entry.key, entry.result, entry.flags), (6, Ok(3), 5));
    let cancelled = Entry::new_cancelled(8);
    assert_eq!(cancelled.key, 8);
    assert_eq!(cancelled.result, Err(Error::from_raw_os_error(libc::ECANCELED)));
}

#[test]
fn channel_delivers_what_was_sent_from_every_end() {
    let mut channel = Channel::new();
    assert!(channel.is_empty());
    assert!(channel.receive().is_empty());
    channel.send(Entry::new(2, Ok(1)));
    let other = channel.sender();
    other.send(Entry::new(4, Ok(2))).unwrap();
    channel.send(Entry::new(2, Ok(1)));
    assert!(!channel.is_empty());
    let received = channel.receive();
    assert_eq!(
        received,
        vec![Entry::new(2, Ok(1)), Entry::new(4, Ok(2)), Entry::new(2, Ok(1))],
    );
    assert!(channel.is_empty());
    assert!(channel.receive().is_empty());
}

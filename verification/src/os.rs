//! Numbers of the operating system that the drivers compare with.
//!
//! The values are those of the generic Linux ABI, which x86-64, AArch64,
//! RISC-V, LoongArch and 64-bit PowerPC share.

use vstd::prelude::*;

verus! {

/// An operation that is not permitted.
pub const EPERM: i32 = 1;

/// Something that does not exist.
pub const ENOENT: i32 = 2;

/// An interrupted call.
pub const EINTR: i32 = 4;

/// Arguments that are too long.
pub const E2BIG: i32 = 7;

/// A resource that is not available yet.
pub const EAGAIN: i32 = 11;

/// Memory that ran out.
pub const ENOMEM: i32 = 12;

/// An access that is not permitted.
pub const EACCES: i32 = 13;

/// A resource that is busy.
pub const EBUSY: i32 = 16;

/// Something that exists already.
pub const EEXIST: i32 = 17;

/// A link between devices.
pub const EXDEV: i32 = 18;

/// Something that is no directory.
pub const ENOTDIR: i32 = 20;

/// Something that is a directory.
pub const EISDIR: i32 = 21;

/// An invalid argument.
pub const EINVAL: i32 = 22;

/// A program that is running.
pub const ETXTBSY: i32 = 26;

/// A file that is too large.
pub const EFBIG: i32 = 27;

/// Storage that ran out.
pub const ENOSPC: i32 = 28;

/// A descriptor that cannot be positioned.
pub const ESPIPE: i32 = 29;

/// A file system that is read-only.
pub const EROFS: i32 = 30;

/// Too many links.
pub const EMLINK: i32 = 31;

/// A pipe without a reader.
pub const EPIPE: i32 = 32;

/// A deadlock.
pub const EDEADLK: i32 = 35;

/// A name that is too long.
pub const ENAMETOOLONG: i32 = 36;

/// A call that does not exist.
pub const ENOSYS: i32 = 38;

/// A directory that is not empty.
pub const ENOTEMPTY: i32 = 39;

/// Too many symbolic links.
pub const ELOOP: i32 = 40;

/// A timer that expired.
pub const ETIME: i32 = 62;

/// An operation that the descriptor does not support.
pub const EOPNOTSUPP: i32 = 95;

/// An address that is in use.
pub const EADDRINUSE: i32 = 98;

/// An address that is not available.
pub const EADDRNOTAVAIL: i32 = 99;

/// A network that is down.
pub const ENETDOWN: i32 = 100;

/// A network that cannot be reached.
pub const ENETUNREACH: i32 = 101;

/// A connection that was aborted.
pub const ECONNABORTED: i32 = 103;

/// A connection that was reset.
pub const ECONNRESET: i32 = 104;

/// No buffer space left.
pub const ENOBUFS: i32 = 105;

/// A socket without a connection.
pub const ENOTCONN: i32 = 107;

/// A connection or wait that timed out.
pub const ETIMEDOUT: i32 = 110;

/// A connection that was refused.
pub const ECONNREFUSED: i32 = 111;

/// A host that cannot be reached.
pub const EHOSTUNREACH: i32 = 113;

/// A connection attempt that is under way.
pub const EINPROGRESS: i32 = 115;

/// A file handle that is stale.
pub const ESTALE: i32 = 116;

/// A quota that is exhausted.
pub const EDQUOT: i32 = 122;

/// A cancelled operation.
pub const ECANCELED: i32 = 125;

/// The descriptor number that stands for the current working directory.
pub const AT_FDCWD: i32 = -100;

/// Readiness to read, as an event bit of `poll(2)`.
pub const POLLIN: u32 = 1;

/// Reads the constant `libc::EINTR`; claims its value.
#[verifier::external_body]
pub(crate) fn eintr() -> (code: i32)
    ensures
        code == EINTR,
{
    libc::EINTR
}

/// Reads the constant `libc::EAGAIN`; claims its value.
#[verifier::external_body]
pub(crate) fn eagain() -> (code: i32)
    ensures
        code == EAGAIN,
{
    libc::EAGAIN
}

/// Reads the constant `libc::EBUSY`; claims its value.
#[verifier::external_body]
pub(crate) fn ebusy() -> (code: i32)
    ensures
        code == EBUSY,
{
    libc::EBUSY
}

/// Reads the constant `libc::EOPNOTSUPP`; claims its value.
#[verifier::external_body]
pub(crate) fn eopnotsupp() -> (code: i32)
    ensures
        code == EOPNOTSUPP,
{
    libc::EOPNOTSUPP
}

/// Reads the constant `libc::ETIME`; claims its value.
#[verifier::external_body]
pub(crate) fn etime() -> (code: i32)
    ensures
        code == ETIME,
{
    libc::ETIME
}

/// Reads the constant `libc::ENOBUFS`; claims its value.
#[verifier::external_body]
pub(crate) fn enobufs() -> (code: i32)
    ensures
        code == ENOBUFS,
{
    libc::ENOBUFS
}

/// Reads the constant `libc::ETIMEDOUT`; claims its value.
#[verifier::external_body]
pub(crate) fn etimedout() -> (code: i32)
    ensures
        code == ETIMEDOUT,
{
    libc::ETIMEDOUT
}

/// Reads the constant `libc::ECANCELED`; claims its value.
#[verifier::external_body]
pub(crate) fn ecanceled() -> (code: i32)
    ensures
        code == ECANCELED,
{
    libc::ECANCELED
}

/// Reads the constant `libc::POLLIN`, widened as the ring's poll request takes
/// it; claims its value.
#[verifier::external_body]
pub(crate) fn pollin() -> (events: u32)
    ensures
        events == POLLIN,
{
    libc::POLLIN as u32
}

/// The number that `rustix::io::Errno::from_io_error` extracts from an error
/// with the number `code`, read back with `Errno::raw_os_error`. It keeps the
/// numbers from 1 to 4095, Linux's range, as they are, and takes 0 for no number.
/// Whether it accepts the others depends on how rustix was built and is left
/// unsaid; one that it accepts stays as it is.
#[verifier::external_body]
pub(crate) fn errno(code: i32) -> (number: Option<i32>)
    ensures
        1 <= code < 4096 ==> number == Some(code),
        code == 0 ==> number is None,
        number matches Some(n) ==> n == code,
{
    match rustix::io::Errno::from_io_error(&std::io::Error::from_raw_os_error(code)) {
        Some(errno) => Some(errno.raw_os_error()),
        None => None,
    }
}

/// Reads the constant `rustix::io::Errno::WOULDBLOCK`; claims its number.
#[verifier::external_body]
pub(crate) fn errno_wouldblock() -> (number: i32)
    ensures
        number == EAGAIN,
{
    rustix::io::Errno::WOULDBLOCK.raw_os_error()
}

/// Reads the constant `rustix::io::Errno::INPROGRESS`; claims its number.
#[verifier::external_body]
pub(crate) fn errno_inprogress() -> (number: i32)
    ensures
        number == EINPROGRESS,
{
    rustix::io::Errno::INPROGRESS.raw_os_error()
}

/// Reads the constant `rustix::io::Errno::INTR`; claims its number.
#[verifier::external_body]
pub(crate) fn errno_intr() -> (number: i32)
    ensures
        number == EINTR,
{
    rustix::io::Errno::INTR.raw_os_error()
}

/// The descriptor number of `rustix::fs::CWD`; claims that it is `AT_FDCWD`.
#[verifier::external_body]
pub(crate) fn cwd() -> (fd: i32)
    ensures
        fd == AT_FDCWD,
{
    rustix::fd::AsRawFd::as_raw_fd(&rustix::fs::CWD)
}

} // verus!

//! The errors that the drivers report.

use crate::os;
use vstd::prelude::*;

verus! {

/// The category of an error.
#[derive(Clone, Copy, Debug, PartialEq, Eq, Structural)]
pub enum ErrorKind {
    NotFound,
    PermissionDenied,
    ConnectionRefused,
    ConnectionReset,
    HostUnreachable,
    NetworkUnreachable,
    ConnectionAborted,
    NotConnected,
    AddrInUse,
    AddrNotAvailable,
    NetworkDown,
    BrokenPipe,
    AlreadyExists,
    WouldBlock,
    NotADirectory,
    IsADirectory,
    DirectoryNotEmpty,
    FilesystemLoop,
    ReadOnlyFilesystem,
    StaleNetworkFileHandle,
    InvalidInput,
    InvalidData,
    TimedOut,
    WriteZero,
    StorageFull,
    NotSeekable,
    QuotaExceeded,
    FileTooLarge,
    ResourceBusy,
    ExecutableFileBusy,
    Deadlock,
    CrossesDevices,
    TooManyLinks,
    InvalidFilename,
    ArgumentListTooLong,
    InProgress,
    Interrupted,
    Unsupported,
    UnexpectedEof,
    OutOfMemory,
    Other,
}

/// An error of an input or output operation.
#[derive(Clone, Copy, Debug, PartialEq, Eq)]
pub enum Error {
    /// An error number of the operating system. `decoded` is the category that
    /// the system layer decoded it to, where that layer reported the error.
    /// Otherwise the number tells the category.
    Os { code: i32, decoded: Option<ErrorKind> },
    /// A category alone.
    Simple { kind: ErrorKind },
    /// A category with an explanation.
    Custom { kind: ErrorKind, message: &'static str },
    /// The ring cannot run the operation with this code.
    UnsupportedOpcode { opcode: u8 },
}

/// The error made from the number `code`.
pub open spec fn os_error(code: i32) -> Error {
    Error::Os { code, decoded: None }
}

/// The error made from the category `kind`.
pub open spec fn kind_error(kind: ErrorKind) -> Error {
    Error::Simple { kind }
}

/// The category of an error number, where it has one.
pub open spec fn kind_of_number(code: i32) -> Option<ErrorKind> {
    if code == os::EPERM || code == os::EACCES {
        Some(ErrorKind::PermissionDenied)
    } else if code == os::ENOENT {
        Some(ErrorKind::NotFound)
    } else if code == os::EINTR {
        Some(ErrorKind::Interrupted)
    } else if code == os::E2BIG {
        Some(ErrorKind::ArgumentListTooLong)
    } else if code == os::EAGAIN {
        Some(ErrorKind::WouldBlock)
    } else if code == os::ENOMEM {
        Some(ErrorKind::OutOfMemory)
    } else if code == os::EBUSY {
        Some(ErrorKind::ResourceBusy)
    } else if code == os::EEXIST {
        Some(ErrorKind::AlreadyExists)
    } else if code == os::EXDEV {
        Some(ErrorKind::CrossesDevices)
    } else if code == os::ENOTDIR {
        Some(ErrorKind::NotADirectory)
    } else if code == os::EISDIR {
        Some(ErrorKind::IsADirectory)
    } else if code == os::EINVAL {
        Some(ErrorKind::InvalidInput)
    } else if code == os::ETXTBSY {
        Some(ErrorKind::ExecutableFileBusy)
    } else if code == os::EFBIG {
        Some(ErrorKind::FileTooLarge)
    } else if code == os::ENOSPC {
        Some(ErrorKind::StorageFull)
    } else if code == os::ESPIPE {
        Some(ErrorKind::NotSeekable)
    } else if code == os::EROFS {
        Some(ErrorKind::ReadOnlyFilesystem)
    } else if code == os::EMLINK {
        Some(ErrorKind::TooManyLinks)
    } else if code == os::EPIPE {
        Some(ErrorKind::BrokenPipe)
    } else if code == os::EDEADLK {
        Some(ErrorKind::Deadlock)
    } else if code == os::ENAMETOOLONG {
        Some(ErrorKind::InvalidFilename)
    } else if code == os::ENOSYS || code == os::EOPNOTSUPP {
        Some(ErrorKind::Unsupported)
    } else if code == os::ENOTEMPTY {
        Some(ErrorKind::DirectoryNotEmpty)
    } else if code == os::ELOOP {
        Some(ErrorKind::FilesystemLoop)
    } else if code == os::EADDRINUSE {
        Some(ErrorKind::AddrInUse)
    } else if code == os::EADDRNOTAVAIL {
        Some(ErrorKind::AddrNotAvailable)
    } else if code == os::ENETDOWN {
        Some(ErrorKind::NetworkDown)
    } else if code == os::ENETUNREACH {
        Some(ErrorKind::NetworkUnreachable)
    } else if code == os::ECONNABORTED {
        Some(ErrorKind::ConnectionAborted)
    } else if code == os::ECONNRESET {
        Some(ErrorKind::ConnectionReset)
    } else if code == os::ENOTCONN {
        Some(ErrorKind::NotConnected)
    } else if code == os::ETIMEDOUT {
        Some(ErrorKind::TimedOut)
    } else if code == os::ECONNREFUSED {
        Some(ErrorKind::ConnectionRefused)
    } else if code == os::EHOSTUNREACH {
        Some(ErrorKind::HostUnreachable)
    } else if code == os::EINPROGRESS {
        Some(ErrorKind::InProgress)
    } else if code == os::ESTALE {
        Some(ErrorKind::StaleNetworkFileHandle)
    } else if code == os::EDQUOT {
        Some(ErrorKind::QuotaExceeded)
    } else {
        None
    }
}

/// The category of an error number, where it has one.
pub fn decode(code: i32) -> (kind: Option<ErrorKind>)
    ensures
        kind == kind_of_number(code),
{
    if code == os::EPERM || code == os::EACCES {
        Some(ErrorKind::PermissionDenied)
    } else if code == os::ENOENT {
        Some(ErrorKind::NotFound)
    } else if code == os::EINTR {
        Some(ErrorKind::Interrupted)
    } else if code == os::E2BIG {
        Some(ErrorKind::ArgumentListTooLong)
    } else if code == os::EAGAIN {
        Some(ErrorKind::WouldBlock)
    } else if code == os::ENOMEM {
        Some(ErrorKind::OutOfMemory)
    } else if code == os::EBUSY {
        Some(ErrorKind::ResourceBusy)
    } else if code == os::EEXIST {
        Some(ErrorKind::AlreadyExists)
    } else if code == os::EXDEV {
        Some(ErrorKind::CrossesDevices)
    } else if code == os::ENOTDIR {
        Some(ErrorKind::NotADirectory)
    } else if code == os::EISDIR {
        Some(ErrorKind::IsADirectory)
    } else if code == os::EINVAL {
        Some(ErrorKind::InvalidInput)
    } else if code == os::ETXTBSY {
        Some(ErrorKind::ExecutableFileBusy)
    } else if code == os::EFBIG {
        Some(ErrorKind::FileTooLarge)
    } else if code == os::ENOSPC {
        Some(ErrorKind::StorageFull)
    } else if code == os::ESPIPE {
        Some(ErrorKind::NotSeekable)
    } else if code == os::EROFS {
        Some(ErrorKind::ReadOnlyFilesystem)
    } else if code == os::EMLINK {
        Some(ErrorKind::TooManyLinks)
    } else if code == os::EPIPE {
        Some(ErrorKind::BrokenPipe)
    } else if code == os::EDEADLK {
        Some(ErrorKind::Deadlock)
    } else if code == os::ENAMETOOLONG {
        Some(ErrorKind::InvalidFilename)
    } else if code == os::ENOSYS || code == os::EOPNOTSUPP {
        Some(ErrorKind::Unsupported)
    } else if code == os::ENOTEMPTY {
        Some(ErrorKind::DirectoryNotEmpty)
    } else if code == os::ELOOP {
        Some(ErrorKind::FilesystemLoop)
    } else if code == os::EADDRINUSE {
        Some(ErrorKind::AddrInUse)
    } else if code == os::EADDRNOTAVAIL {
        Some(ErrorKind::AddrNotAvailable)
    } else if code == os::ENETDOWN {
        Some(ErrorKind::NetworkDown)
    } else if code == os::ENETUNREACH {
        Some(ErrorKind::NetworkUnreachable)
    } else if code == os::ECONNABORTED {
        Some(ErrorKind::ConnectionAborted)
    } else if code == os::ECONNRESET {
        Some(ErrorKind::ConnectionReset)
    } else if code == os::ENOTCONN {
        Some(ErrorKind::NotConnected)
    } else if code == os::ETIMEDOUT {
        Some(ErrorKind::TimedOut)
    } else if code == os::ECONNREFUSED {
        Some(ErrorKind::ConnectionRefused)
    } else if code == os::EHOSTUNREACH {
        Some(ErrorKind::HostUnreachable)
    } else if code == os::EINPROGRESS {
        Some(ErrorKind::InProgress)
    } else if code == os::ESTALE {
        Some(ErrorKind::StaleNetworkFileHandle)
    } else if code == os::EDQUOT {
        Some(ErrorKind::QuotaExceeded)
    } else {
        None
    }
}

impl Error {
    /// The error number, where the error has one.
    pub open spec fn code_of(self) -> Option<i32> {
        match self {
            Error::Os { code, .. } => Some(code),
            _ => None,
        }
    }

    /// The category, where the error has one.
    pub open spec fn kind_of(self) -> Option<ErrorKind> {
        match self {
            Error::Os { code, decoded } => if decoded is Some {
                decoded
            } else {
                kind_of_number(code)
            },
            Error::Simple { kind } => Some(kind),
            Error::Custom { kind, .. } => Some(kind),
            Error::UnsupportedOpcode { .. } => Some(ErrorKind::Unsupported),
        }
    }

    /// What is left of the error when it is handed to more than one operation:
    /// the number, or else the category alone.
    pub open spec fn shared(self) -> Error {
        match self {
            Error::Os { .. } => self,
            Error::Simple { .. } => self,
            Error::Custom { kind, .. } => kind_error(kind),
            Error::UnsupportedOpcode { .. } => kind_error(ErrorKind::Unsupported),
        }
    }

    /// An error with the given number, not yet decoded to a category.
    pub fn from_raw_os_error(code: i32) -> (error: Error)
        ensures
            error == os_error(code),
    {
        Error::Os { code, decoded: None }
    }

    /// An error that is only a category.
    pub fn from_kind(kind: ErrorKind) -> (error: Error)
        ensures
            error == kind_error(kind),
    {
        Error::Simple { kind }
    }

    /// An error with a category and an explanation.
    pub fn new(kind: ErrorKind, message: &'static str) -> (error: Error)
        ensures
            error == (Error::Custom { kind, message }),
    {
        Error::Custom { kind, message }
    }

    /// The error number of the operating system, where there is one.
    pub fn raw_os_error(&self) -> (code: Option<i32>)
        ensures
            code == self.code_of(),
    {
        match *self {
            Error::Os { code, .. } => Some(code),
            _ => None,
        }
    }

    /// The category, where the error has one.
    pub fn kind(&self) -> (kind: Option<ErrorKind>)
        ensures
            kind == self.kind_of(),
    {
        match *self {
            Error::Os { code, decoded } => match decoded {
                Some(kind) => Some(kind),
                None => decode(code),
            },
            Error::Simple { kind } => Some(kind),
            Error::Custom { kind, .. } => Some(kind),
            Error::UnsupportedOpcode { .. } => Some(ErrorKind::Unsupported),
        }
    }

    /// A copy for one of several operations that fail together. It keeps the
    /// number, or else the category.
    pub fn share(&self) -> (error: Error)
        ensures
            error == self.shared(),
    {
        match *self {
            Error::Os { code, decoded } => Error::Os { code, decoded },
            Error::Simple { kind } => Error::Simple { kind },
            Error::Custom { kind, .. } => Error::Simple { kind },
            Error::UnsupportedOpcode { .. } => Error::Simple { kind: ErrorKind::Unsupported },
        }
    }
}

/// Only numbers of the operating system that stand for a category have one, and
/// those by which the drivers decide have theirs.
pub proof fn law_numbers_tell_their_category(code: i32)
    ensures
        code <= 0 || code > os::EDQUOT ==> kind_of_number(code) is None,
        kind_of_number(code) == Some(ErrorKind::Interrupted) <==> code == os::EINTR,
        kind_of_number(code) == Some(ErrorKind::TimedOut) <==> code == os::ETIMEDOUT,
        kind_of_number(code) == Some(ErrorKind::AlreadyExists) <==> code == os::EEXIST,
        kind_of_number(code) == Some(ErrorKind::WouldBlock) <==> code == os::EAGAIN,
        kind_of_number(code) == Some(ErrorKind::ResourceBusy) <==> code == os::EBUSY,
        kind_of_number(code) == Some(ErrorKind::ConnectionReset) <==> code == os::ECONNRESET,
        kind_of_number(code) == Some(ErrorKind::BrokenPipe) <==> code == os::EPIPE,
{
}

/// An error keeps what it was made with: a number and, with it, the category that
/// came along or else the number's own, or a category alone.
pub proof fn law_errors_keep_what_they_were_made_with(
    code: i32,
    decoded: Option<ErrorKind>,
    kind: ErrorKind,
    message: &'static str,
    opcode: u8,
)
    ensures
        os_error(code) matches Error::Os { code: c, decoded: d } && c == code && d is None,
        kind_error(kind) matches Error::Simple { kind: k } && k == kind,
        (Error::Os { code, decoded }).code_of() == Some(code),
        decoded is Some ==> (Error::Os { code, decoded }).kind_of() == decoded,
        decoded is None ==> (Error::Os { code, decoded }).kind_of() == kind_of_number(code),
        (Error::Simple { kind }).code_of() is None,
        (Error::Simple { kind }).kind_of() == Some(kind),
        (Error::Custom { kind, message }).code_of() is None,
        (Error::Custom { kind, message }).kind_of() == Some(kind),
        (Error::UnsupportedOpcode { opcode }).code_of() is None,
        (Error::UnsupportedOpcode { opcode }).kind_of() == Some(ErrorKind::Unsupported),
{
}

/// A shared error answers as the error does that it was made from, and holds
/// nothing but the number or the category.
pub proof fn law_shared_error_answers_alike(error: Error)
    ensures
        error.shared().code_of() == error.code_of(),
        error.shared().kind_of() == error.kind_of(),
        error.shared() is Os || error.shared() is Simple,
        error is Os || error is Simple ==> error.shared() == error,
{
}

} // verus!

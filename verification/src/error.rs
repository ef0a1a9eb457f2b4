//! The two families of errors: what the driver and remote services report,
//! and what can go wrong in this library around them.

use vstd::prelude::*;

verus! {

/// The status that stands for "unknown error"; the statuses that are not
/// negated `errno` numbers are counted up from it.
pub const UNKNOWN_ERROR: i32 = -2147483648i32;

pub const ENOMEM: i32 = 12i32;
pub const ENOSYS: i32 = 38i32;
pub const EINVAL: i32 = 22i32;
pub const ENOENT: i32 = 2i32;
pub const EPERM: i32 = 1i32;
pub const ENODEV: i32 = 19i32;
pub const EEXIST: i32 = 17i32;
pub const EPIPE: i32 = 32i32;
pub const EOVERFLOW: i32 = 75i32;
pub const ENODATA: i32 = 61i32;
pub const EWOULDBLOCK: i32 = 11i32;
pub const ETIMEDOUT: i32 = 110i32;
pub const EBADMSG: i32 = 74i32;
pub const EINTR: i32 = 4i32;

/// What a transaction, or the codec, can fail with.
#[derive(Debug, Clone, Copy, PartialEq, Eq, Structural)]
pub enum BinderErrorKind {
    NoMemory,
    InvalidOperation,
    BadValue,
    BadType,
    NameNotFound,
    PermissionDenied,
    NoInit,
    AlreadyExists,
    DeadObject,
    FailedTransaction,
    BadIndex,
    NotEnoughData,
    WouldBlock,
    TimedOut,
    UnknownTransaction,
    FdsNotAllowed,
    UnexpectedNull,
    UnknownError(i32),
}

pub type BinderResult<T> = Result<T, BinderErrorKind>;

/// What opening a connection, or using one, can fail with.
#[derive(Debug, Clone, Copy, PartialEq, Eq, Structural)]
pub enum Error {
    /// The driver speaks another version of the protocol than this library.
    WrongProtocolVersion,
    /// Opening the device failed with this `errno`.
    Io(i32),
    /// Mapping the receive arena, or an ioctl, failed with this `errno`.
    Nix(i32),
    /// The driver or the peer reported an error.
    Binder(BinderErrorKind),
}

/// The kind that a negative status stands for: the negated `errno` numbers
/// and the statuses counted from `UNKNOWN_ERROR` each have their kind, and
/// every other negative status is kept as it is.
pub open spec fn status_kind(status: i32) -> BinderErrorKind {
    if status == -ENOMEM {
        BinderErrorKind::NoMemory
    } else if status == -ENOSYS {
        BinderErrorKind::InvalidOperation
    } else if status == -EINVAL {
        BinderErrorKind::BadValue
    } else if status == UNKNOWN_ERROR + 1 {
        BinderErrorKind::BadType
    } else if status == -ENOENT {
        BinderErrorKind::NameNotFound
    } else if status == -EPERM {
        BinderErrorKind::PermissionDenied
    } else if status == -ENODEV {
        BinderErrorKind::NoInit
    } else if status == -EEXIST {
        BinderErrorKind::AlreadyExists
    } else if status == -EPIPE {
        BinderErrorKind::DeadObject
    } else if status == UNKNOWN_ERROR + 2 {
        BinderErrorKind::FailedTransaction
    } else if status == -EOVERFLOW {
        BinderErrorKind::BadIndex
    } else if status == -ENODATA {
        BinderErrorKind::NotEnoughData
    } else if status == -EWOULDBLOCK {
        BinderErrorKind::WouldBlock
    } else if status == -ETIMEDOUT {
        BinderErrorKind::TimedOut
    } else if status == -EBADMSG {
        BinderErrorKind::UnknownTransaction
    } else if status == UNKNOWN_ERROR + 7 {
        BinderErrorKind::FdsNotAllowed
    } else if status == UNKNOWN_ERROR + 8 {
        BinderErrorKind::UnexpectedNull
    } else {
        BinderErrorKind::UnknownError(status)
    }
}

/// The error as which a status word found on the wire is surfaced: its kind
/// where it is negative, and `UnknownError` with the word where a peer sent a
/// number that is no status.
pub open spec fn wire_kind(status: i32) -> BinderErrorKind {
    if status < 0 {
        status_kind(status)
    } else {
        BinderErrorKind::UnknownError(status)
    }
}

impl BinderErrorKind {
    /// The kind of a status that the driver or a peer sent. A status is
    /// negative; a caller that holds any other number has no error in hand.
    pub fn from_status(status: i32) -> (kind: BinderErrorKind)
        requires
            status < 0,
        ensures
            kind == status_kind(status),
    {
        if status == -ENOMEM {
            BinderErrorKind::NoMemory
        } else if status == -ENOSYS {
            BinderErrorKind::InvalidOperation
        } else if status == -EINVAL {
            BinderErrorKind::BadValue
        } else if status == UNKNOWN_ERROR + 1 {
            BinderErrorKind::BadType
        } else if status == -ENOENT {
            BinderErrorKind::NameNotFound
        } else if status == -EPERM {
            BinderErrorKind::PermissionDenied
        } else if status == -ENODEV {
            BinderErrorKind::NoInit
        } else if status == -EEXIST {
            BinderErrorKind::AlreadyExists
        } else if status == -EPIPE {
            BinderErrorKind::DeadObject
        } else if status == UNKNOWN_ERROR + 2 {
            BinderErrorKind::FailedTransaction
        } else if status == -EOVERFLOW {
            BinderErrorKind::BadIndex
        } else if status == -ENODATA {
            BinderErrorKind::NotEnoughData
        } else if status == -EWOULDBLOCK {
            BinderErrorKind::WouldBlock
        } else if status == -ETIMEDOUT {
            BinderErrorKind::TimedOut
        } else if status == -EBADMSG {
            BinderErrorKind::UnknownTransaction
        } else if status == UNKNOWN_ERROR + 7 {
            BinderErrorKind::FdsNotAllowed
        } else if status == UNKNOWN_ERROR + 8 {
            BinderErrorKind::UnexpectedNull
        } else {
            BinderErrorKind::UnknownError(status)
        }
    }

    /// The error as which a status word found on the wire is surfaced.
    pub fn from_wire(status: i32) -> (kind: BinderErrorKind)
        ensures
            kind == wire_kind(status),
    {
        if status < 0 {
            BinderErrorKind::from_status(status)
        } else {
            BinderErrorKind::UnknownError(status)
        }
    }
}

impl Error {
    /// The library error that wraps a transport error.
    pub fn from_binder(kind: BinderErrorKind) -> (e: Error)
        ensures
            e == Error::Binder(kind),
    {
        Error::Binder(kind)
    }
}

} // verus!

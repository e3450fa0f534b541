//! Error numbers shared by every kernel subsystem.

use vstd::prelude::*;

verus! {

/// A kernel error number.
#[derive(Clone, Copy, Debug, PartialEq, Eq, Structural)]
pub enum Errno {
    /// Operation not permitted.
    EPERM,
    /// No such file or directory.
    ENOENT,
    /// A blocking call was interrupted.
    EINTR,
    /// Input/output failure.
    EIO,
    /// No child processes.
    ECHILD,
    /// Out of memory.
    ENOMEM,
    /// Device or resource busy.
    EBUSY,
    /// No such device.
    ENODEV,
    /// Not a directory.
    ENOTDIR,
    /// Is a directory.
    EISDIR,
    /// Invalid argument.
    EINVAL,
    /// Operation not supported.
    ENOTSUP,
}

/// The result of a kernel operation that can fail with an error number.
pub type KResult<T> = Result<T, Errno>;

} // verus!

//! Error values carried through the stack: an errno paired with a static
//! message, mirroring the POSIX error model.

use vstd::prelude::*;

verus! {

pub const EIO: i32 = 5;
pub const EBADF: i32 = 9;
pub const EAGAIN: i32 = 11;
pub const EWOULDBLOCK: i32 = 11;
pub const ENOMEM: i32 = 12;
pub const ENODEV: i32 = 19;
pub const EINVAL: i32 = 22;
pub const ENOTSUP: i32 = 95;
pub const EOPNOTSUPP: i32 = 95;
pub const ECONNABORTED: i32 = 103;
pub const ECONNRESET: i32 = 104;
pub const ENOBUFS: i32 = 105;
pub const ETIMEDOUT: i32 = 110;
pub const ECONNREFUSED: i32 = 111;
pub const EHOSTUNREACH: i32 = 113;
pub const EALREADY: i32 = 114;
pub const EINPROGRESS: i32 = 115;

/// An error: an errno code plus a human-readable cause.
#[derive(Clone, Copy, Debug)]
pub struct Fail {
    pub errno: i32,
    pub cause: &'static str,
}

impl Fail {
    /// Builds an error value from an errno code and a cause message.
    pub fn new(errno: i32, cause: &'static str) -> (r: Self)
        ensures
            r.errno == errno,
            r.cause == cause,
    {
        Fail { errno, cause }
    }
}

/// Whether an operation that failed with `errno` should be retried: holds
/// exactly for the in-progress / would-block family of errors.
pub fn should_retry(errno: i32) -> (r: bool)
    ensures
        r == (errno == EINPROGRESS || errno == EWOULDBLOCK || errno == EAGAIN || errno
            == EALREADY),
{
    if errno == EINPROGRESS || errno == EWOULDBLOCK || errno == EAGAIN || errno == EALREADY {
        return true;
    }
    false
}

} // verus!

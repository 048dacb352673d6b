//! The error numbers of the operating system that requests are answered with.
use vstd::prelude::*;

verus! {

/// The number that Linux gives `EINVAL`, invalid argument.
pub const INVALID_ARGUMENT: i32 = 22;

/// The number that Linux gives `EIO`, input/output error.
pub const IO_ERROR: i32 = 5;

/// The number that Linux gives `EPIPE`, broken pipe.
pub const BROKEN_PIPE: i32 = 32;

/// `libc::EINVAL`. It is 22 on every Linux target of the `libc` crate.
#[verifier::external_body]
pub(crate) fn einval() -> (r: i32)
    ensures
        r == INVALID_ARGUMENT,
{
    libc::EINVAL
}

/// `libc::EIO`. It is 5 on every Linux target of the `libc` crate.
#[verifier::external_body]
pub(crate) fn eio() -> (r: i32)
    ensures
        r == IO_ERROR,
{
    libc::EIO
}

/// `libc::EPIPE`. It is 32 on every Linux target of the `libc` crate.
#[verifier::external_body]
pub(crate) fn epipe() -> (r: i32)
    ensures
        r == BROKEN_PIPE,
{
    libc::EPIPE
}

/// Whether a number is one that Linux gives `ENOTCONN`, not connected: 107, but 134 on MIPS and 57
/// on SPARC.
pub open spec fn is_not_connected(number: i32) -> bool {
    number == 107 || number == 134 || number == 57
}

/// `libc::ENOTCONN`. The `libc` crate gives it the value 134 on the MIPS targets of Linux, 57 on
/// the SPARC targets and 107 on all others; which target this is stays unsaid.
#[verifier::external_body]
pub(crate) fn enotconn() -> (r: i32)
    ensures
        is_not_connected(r),
{
    libc::ENOTCONN
}

} // verus!

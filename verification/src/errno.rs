//! Error numbers of the C library that travel in replies.

use vstd::prelude::*;

verus! {

/// The constant `libc::EINVAL` is 22 on Linux.
#[verifier::external_body]
pub(crate) fn einval() -> (r: u16)
    ensures
        r == 22,
{
    libc::EINVAL as u16
}

/// The constant `libc::EIO` is 5 on Linux.
#[verifier::external_body]
pub(crate) fn eio() -> (r: u16)
    ensures
        r == 5,
{
    libc::EIO as u16
}

} // verus!

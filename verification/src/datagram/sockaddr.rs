//! The size of a socket address.
use vstd::prelude::*;

verus! {

/// The size in bytes of the C structure that can hold any socket address.
pub const SOCKADDR_STORAGE_SIZE: usize = 128;

/// Calls `std::mem::size_of` for `libc::sockaddr_storage`, which on Linux is padded to 128
/// bytes.
#[verifier::external_body]
pub(crate) fn sockaddr_storage_size() -> (size: usize)
    ensures
        size == SOCKADDR_STORAGE_SIZE,
{
    std::mem::size_of::<libc::sockaddr_storage>()
}

} // verus!

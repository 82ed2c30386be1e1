//! Error numbers.
use vstd::prelude::*;

verus! {

/// Try again.
pub const EAGAIN: u32 = 11;

/// The operation would block; the same number as `EAGAIN`.
pub const EWOULDBLOCK: u32 = 11;

/// Invalid argument.
pub const EINVAL: u32 = 22;

/// An error number of the host's C interface.
#[derive(Debug, Clone, Copy, PartialEq, Eq, Structural)]
pub struct Errno {
    pub code: u32,
}

impl From<u32> for Errno {
    fn from(code: u32) -> (errno: Self) {
        Errno { code }
    }
}

impl vstd::std_specs::convert::FromSpecImpl<u32> for Errno {
    open spec fn obeys_from_spec() -> bool {
        true
    }

    open spec fn from_spec(code: u32) -> Self {
        Errno { code }
    }
}

/// An error that is made of a number has this number, so no two numbers make the same error.
pub proof fn lemma_errno_keeps_its_code(code: u32)
    ensures
        <Errno as vstd::std_specs::convert::FromSpec<u32>>::from_spec(code).code == code,
{
}

/// On Linux these are the numbers by which the host reports errors.
pub proof fn lemma_errno_numbers()
    ensures
        EAGAIN == 11,
        EWOULDBLOCK == EAGAIN,
        EINVAL == 22,
{
}

} // verus!

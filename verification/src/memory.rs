//! Addresses of buffers.

use vstd::prelude::*;

verus! {

/// Address of the first byte of a buffer, as `Vec::as_ptr` gives it. A vector's pointer is
/// never null; which address it is depends on the run, and nothing is said of that.
#[verifier::external_body]
pub(crate) fn buffer_address(bytes: &Vec<u8>) -> (r: u64)
    ensures
        r != 0,
{
    bytes.as_ptr() as u64
}

} // verus!

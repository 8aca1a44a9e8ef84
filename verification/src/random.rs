//! Random bytes from the operating system.

use vstd::prelude::*;

verus! {

/// `getrandom::getrandom`: a buffer of `n` bytes that the operating system filled, or nothing where
/// it had none to give. Nothing is claimed of the bytes.
#[verifier::external_body]
pub(crate) fn random_bytes(n: usize) -> (r: Option<Vec<u8>>)
    ensures
        r matches Some(v) ==> v@.len() == n,
{
    let mut v = vec![0u8; n];
    getrandom::getrandom(&mut v).ok().map(|_| v)
}

} // verus!

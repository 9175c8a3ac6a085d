//! Access to the operating system's random number generator.

use rand::rngs::OsRng;
use rand::RngCore;
use vstd::prelude::*;

verus! {

/// Asks the operating system for `n` random bytes.
///
/// Calls `rand::rngs::OsRng::try_fill_bytes` on a fresh buffer of `n` zero
/// bytes. Trusted: a buffer that comes back has the length asked for. Nothing
/// is claimed about its contents, and `None` stands for a generator that
/// reported an error.
#[verifier::external_body]
pub(crate) fn os_random_bytes(n: usize) -> (out: Option<Vec<u8>>)
    ensures
        out matches Some(buf) ==> buf@.len() == n,
{
    let mut buf = vec![0u8; n];
    match OsRng.try_fill_bytes(&mut buf) {
        Ok(()) => Some(buf),
        Err(_) => None,
    }
}

} // verus!

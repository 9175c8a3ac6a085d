//! Turning a master password into a key.
//!
//! The key is the bcrypt digest of the password under a salt that belongs to
//! one database. bcrypt is slow on purpose, and each step up in cost doubles
//! the work, so that trying passwords against a stolen file stays expensive.
//! The same password, salt and cost always give the same key: whether a
//! password is the right one shows only in whether its key opens the file.
//!
//! bcrypt reads at most 72 bytes of a password, and reads a shorter one round
//! and round until it has as many. So passwords that agree in their first 72
//! bytes have one key, and so have a password and its repetition.

use crate::bytes::prefix;
use crypto::bcrypt::bcrypt;
use vstd::prelude::*;
use vstd::slice::slice_subrange;

verus! {

/// Size of a salt in bytes.
pub const SALT_SIZE: usize = 16;

/// Size of a derived key in bytes.
pub const PASS_SIZE: usize = 24;

/// How many bytes of a password bcrypt reads. What follows them is ignored.
pub const MAX_PASSWORD_BYTES: usize = 72;

/// Costs from here on are refused by bcrypt.
pub const COST_LIMIT: u32 = 32;

/// The 24-byte bcrypt digest of `password` under `salt` at `cost`.
pub uninterp spec fn bcrypt_digest(cost: u32, salt: Seq<u8>, password: Seq<u8>) -> Seq<u8>;

/// Computes a bcrypt digest.
///
/// Calls `crypto::bcrypt::bcrypt` with an output buffer of 24 bytes. Trusted:
/// what it writes there is a function of cost, salt and password alone. The
/// call asserts a cost below 32, a salt of 16 bytes and a password of 1 to 72
/// bytes, which is what `requires` and the salt's type demand.
#[verifier::external_body]
fn bcrypt_raw(cost: u32, salt: &[u8; 16], password: &[u8]) -> (out: [u8; 24])
    requires
        cost < COST_LIMIT,
        0 < password@.len() <= MAX_PASSWORD_BYTES,
    ensures
        out@ == bcrypt_digest(cost, salt@, password@),
{
    let mut out = [0u8; 24];
    bcrypt(cost, salt, password, &mut out);
    out
}

/// The key that belongs to `password`, `salt` and `cost`.
pub open spec fn spec_derive_key(password: Seq<u8>, salt: Seq<u8>, cost: u32) -> Seq<u8> {
    bcrypt_digest(cost, salt, prefix(password, MAX_PASSWORD_BYTES as nat))
}

/// Derives the key for a password.
///
/// Only the first 72 bytes of a longer password count. An empty password has
/// no key: callers turn it away before they get here.
pub fn derive_key(password: &[u8], salt: &[u8; 16], cost: u32) -> (key: [u8; 24])
    requires
        password@.len() > 0,
        cost < COST_LIMIT,
    ensures
        key@ == spec_derive_key(password@, salt@, cost),
{
    if password.len() > MAX_PASSWORD_BYTES {
        let head = slice_subrange(password, 0, MAX_PASSWORD_BYTES);
        assert(head@ =~= prefix(password@, MAX_PASSWORD_BYTES as nat));
        bcrypt_raw(cost, salt, head)
    } else {
        bcrypt_raw(cost, salt, password)
    }
}

/// Two passwords that agree in their first 72 bytes have the same key.
pub proof fn lemma_long_passwords_share_a_key(a: Seq<u8>, b: Seq<u8>, salt: Seq<u8>, cost: u32)
    requires
        a.len() >= MAX_PASSWORD_BYTES,
        b.len() >= MAX_PASSWORD_BYTES,
        a.take(MAX_PASSWORD_BYTES as int) == b.take(MAX_PASSWORD_BYTES as int),
    ensures
        spec_derive_key(a, salt, cost) == spec_derive_key(b, salt, cost),
{
    assert(prefix(a, MAX_PASSWORD_BYTES as nat) =~= a.take(MAX_PASSWORD_BYTES as int));
    assert(prefix(b, MAX_PASSWORD_BYTES as nat) =~= b.take(MAX_PASSWORD_BYTES as int));
}

} // verus!

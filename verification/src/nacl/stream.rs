//! Encryption without authentication: the XSalsa20 stream cipher.
//!
//! A stream cipher turns a key and a nonce into a keystream and combines it
//! with the input byte by byte, so the same call encrypts and decrypts.

use crypto::salsa20::Salsa20;
use crypto::symmetriccipher::SynchronousStreamCipher;
use vstd::prelude::*;

verus! {

/// Size of a stream-cipher key in bytes.
pub const KEY_BYTES: usize = 32;

/// Size of a stream-cipher nonce in bytes.
pub const NONCE_BYTES: usize = 24;

/// Byte `i` of the keystream that the XSalsa20 cipher of the `crypto` crate
/// generates from `key` and `nonce`.
pub uninterp spec fn xsalsa20_keystream(key: Seq<u8>, nonce: Seq<u8>, i: int) -> u8;

/// `input` combined with the keystream of `key` and `nonce`.
pub open spec fn xor_with_keystream(input: Seq<u8>, nonce: Seq<u8>, key: Seq<u8>) -> Seq<u8> {
    Seq::new(input.len(), |i: int| input[i] ^ xsalsa20_keystream(key, nonce, i))
}

/// Runs XSalsa20 over `input`.
///
/// Calls `crypto::salsa20::Salsa20::new_xsalsa20` and then `process` of
/// `SynchronousStreamCipher` on a fresh cipher. Trusted: the output is as long
/// as the input, and byte `i` of it is byte `i` of the input xor-ed with byte
/// `i` of a keystream that depends on the key, the nonce and the position
/// only. `new_xsalsa20` asserts the two lengths that `requires` demands.
#[verifier::external_body]
fn xsalsa20_process(input: &[u8], nonce: &[u8], key: &[u8]) -> (output: Vec<u8>)
    requires
        nonce@.len() == NONCE_BYTES,
        key@.len() == KEY_BYTES,
    ensures
        output@.len() == input@.len(),
        forall|i: int|
            0 <= i < input@.len() ==> #[trigger] output@[i] == input@[i] ^ xsalsa20_keystream(
                key@,
                nonce@,
                i,
            ),
{
    let mut output = vec![0u8; input.len()];
    Salsa20::new_xsalsa20(key, nonce).process(input, &mut output);
    output
}

/// Encrypts or decrypts `input` under `key` and `nonce`.
pub fn stream_encrypt_xor(input: &[u8], nonce: &[u8], key: &[u8]) -> (output: Vec<u8>)
    requires
        nonce@.len() == NONCE_BYTES,
        key@.len() == KEY_BYTES,
    ensures
        output@ == xor_with_keystream(input@, nonce@, key@),
{
    let output = xsalsa20_process(input, nonce, key);
    assert(output@ =~= xor_with_keystream(input@, nonce@, key@));
    output
}

/// Applying the cipher twice under one key and nonce gives the input back.
pub proof fn lemma_xor_twice(input: Seq<u8>, nonce: Seq<u8>, key: Seq<u8>)
    ensures
        xor_with_keystream(xor_with_keystream(input, nonce, key), nonce, key) == input,
{
    let once = xor_with_keystream(input, nonce, key);
    let twice = xor_with_keystream(once, nonce, key);
    assert forall|i: int| 0 <= i < input.len() implies twice[i] == input[i] by {
        let x: u8 = input[i];
        let k: u8 = xsalsa20_keystream(key, nonce, i);
        assert((x ^ k) ^ k == x) by (bit_vector);
    }
    assert(twice =~= input);
}

} // verus!

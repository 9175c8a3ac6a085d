//! Authenticated encryption with a shared secret key.
//!
//! A message is encrypted with XSalsa20 and protected by a one-time
//! authenticator, so a box that was changed on the way is refused when it is
//! opened. Every box gets a nonce of its own from the operating system.
//!
//! A cipher text starts with 16 zero bytes, then holds the 16-byte
//! authenticator and the encrypted message: it is 32 bytes longer than the
//! message. That is the layout the NaCl interface has always had.

use crate::bytes::{zero_padded, zeros};
use crate::random::os_random_bytes;
use crypto_secretbox::aead::{Aead, KeyInit};
use crypto_secretbox::{Key, Nonce, XSalsa20Poly1305};
use vstd::prelude::*;
use vstd::slice::slice_subrange;
use vstd::utf8::encode_utf8;

verus! {

/// Size of the shared secret key, in bytes.
pub const KEY_BYTES: usize = 32;

/// Size of a nonce, in bytes.
pub const NONCE_BYTES: usize = 24;

/// By how many bytes a cipher text is longer than its message.
pub const ZERO_BYTES: usize = 32;

/// How many zero bytes a cipher text starts with.
pub const BOX_ZERO_BYTES: usize = 16;

/// Why a box was not made or not opened.
#[derive(Debug, Clone, Copy, PartialEq, Eq)]
pub enum SecretBoxError {
    /// The box does not belong to this key and nonce, or it was changed.
    VerificationFail,
    /// The operating system gave no random bytes for a nonce.
    RandomSourceFail,
}

/// The authenticator and encrypted message that XSalsa20-Poly1305 makes of
/// `msg` under `key` and `nonce`.
pub uninterp spec fn secretbox_sealed(key: Seq<u8>, nonce: Seq<u8>, msg: Seq<u8>) -> Seq<u8>;

/// The message that XSalsa20-Poly1305 finds in `sealed` under `key` and
/// `nonce`, or `None` where the authenticator does not fit.
pub uninterp spec fn secretbox_opened(key: Seq<u8>, nonce: Seq<u8>, sealed: Seq<u8>) -> Option<
    Seq<u8>,
>;

/// Seals `msg`.
///
/// Calls `encrypt` of `crypto_secretbox::XSalsa20Poly1305` (the `Aead` trait)
/// with no associated data. Trusted: the call succeeds; what it returns is a
/// function of key, nonce and message alone; it is 16 bytes longer than the
/// message, the authenticator coming first; and opening it under the same key
/// and nonce gives the message back.
#[verifier::external_body]
fn xsalsa20poly1305_seal(key: &[u8; 32], nonce: &[u8; 24], msg: &[u8]) -> (out: Option<Vec<u8>>)
    requires
        msg@.len() + 16 <= usize::MAX,
    ensures
        out is Some,
        out->0@ == secretbox_sealed(key@, nonce@, msg@),
        out->0@.len() == msg@.len() + 16,
        secretbox_opened(key@, nonce@, out->0@) == Some(msg@),
{
    XSalsa20Poly1305::new(Key::from_slice(key)).encrypt(Nonce::from_slice(nonce), msg).ok()
}

/// Opens `sealed`.
///
/// Calls `decrypt` of `crypto_secretbox::XSalsa20Poly1305` (the `Aead` trait)
/// with no associated data. Trusted: whether it succeeds and what it returns
/// is a function of key, nonce and input alone; an input of fewer than 16
/// bytes is refused; a message that comes out is 16 bytes shorter than the
/// input.
#[verifier::external_body]
fn xsalsa20poly1305_open(key: &[u8; 32], nonce: &[u8; 24], sealed: &[u8]) -> (out: Option<Vec<u8>>)
    ensures
        out is Some <==> secretbox_opened(key@, nonce@, sealed@) is Some,
        out is Some ==> secretbox_opened(key@, nonce@, sealed@) == Some(out->0@),
        out is Some ==> out->0@.len() + 16 == sealed@.len(),
        sealed@.len() < 16 ==> out is None,
{
    XSalsa20Poly1305::new(Key::from_slice(key)).decrypt(Nonce::from_slice(nonce), sealed).ok()
}

/// The cipher text of `msg` under `key` and `nonce`.
pub open spec fn spec_cipher(key: Seq<u8>, nonce: Seq<u8>, msg: Seq<u8>) -> Seq<u8> {
    zeros(BOX_ZERO_BYTES as nat) + secretbox_sealed(key, nonce, msg)
}

/// What opening `cipher` under `key` and `nonce` gives.
///
/// A cipher text is refused when it is shorter than 32 bytes, when its first
/// 16 bytes are not all zero, or when the authenticator does not fit.
pub open spec fn spec_decrypt(key: Seq<u8>, nonce: Seq<u8>, cipher: Seq<u8>) -> Result<
    Seq<u8>,
    SecretBoxError,
> {
    if cipher.len() < ZERO_BYTES || cipher.take(BOX_ZERO_BYTES as int) != zeros(
        BOX_ZERO_BYTES as nat,
    ) {
        Err(SecretBoxError::VerificationFail)
    } else {
        match secretbox_opened(key, nonce, cipher.skip(BOX_ZERO_BYTES as int)) {
            Some(msg) => Ok(msg),
            None => Err(SecretBoxError::VerificationFail),
        }
    }
}

/// A nonce together with the cipher text that was made with it.
pub struct SecretMsg {
    /// Nonce value used for this cipher text.
    pub nonce: [u8; 24],
    /// The cipher text.
    pub cipher: Vec<u8>,
}

/// The bytes that stand for a nonce and a cipher text: one after the other.
pub open spec fn spec_msg_bytes(nonce: Seq<u8>, cipher: Seq<u8>) -> Seq<u8> {
    nonce + cipher
}

impl SecretMsg {
    /// Reads a nonce and a cipher text from `bytes`.
    ///
    /// Fewer bytes than a nonce and the padding of a cipher text take cannot
    /// be a message: they give `None`.
    pub fn from_bytes(bytes: &[u8]) -> (res: Option<SecretMsg>)
        ensures
            bytes@.len() < NONCE_BYTES + ZERO_BYTES <==> res is None,
            res matches Some(msg) ==> msg.nonce@ == bytes@.take(NONCE_BYTES as int) && msg.cipher@
                == bytes@.skip(NONCE_BYTES as int),
    {
        if bytes.len() < NONCE_BYTES + ZERO_BYTES {
            return None;
        }
        let nonce: [u8; 24] = nonce_from_slice(slice_subrange(bytes, 0, NONCE_BYTES));
        let mut cipher: Vec<u8> = Vec::new();
        cipher.extend_from_slice(slice_subrange(bytes, NONCE_BYTES, bytes.len()));
        proof {
            assert(nonce@ =~= bytes@.take(NONCE_BYTES as int));
            assert(cipher@ =~= bytes@.skip(NONCE_BYTES as int));
        }
        Some(SecretMsg { nonce, cipher })
    }

    /// The nonce followed by the cipher text.
    pub fn as_bytes(&self) -> (buf: Vec<u8>)
        ensures
            buf@ == spec_msg_bytes(self.nonce@, self.cipher@),
    {
        let mut buf: Vec<u8> = Vec::new();
        buf.extend_from_slice(self.nonce.as_slice());
        buf.extend_from_slice(self.cipher.as_slice());
        buf
    }
}

/// Copies 24 bytes into a nonce.
pub(crate) fn nonce_from_slice(bytes: &[u8]) -> (nonce: [u8; 24])
    requires
        bytes@.len() == NONCE_BYTES,
    ensures
        nonce@ == bytes@,
{
    let mut nonce: [u8; 24] = [0u8; 24];
    let mut i: usize = 0;
    while i < NONCE_BYTES
        invariant
            bytes@.len() == NONCE_BYTES,
            i <= NONCE_BYTES,
            forall|j: int| 0 <= j < i ==> nonce@[j] == bytes@[j],
        decreases NONCE_BYTES - i,
    {
        nonce[i] = bytes[i];
        i += 1;
    }
    assert(nonce@ =~= bytes@);
    nonce
}

/// Reading back what `as_bytes` wrote gives the same nonce and cipher text,
/// for every cipher text of at least 32 bytes.
pub proof fn lemma_msg_bytes_split(nonce: Seq<u8>, cipher: Seq<u8>)
    requires
        nonce.len() == NONCE_BYTES,
    ensures
        spec_msg_bytes(nonce, cipher).take(NONCE_BYTES as int) == nonce,
        spec_msg_bytes(nonce, cipher).skip(NONCE_BYTES as int) == cipher,
        spec_msg_bytes(nonce, cipher).len() == NONCE_BYTES + cipher.len(),
{
    assert(spec_msg_bytes(nonce, cipher).take(NONCE_BYTES as int) =~= nonce);
    assert(spec_msg_bytes(nonce, cipher).skip(NONCE_BYTES as int) =~= cipher);
}

/// Shared secret key: 32 bytes.
///
/// This struct wraps access to encrypting and decrypting messages.
#[derive(Copy, Clone)]
pub struct SecretKey(pub [u8; 32]);

impl View for SecretKey {
    type V = Seq<u8>;

    open spec fn view(&self) -> Seq<u8> {
        self.0@
    }
}

impl SecretKey {
    /// Makes a key of the bytes of a string of at most 32 bytes, followed by
    /// zero bytes.
    pub fn from_str(str: &str) -> (key: SecretKey)
        requires
            encode_utf8(str@).len() <= KEY_BYTES,
        ensures
            key@ == zero_padded(encode_utf8(str@), KEY_BYTES as nat),
    {
        SecretKey::from_slice(str.as_bytes())
    }

    /// Makes a key of at most 32 bytes, followed by zero bytes.
    pub fn from_slice(slice: &[u8]) -> (key: SecretKey)
        requires
            slice@.len() <= KEY_BYTES,
        ensures
            key@ == zero_padded(slice@, KEY_BYTES as nat),
    {
        let mut sized: [u8; 32] = [0u8; 32];
        let n: usize = slice.len();
        let mut i: usize = 0;
        while i < n
            invariant
                n == slice@.len(),
                n <= KEY_BYTES,
                i <= n,
                forall|j: int| 0 <= j < i ==> sized@[j] == slice@[j],
                forall|j: int| i <= j < KEY_BYTES ==> sized@[j] == 0,
            decreases n - i,
        {
            sized[i] = slice[i];
            i += 1;
        }
        assert(sized@ =~= zero_padded(slice@, KEY_BYTES as nat));
        SecretKey(sized)
    }

    /// Encrypts `msg` under this key and the given nonce.
    ///
    /// A nonce must never be used twice with one key: `encrypt` draws a fresh
    /// one for every call and is the function to use.
    pub fn encrypt_with_nonce(&self, nonce: [u8; 24], msg: &[u8]) -> (out: SecretMsg)
        requires
            msg@.len() + ZERO_BYTES <= usize::MAX,
        ensures
            out.nonce@ == nonce@,
            out.cipher@ == spec_cipher(self@, nonce@, msg@),
            out.cipher@.len() == msg@.len() + ZERO_BYTES,
            spec_decrypt(self@, nonce@, out.cipher@) == Ok::<Seq<u8>, SecretBoxError>(msg@),
    {
        let sealed: Vec<u8> = xsalsa20poly1305_seal(&self.0, &nonce, msg).unwrap();
        let mut cipher: Vec<u8> = Vec::new();
        let mut i: usize = 0;
        while i < BOX_ZERO_BYTES
            invariant
                i <= BOX_ZERO_BYTES,
                cipher@ == zeros(i as nat),
            decreases BOX_ZERO_BYTES - i,
        {
            cipher.push(0u8);
            assert(cipher@ =~= zeros((i + 1) as nat));
            i += 1;
        }
        cipher.extend_from_slice(sealed.as_slice());
        proof {
            assert(cipher@.take(BOX_ZERO_BYTES as int) =~= zeros(BOX_ZERO_BYTES as nat));
            assert(cipher@.skip(BOX_ZERO_BYTES as int) =~= sealed@);
        }
        SecretMsg { nonce, cipher }
    }

    /// Encrypts `msg` under this key.
    ///
    /// The nonce is drawn from the operating system's random source, anew for
    /// every call, and returned with the cipher text.
    pub fn encrypt(&self, msg: &[u8]) -> (res: Result<SecretMsg, SecretBoxError>)
        requires
            msg@.len() + ZERO_BYTES <= usize::MAX,
        ensures
            match res {
                Ok(out) => {
                    &&& out.cipher@ == spec_cipher(self@, out.nonce@, msg@)
                    &&& out.cipher@.len() == msg@.len() + ZERO_BYTES
                    &&& out.nonce@.len() == NONCE_BYTES
                    &&& spec_decrypt(self@, out.nonce@, out.cipher@) == Ok::<
                        Seq<u8>,
                        SecretBoxError,
                    >(msg@)
                },
                Err(e) => e == SecretBoxError::RandomSourceFail,
            },
    {
        match os_random_bytes(NONCE_BYTES) {
            Some(random) => {
                let nonce: [u8; 24] = nonce_from_slice(random.as_slice());
                Ok(self.encrypt_with_nonce(nonce, msg))
            },
            None => Err(SecretBoxError::RandomSourceFail),
        }
    }

    /// Opens a message that was encrypted under this key.
    ///
    /// No part of the plain text is given out unless the whole cipher text
    /// was found authentic; a refusal does not say what was wrong.
    pub fn decrypt(&self, msg: &SecretMsg) -> (res: Result<Vec<u8>, SecretBoxError>)
        ensures
            match res {
                Ok(plain) => {
                    &&& spec_decrypt(self@, msg.nonce@, msg.cipher@) == Ok::<
                        Seq<u8>,
                        SecretBoxError,
                    >(plain@)
                    &&& plain@.len() + ZERO_BYTES == msg.cipher@.len()
                },
                Err(e) => e == SecretBoxError::VerificationFail && spec_decrypt(
                    self@,
                    msg.nonce@,
                    msg.cipher@,
                ) is Err,
            },
    {
        if msg.cipher.len() < ZERO_BYTES {
            return Err(SecretBoxError::VerificationFail);
        }
        let mut padding: u8 = 0;
        let mut i: usize = 0;
        while i < BOX_ZERO_BYTES
            invariant
                i <= BOX_ZERO_BYTES,
                msg.cipher@.len() >= ZERO_BYTES,
                padding == 0 <==> msg.cipher@.take(i as int) =~= zeros(i as nat),
            decreases BOX_ZERO_BYTES - i,
        {
            let b: u8 = msg.cipher[i];
            let ghost before: u8 = padding;
            padding = padding | b;
            proof {
                assert(((before | b) == 0u8) <==> (before == 0u8 && b == 0u8)) by (bit_vector);
                let p = msg.cipher@.take(i as int);
                let q = msg.cipher@.take(i + 1);
                assert(q == p.push(b));
                if q == zeros((i + 1) as nat) {
                    assert(p == q.take(i as int));
                    assert(q[i as int] == 0);
                }
            }
            i += 1;
        }
        if padding != 0 {
            return Err(SecretBoxError::VerificationFail);
        }
        let sealed = slice_subrange(msg.cipher.as_slice(), BOX_ZERO_BYTES, msg.cipher.len());
        assert(sealed@ =~= msg.cipher@.skip(BOX_ZERO_BYTES as int));
        match xsalsa20poly1305_open(&self.0, &msg.nonce, sealed) {
            Some(plain) => Ok(plain),
            None => Err(SecretBoxError::VerificationFail),
        }
    }
}

/// A cipher text in which one of the first 16 bytes is not zero is refused
/// under every key and nonce.
pub proof fn lemma_padding_is_checked(key: Seq<u8>, nonce: Seq<u8>, cipher: Seq<u8>, i: int)
    requires
        0 <= i < BOX_ZERO_BYTES,
        i < cipher.len(),
        cipher[i] != 0,
    ensures
        spec_decrypt(key, nonce, cipher) == Err::<Seq<u8>, SecretBoxError>(
            SecretBoxError::VerificationFail,
        ),
{
    if cipher.len() >= ZERO_BYTES {
        assert(cipher.take(BOX_ZERO_BYTES as int)[i] == cipher[i]);
        assert(zeros(BOX_ZERO_BYTES as nat)[i] == 0);
    }
}

/// A cipher text that lost bytes at its end and is now shorter than 32 bytes
/// is refused under every key and nonce.
pub proof fn lemma_short_cipher_refused(key: Seq<u8>, nonce: Seq<u8>, cipher: Seq<u8>)
    requires
        cipher.len() < ZERO_BYTES,
    ensures
        spec_decrypt(key, nonce, cipher) == Err::<Seq<u8>, SecretBoxError>(
            SecretBoxError::VerificationFail,
        ),
{
}

} // verus!

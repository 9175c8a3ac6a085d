//! Strings that hold a secret.
//!
//! A `SecStr` owns the string it is made from. It keeps the text encrypted
//! under a random key of its own, so that the plain text does not lie around
//! in memory, and overwrites the plain text as soon as it has been encrypted.
//! `unlock` brings the plain text back into `string`; `delete` overwrites it
//! again. When a `SecStr` goes away, both the plain and the encrypted text
//! are overwritten with zeros first.
//!
//! Nothing here shows a secret by accident: the text to print for a `SecStr`
//! is a fixed marker.

use crate::bytes::{
    constant_time_eq,
    is_utf8,
    nul_chars,
    string_from_utf8,
    zeroize_bytes,
    zeroize_text,
    zeros,
};
use crate::nacl::stream::{
    lemma_xor_twice,
    stream_encrypt_xor,
    xor_with_keystream,
    KEY_BYTES,
    NONCE_BYTES,
};
use crate::random::os_random_bytes;
use vstd::prelude::*;
use vstd::utf8::{
    decode_utf8,
    encode_utf8,
    encode_utf8_decode_utf8,
    encode_utf8_valid_utf8,
    is_ascii_chars,
    is_ascii_chars_encode_utf8,
    valid_utf8,
};

verus! {

/// A secret string, kept encrypted in memory.
pub struct SecStr {
    /// Holds the plain text after `unlock`, and NUL characters otherwise.
    /// Call `delete` when the plain text is no longer needed.
    pub string: String,
    /// The text, encrypted under `password` and `iv`.
    pub encrypted_string: Vec<u8>,
    /// The random key of this string: 32 bytes.
    pub password: Vec<u8>,
    /// The random nonce of this string: 24 bytes.
    pub iv: Vec<u8>,
}

impl SecStr {
    /// The key and the nonce have the lengths the cipher asks for.
    pub open spec fn wf(&self) -> bool {
        &&& self.password@.len() == KEY_BYTES
        &&& self.iv@.len() == NONCE_BYTES
    }

    /// The bytes that this string protects.
    pub open spec fn secret(&self) -> Seq<u8> {
        xor_with_keystream(self.encrypted_string@, self.iv@, self.password@)
    }

    /// The string is well-formed and what it protects is text.
    pub open spec fn intact(&self) -> bool {
        &&& self.wf()
        &&& valid_utf8(self.secret())
    }

    /// The text that this string protects.
    pub open spec fn text(&self) -> Seq<char> {
        decode_utf8(self.secret())
    }

    /// The plain text is out of sight: `string` holds NUL characters only,
    /// one for each byte of the secret.
    pub open spec fn locked(&self) -> bool {
        self.string@ == nul_chars(self.encrypted_string@.len())
    }

    /// Takes a string into safekeeping, under a key and a nonce drawn from
    /// the operating system's random source.
    ///
    /// The string is encrypted and its plain text overwritten. `None` means
    /// that the random source failed; the string is overwritten then, too.
    pub fn new(string: String) -> (res: Option<SecStr>)
        ensures
            res matches Some(s) ==> {
                &&& s.intact()
                &&& s.text() == string@
                &&& s.encrypted_string@ == xor_with_keystream(
                    encode_utf8(string@),
                    s.iv@,
                    s.password@,
                )
                &&& s.string@ == nul_chars(encode_utf8(string@).len())
                &&& s.locked()
            },
    {
        SecStr::from_draws(string, os_random_bytes(KEY_BYTES), os_random_bytes(NONCE_BYTES))
    }

    /// A key and a nonce were drawn, and both have the length that the
    /// cipher asks for.
    pub open spec fn usable_draws(key: Option<Vec<u8>>, nonce: Option<Vec<u8>>) -> bool {
        &&& key matches Some(k) && k@.len() == KEY_BYTES
        &&& nonce matches Some(n) && n@.len() == NONCE_BYTES
    }

    /// Takes a string into safekeeping under a key and a nonce as the random
    /// source handed them out.
    ///
    /// There is a `SecStr` if and only if both were handed out and have the
    /// lengths that the cipher asks for. Where there is none, the string is
    /// overwritten all the same.
    pub fn from_draws(string: String, key: Option<Vec<u8>>, nonce: Option<Vec<u8>>) -> (res:
        Option<SecStr>)
        ensures
            res is Some <==> SecStr::usable_draws(key, nonce),
            res matches Some(s) ==> {
                &&& s.password@ == key->0@
                &&& s.iv@ == nonce->0@
                &&& s.encrypted_string@ == xor_with_keystream(
                    encode_utf8(string@),
                    nonce->0@,
                    key->0@,
                )
                &&& s.string@ == nul_chars(encode_utf8(string@).len())
                &&& s.locked()
                &&& s.intact()
                &&& s.text() == string@
            },
    {
        let mut string = string;
        match key {
            Some(password) => match nonce {
                Some(iv) => {
                    if password.len() == KEY_BYTES && iv.len() == NONCE_BYTES {
                        Some(SecStr::with_key(string, password, iv))
                    } else {
                        zeroize_text(&mut string);
                        None
                    }
                },
                None => {
                    zeroize_text(&mut string);
                    None
                },
            },
            None => {
                zeroize_text(&mut string);
                None
            },
        }
    }

    /// Takes a string into safekeeping under the given key and nonce.
    pub fn with_key(string: String, password: Vec<u8>, iv: Vec<u8>) -> (s: SecStr)
        requires
            password@.len() == KEY_BYTES,
            iv@.len() == NONCE_BYTES,
        ensures
            s.password@ == password@,
            s.iv@ == iv@,
            s.encrypted_string@ == xor_with_keystream(encode_utf8(string@), iv@, password@),
            s.string@ == nul_chars(encode_utf8(string@).len()),
            s.locked(),
            s.intact(),
            s.text() == string@,
    {
        let mut sec_str = SecStr { string, encrypted_string: Vec::new(), password, iv };
        sec_str.lock();
        sec_str.delete();
        proof {
            lemma_xor_twice(encode_utf8(string@), iv@, password@);
            encode_utf8_valid_utf8(string@);
            encode_utf8_decode_utf8(string@);
        }
        sec_str
    }

    /// Overwrites the plain text with NUL characters.
    ///
    /// Call this after `unlock`, as soon as the plain text is no longer
    /// needed. Doing it twice changes nothing more.
    pub fn delete(&mut self)
        ensures
            final(self).string@ == nul_chars(encode_utf8(old(self).string@).len()),
            final(self).encrypted_string == old(self).encrypted_string,
            final(self).password == old(self).password,
            final(self).iv == old(self).iv,
    {
        zeroize_text(&mut self.string);
    }

    /// Overwrites the plain and the encrypted text with zeros; both keep
    /// their lengths. After that the secret is gone for good.
    ///
    /// This runs by itself when a `SecStr` goes away. Doing it twice changes
    /// nothing more.
    pub fn zero(&mut self)
        ensures
            final(self).string@ == nul_chars(encode_utf8(old(self).string@).len()),
            final(self).encrypted_string@ == zeros(old(self).encrypted_string@.len()),
            final(self).password == old(self).password,
            final(self).iv == old(self).iv,
        opens_invariants none
        no_unwind
    {
        zeroize_text(&mut self.string);
        zeroize_bytes(&mut self.encrypted_string);
    }

    /// Encrypts the plain text in `string` anew under the key and the nonce.
    pub fn lock(&mut self)
        requires
            old(self).wf(),
        ensures
            final(self).encrypted_string@ == xor_with_keystream(
                encode_utf8(old(self).string@),
                old(self).iv@,
                old(self).password@,
            ),
            final(self).string == old(self).string,
            final(self).password == old(self).password,
            final(self).iv == old(self).iv,
    {
        zeroize_bytes(&mut self.encrypted_string);
        self.encrypted_string = stream_encrypt_xor(
            self.string.as_str().as_bytes(),
            self.iv.as_slice(),
            self.password.as_slice(),
        );
    }

    /// Decrypts the text and makes it available in `string`.
    ///
    /// Call `delete` as soon as the plain text is no longer needed.
    pub fn unlock(&mut self)
        requires
            old(self).intact(),
        ensures
            final(self).string@ == old(self).text(),
            final(self).encrypted_string == old(self).encrypted_string,
            final(self).password == old(self).password,
            final(self).iv == old(self).iv,
    {
        let plain = self.export();
        zeroize_text(&mut self.string);
        self.string = plain;
    }

    /// Whether this value is intact: the key and the nonce have their
    /// lengths, and what is protected is text.
    pub fn is_intact(&self) -> (ok: bool)
        ensures
            ok == self.intact(),
    {
        if self.password.len() != KEY_BYTES || self.iv.len() != NONCE_BYTES {
            return false;
        }
        let mut bytes = stream_encrypt_xor(
            self.encrypted_string.as_slice(),
            self.iv.as_slice(),
            self.password.as_slice(),
        );
        let ok = is_utf8(bytes.as_slice());
        zeroize_bytes(&mut bytes);
        ok
    }

    /// Decrypts the text into `string` if this value is intact, and leaves
    /// it as it is otherwise. Says whether it did.
    pub fn try_unlock(&mut self) -> (done: bool)
        ensures
            done == old(self).intact(),
            done ==> final(self).string@ == old(self).text(),
            !done ==> final(self).string == old(self).string,
            final(self).encrypted_string == old(self).encrypted_string,
            final(self).password == old(self).password,
            final(self).iv == old(self).iv,
    {
        if self.is_intact() {
            self.unlock();
            true
        } else {
            false
        }
    }

    /// The plain text, in a string of its own.
    pub fn export(&self) -> (plain: String)
        requires
            self.intact(),
        ensures
            plain@ == self.text(),
    {
        let bytes = stream_encrypt_xor(
            self.encrypted_string.as_slice(),
            self.iv.as_slice(),
            self.password.as_slice(),
        );
        string_from_utf8(bytes).unwrap()
    }

    /// The plain text, in a string of its own, if this value is intact.
    pub fn try_export(&self) -> (plain: Option<String>)
        ensures
            plain is Some <==> self.intact(),
            plain matches Some(p) ==> p@ == self.text(),
    {
        if self.is_intact() {
            Some(self.export())
        } else {
            None
        }
    }

    /// Whether two strings protect the same bytes.
    ///
    /// Secrets of one length are compared byte by byte to the end, wherever
    /// the first difference lies.
    pub fn secret_eq(&self, other: &SecStr) -> (same: bool)
        requires
            self.wf(),
            other.wf(),
        ensures
            same == (self.secret() == other.secret()),
    {
        let mut mine = stream_encrypt_xor(
            self.encrypted_string.as_slice(),
            self.iv.as_slice(),
            self.password.as_slice(),
        );
        let mut theirs = stream_encrypt_xor(
            other.encrypted_string.as_slice(),
            other.iv.as_slice(),
            other.password.as_slice(),
        );
        let same = constant_time_eq(mine.as_slice(), theirs.as_slice());
        zeroize_bytes(&mut mine);
        zeroize_bytes(&mut theirs);
        same
    }

    /// The text to show in place of the secret.
    pub fn redacted(&self) -> (marker: String)
        ensures
            marker@ == "***SECRET***"@,
    {
        "***SECRET***".to_owned()
    }
}

/// Overwriting what was overwritten before changes nothing: a string of NUL
/// characters has one byte for each of them, and zero bytes stay zero bytes.
pub proof fn lemma_overwriting_twice(n: nat)
    ensures
        nul_chars(encode_utf8(nul_chars(n)).len()) == nul_chars(n),
        zeros(zeros(n).len()) == zeros(n),
{
    assert(is_ascii_chars(nul_chars(n)));
    is_ascii_chars_encode_utf8(nul_chars(n));
}

impl Drop for SecStr {
    /// Overwrites the plain and the encrypted text with zeros before the
    /// memory is given back.
    fn drop(&mut self)
        ensures
            final(self).string@ == nul_chars(encode_utf8(old(self).string@).len()),
            final(self).encrypted_string@ == zeros(old(self).encrypted_string@.len()),
        opens_invariants none
        no_unwind
    {
        self.zero();
    }
}

} // verus!

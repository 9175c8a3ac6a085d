//! Small operations on byte strings that the rest of the crate shares.

use vstd::prelude::*;
use vstd::utf8::{decode_utf8, encode_utf8, encode_utf8_decode_utf8, valid_utf8};
use zeroize::Zeroize;

verus! {

/// `n` zero bytes.
pub open spec fn zeros(n: nat) -> Seq<u8> {
    Seq::new(n, |i: int| 0u8)
}

/// The first `n` items of `s`, or all of `s` when it is shorter.
pub open spec fn prefix(s: Seq<u8>, n: nat) -> Seq<u8> {
    if s.len() <= n {
        s
    } else {
        s.take(n as int)
    }
}

/// `s` followed by as many zero bytes as it takes to reach length `n`.
pub open spec fn zero_padded(s: Seq<u8>, n: nat) -> Seq<u8>
    recommends
        s.len() <= n,
{
    s + zeros((n - s.len()) as nat)
}

/// `n` NUL characters.
pub open spec fn nul_chars(n: nat) -> Seq<char> {
    Seq::new(n, |i: int| '\0')
}

/// Overwrites every byte of `buf` with zero; the length stays.
///
/// Calls `zeroize` of `zeroize::Zeroize` on the vector's slice, which writes
/// each byte with a volatile store that the compiler may not drop. Trusted:
/// afterwards the vector holds as many bytes as before, all zero. The call
/// asserts that the slice is no longer than `isize::MAX`, which no slice is.
#[verifier::external_body]
pub(crate) fn zeroize_bytes(buf: &mut Vec<u8>)
    ensures
        final(buf)@ == zeros(old(buf)@.len()),
    opens_invariants none
    no_unwind
{
    buf.as_mut_slice().zeroize();
}

/// Overwrites every byte of `text` with zero; the length in bytes stays.
///
/// Calls `zeroize` of `zeroize::Zeroize` on the string's `str`, which
/// overwrites its bytes in place with volatile stores. Trusted: afterwards
/// the string holds one NUL character for each byte it had.
#[verifier::external_body]
pub(crate) fn zeroize_text(text: &mut String)
    ensures
        final(text)@ == nul_chars(encode_utf8(old(text)@).len()),
    opens_invariants none
    no_unwind
{
    text.as_mut_str().zeroize();
}

/// `text` without the white space at its start and at its end.
pub uninterp spec fn trimmed(text: Seq<char>) -> Seq<char>;

/// Takes the white space off both ends of `text`.
///
/// Calls `str::trim`. Trusted: what is left is a function of the text alone.
#[verifier::external_body]
pub(crate) fn trim(text: &str) -> (out: &str)
    ensures
        out@ == trimmed(text@),
{
    text.trim()
}

/// Whether `bytes` are the UTF-8 encoding of some text.
///
/// Calls `std::str::from_utf8` and looks at whether it succeeded. Trusted:
/// it succeeds on valid UTF-8 and on nothing else.
#[verifier::external_body]
pub(crate) fn is_utf8(bytes: &[u8]) -> (ok: bool)
    ensures
        ok == valid_utf8(bytes@),
{
    std::str::from_utf8(bytes).is_ok()
}

/// Reads `bytes` as UTF-8.
///
/// Calls `String::from_utf8`. Trusted: it succeeds on valid UTF-8 and on
/// nothing else, and the string it gives holds the characters that the bytes
/// encode.
#[verifier::external_body]
pub(crate) fn string_from_utf8(bytes: Vec<u8>) -> (out: Option<String>)
    ensures
        out is Some <==> valid_utf8(bytes@),
        out is Some ==> out->0@ == decode_utf8(bytes@),
{
    String::from_utf8(bytes).ok()
}

/// Compares two byte strings without stopping at the first difference.
///
/// Strings of different lengths are unequal at once: a length is not treated
/// as secret. For equal lengths every pair of bytes is visited, whatever the
/// contents.
pub fn constant_time_eq(a: &[u8], b: &[u8]) -> (same: bool)
    ensures
        same == (a@ == b@),
{
    if a.len() != b.len() {
        return false;
    }
    let n: usize = a.len();
    let mut diff: u8 = 0;
    let mut i: usize = 0;
    while i < n
        invariant
            n == a@.len(),
            n == b@.len(),
            i <= n,
            diff == 0 <==> a@.take(i as int) =~= b@.take(i as int),
        decreases n - i,
    {
        let x: u8 = a[i];
        let y: u8 = b[i];
        let ghost before: u8 = diff;
        diff = diff | (x ^ y);
        proof {
            assert(((before | (x ^ y)) == 0u8) <==> (before == 0u8 && x == y)) by (bit_vector);
            let pa = a@.take(i as int);
            let pb = b@.take(i as int);
            let qa = a@.take(i + 1);
            let qb = b@.take(i + 1);
            assert(qa == pa.push(x));
            assert(qb == pb.push(y));
            if qa == qb {
                assert(pa == qa.take(i as int));
                assert(pb == qb.take(i as int));
                assert(qa[i as int] == qb[i as int]);
            }
        }
        i += 1;
    }
    proof {
        assert(a@.take(n as int) == a@);
        assert(b@.take(n as int) == b@);
    }
    diff == 0
}

/// Whether two strings hold the same characters.
pub fn str_eq(a: &str, b: &str) -> (same: bool)
    ensures
        same == (a@ == b@),
{
    proof {
        encode_utf8_decode_utf8(a@);
        encode_utf8_decode_utf8(b@);
    }
    constant_time_eq(a.as_bytes(), b.as_bytes())
}

} // verus!

//! The NaCl primitives the store is built on: the XSalsa20 stream cipher and
//! the `secretbox` authenticated cipher.

pub mod secretbox;
pub mod stream;

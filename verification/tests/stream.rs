use rpass::nacl::stream::{stream_encrypt_xor, KEY_BYTES, NONCE_BYTES};

const KEY: [u8; 32] = [
    0x1b, 0x27, 0x55, 0x64, 0x73, 0xe9, 0x85, 0xd4, 0x62, 0xcd, 0x51, 0x19, 0x7a, 0x9a, 0x46, 0xc7,
    0x60, 0x09, 0x54, 0x9e, 0xac, 0x64, 0x74, 0xf2, 0x06, 0xc4, 0xee, 0x08, 0x44, 0xf6, 0x83, 0x89,
];

const NONCE: [u8; 24] = [
    0x69, 0x69, 0x6e, 0xe9, 0x55, 0xb6, 0x2b, 0x73, 0xcd, 0x62, 0xbd, 0xa8, 0x75, 0xfc, 0x73, 0xd6,
    0x82, 0x19, 0xe0, 0x03, 0x6b, 0x7a, 0x0b, 0x37,
];

const KEYSTREAM: [u8; 32] = [
    0xee, 0xa6, 0xa7, 0x25, 0x1c, 0x1e, 0x72, 0x91, 0x6d, 0x11, 0xc2, 0xcb, 0x21, 0x4d, 0x3c, 0x25,
    0x25, 0x39, 0x12, 0x1d, 0x8e, 0x23, 0x4e, 0x65, 0x2d, 0x65, 0x1f, 0xa4, 0xc8, 0xcf, 0xf8, 0x80,
];

#[test]
fn stream_sizes() {
    assert_eq!(KEY_BYTES, 32);
    assert_eq!(NONCE_BYTES, 24);
}

#[test]
fn stream_of_zeros_is_the_keystream() {
    let out = stream_encrypt_xor(&[0u8; 32], &NONCE, &KEY);
    assert_eq!(out, KEYSTREAM.to_vec());
}

#[test]
fn stream_xors_the_input_with_the_keystream() {
    let input: Vec<u8> = (0..32).collect();
    let out = stream_encrypt_xor(&input, &NONCE, &KEY);
    let expected: Vec<u8> = input.iter().zip(KEYSTREAM.iter()).map(|(a, b)| a ^ b).collect();
    assert_eq!(out, expected);
    assert_ne!(out, input);
}

#[test]
fn stream_twice_gives_the_input_back() {
    let input: Vec<u8> = b"the quick brown fox jumps over the lazy dog, again and again and again".to_vec();
    let once = stream_encrypt_xor(&input, &NONCE, &KEY);
    assert_eq!(once.len(), input.len());
    assert_ne!(once, input);
    let twice = stream_encrypt_xor(&once, &NONCE, &KEY);
    assert_eq!(twice, input);
}

#[test]
fn stream_of_nothing_is_nothing() {
    assert!(stream_encrypt_xor(&[], &NONCE, &KEY).is_empty());
}

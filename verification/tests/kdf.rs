use rpass::kdf::{derive_key, MAX_PASSWORD_BYTES, PASS_SIZE, SALT_SIZE};

#[test]
fn kdf_sizes() {
    assert_eq!(SALT_SIZE, 16);
    assert_eq!(PASS_SIZE, 24);
    assert_eq!(MAX_PASSWORD_BYTES, 72);
}

#[test]
fn derive_key_gives_the_bcrypt_vector() {
    let password = [0x55u8, 0x2A, 0x55, 0x00];
    let salt = [
        0x10u8, 0x41, 0x04, 0x10, 0x41, 0x04, 0x10, 0x41, 0x04, 0x10, 0x41, 0x04, 0x10, 0x41, 0x04,
        0x10,
    ];
    let expected = [
        0x1Bu8, 0xB6, 0x91, 0x43, 0xF9, 0xA8, 0xD3, 0x04, 0xC8, 0xD2, 0x3D, 0x99, 0xAB, 0x04, 0x9A,
        0x77, 0xA6, 0x8E, 0x2C, 0xCC, 0x74, 0x42, 0x06,
    ];
    let key = derive_key(&password, &salt, 5);
    assert_eq!(key[..23], expected[..]);
}

#[test]
fn derive_key_is_deterministic() {
    let salt = [3u8; 16];
    assert_eq!(derive_key(b"correcthorsebattery", &salt, 4), derive_key(b"correcthorsebattery", &salt, 4));
}

#[test]
fn derive_key_depends_on_password_salt_and_cost() {
    let key = derive_key(b"correcthorsebattery", &[3u8; 16], 4);
    assert_ne!(key, derive_key(b"correcthorsebatterz", &[3u8; 16], 4));
    assert_ne!(key, derive_key(b"correcthorsebattery", &[4u8; 16], 4));
    assert_ne!(key, derive_key(b"correcthorsebattery", &[3u8; 16], 5));
}

#[test]
fn derive_key_reads_72_bytes_of_a_password() {
    let salt = [9u8; 16];
    let long: Vec<u8> = (0..80).map(|i| b'a' + (i % 26) as u8).collect();
    let mut other = long.clone();
    other[72] = b'!';
    other[79] = b'?';
    assert_eq!(derive_key(&long, &salt, 4), derive_key(&long[..72], &salt, 4));
    assert_eq!(derive_key(&long, &salt, 4), derive_key(&other, &salt, 4));
    let mut differs = long.clone();
    differs[71] = b'!';
    assert_ne!(derive_key(&long, &salt, 4), derive_key(&differs, &salt, 4));
}

#[test]
fn derive_key_reads_a_short_password_round_and_round() {
    let salt = [9u8; 16];
    assert_eq!(derive_key(b"ab", &salt, 4), derive_key(b"abab", &salt, 4));
    assert_ne!(derive_key(b"ab", &salt, 4), derive_key(b"aba", &salt, 4));
}

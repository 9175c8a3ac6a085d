use rpass::secstr::SecStr;
use std::str;

#[test]
fn test_drop() {
    let str = "drop".to_string();
    let mut sec_str = SecStr::new(str).unwrap();
    sec_str.unlock();
    assert_eq!(sec_str.string, "drop");
    // what runs when the value goes away
    sec_str.zero();
    let test_vec: Vec<u8> = sec_str.encrypted_string.clone();
    let test_vec2: Vec<u8> = sec_str.string.as_bytes().to_vec();
    drop(sec_str);
    assert_eq!(test_vec, vec![0u8, 0u8, 0u8, 0u8]);
    assert_eq!(test_vec2, vec![0u8, 0u8, 0u8, 0u8]);
}

#[test]
fn test_new() {
    let str = "Hello, box!".to_string();
    // Ownership of str moves to SecureString <- secure input interface
    let mut sec_str = SecStr::new(str).unwrap();
    sec_str.unlock();
    assert_eq!(sec_str.string, "Hello, box!");
}

#[test]
fn test_delete() {
    let str = "delete".to_string();
    let sec_str = SecStr::new(str).unwrap();
    assert_eq!(sec_str.string, "\0\0\0\0\0\0");

    // Test with umlauts
    let str = "\u{e4}".to_string();
    let sec_str = SecStr::new(str).unwrap();
    assert_eq!(sec_str.string, "\0\0");
}

#[test]
fn test_lock() {
    let str = "delete".to_string();
    let mut sec_str = SecStr::new(str).unwrap();

    assert!(str::from_utf8(&sec_str.encrypted_string) != Ok("delete"));

    sec_str.unlock();
    assert_eq!(sec_str.string, "delete");
}

#[test]
fn test_encryption() {
    let str = "delete".to_string();
    let sec_str = SecStr::new(str).unwrap();

    let str = "delete".to_string();
    let mut sec_str2 = SecStr::new(str).unwrap();
    assert!(sec_str.encrypted_string != sec_str2.encrypted_string);

    sec_str2.unlock();
    sec_str2.iv = sec_str.iv.clone();
    sec_str2.password = sec_str.password.clone();
    sec_str2.lock();
    assert_eq!(sec_str.encrypted_string, sec_str2.encrypted_string);
}

#[test]
fn new_draws_a_key_and_a_nonce() {
    let sec_str = SecStr::new("secret".to_string()).unwrap();
    assert_eq!(sec_str.password.len(), 32);
    assert_eq!(sec_str.iv.len(), 24);
    assert_eq!(sec_str.encrypted_string.len(), 6);
    assert_ne!(sec_str.encrypted_string, b"secret".to_vec());
}

#[test]
fn with_key_encrypts_with_the_keystream() {
    let key: Vec<u8> = vec![
        0x1b, 0x27, 0x55, 0x64, 0x73, 0xe9, 0x85, 0xd4, 0x62, 0xcd, 0x51, 0x19, 0x7a, 0x9a, 0x46,
        0xc7, 0x60, 0x09, 0x54, 0x9e, 0xac, 0x64, 0x74, 0xf2, 0x06, 0xc4, 0xee, 0x08, 0x44, 0xf6,
        0x83, 0x89,
    ];
    let iv: Vec<u8> = vec![
        0x69, 0x69, 0x6e, 0xe9, 0x55, 0xb6, 0x2b, 0x73, 0xcd, 0x62, 0xbd, 0xa8, 0x75, 0xfc, 0x73,
        0xd6, 0x82, 0x19, 0xe0, 0x03, 0x6b, 0x7a, 0x0b, 0x37,
    ];
    let sec_str = SecStr::with_key("abc".to_string(), key.clone(), iv.clone());
    assert_eq!(sec_str.encrypted_string, vec![b'a' ^ 0xee, b'b' ^ 0xa6, b'c' ^ 0xa7]);
    assert_eq!(sec_str.string, "\0\0\0");
    assert_eq!(sec_str.password, key);
    assert_eq!(sec_str.iv, iv);
    assert_eq!(sec_str.export(), "abc");
}

#[test]
fn delete_after_unlock_hides_the_text_again() {
    let mut sec_str = SecStr::new("p\u{e4}ss".to_string()).unwrap();
    sec_str.unlock();
    assert_eq!(sec_str.string, "p\u{e4}ss");
    sec_str.delete();
    assert_eq!(sec_str.string, "\0\0\0\0\0");
    sec_str.delete();
    assert_eq!(sec_str.string, "\0\0\0\0\0");
    sec_str.unlock();
    assert_eq!(sec_str.string, "p\u{e4}ss");
}

#[test]
fn zero_is_idempotent() {
    let mut sec_str = SecStr::new("secret".to_string()).unwrap();
    sec_str.zero();
    assert_eq!(sec_str.encrypted_string, vec![0u8; 6]);
    assert_eq!(sec_str.string, "\0\0\0\0\0\0");
    sec_str.zero();
    assert_eq!(sec_str.encrypted_string, vec![0u8; 6]);
    assert_eq!(sec_str.string, "\0\0\0\0\0\0");
}

#[test]
fn export_leaves_the_value_locked() {
    let sec_str = SecStr::new("s3cr3t!".to_string()).unwrap();
    assert_eq!(sec_str.export(), "s3cr3t!");
    assert_eq!(sec_str.try_export(), Some("s3cr3t!".to_string()));
    assert_eq!(sec_str.string, "\0\0\0\0\0\0\0");
}

#[test]
fn an_empty_secret_is_a_secret() {
    let mut sec_str = SecStr::new(String::new()).unwrap();
    assert!(sec_str.encrypted_string.is_empty());
    assert!(sec_str.try_unlock());
    assert_eq!(sec_str.string, "");
}

#[test]
fn try_unlock_refuses_a_damaged_value() {
    let mut sec_str = SecStr::new("secret".to_string()).unwrap();
    sec_str.iv.pop();
    assert_eq!(sec_str.try_export(), None);
    assert!(!sec_str.try_unlock());
    assert_eq!(sec_str.string, "\0\0\0\0\0\0");

    let mut sec_str = SecStr::new("secret".to_string()).unwrap();
    sec_str.password.push(0);
    assert!(!sec_str.try_unlock());

    // an encrypted text that does not decrypt to UTF-8
    let key = vec![7u8; 32];
    let iv = vec![9u8; 24];
    let mut sec_str = SecStr::with_key("a".to_string(), key, iv);
    sec_str.encrypted_string[0] ^= 0x80;
    assert!(!sec_str.is_intact());
    assert_eq!(sec_str.try_export(), None);
    assert!(!sec_str.try_unlock());
    assert_eq!(sec_str.string, "\0");
}

#[test]
fn try_unlock_unlocks_an_intact_value() {
    let mut sec_str = SecStr::new("secret".to_string()).unwrap();
    assert!(sec_str.is_intact());
    assert!(sec_str.try_unlock());
    assert_eq!(sec_str.string, "secret");
}

#[test]
fn secret_eq_compares_what_is_protected() {
    let a = SecStr::new("secret".to_string()).unwrap();
    let b = SecStr::new("secret".to_string()).unwrap();
    let c = SecStr::new("secreT".to_string()).unwrap();
    let d = SecStr::new("secre".to_string()).unwrap();
    assert_ne!(a.encrypted_string, b.encrypted_string);
    assert!(a.secret_eq(&b));
    assert!(a.secret_eq(&a));
    assert!(!a.secret_eq(&c));
    assert!(!a.secret_eq(&d));
    assert!(!d.secret_eq(&a));
}

#[test]
fn the_marker_is_shown_for_every_secret() {
    let sec_str = SecStr::new("secret".to_string()).unwrap();
    assert_eq!(sec_str.redacted(), "***SECRET***");
    assert_eq!(SecStr::new(String::new()).unwrap().redacted(), "***SECRET***");
}

#[test]
fn from_draws_needs_a_key_and_a_nonce() {
    let key = vec![7u8; 32];
    let nonce = vec![9u8; 24];
    assert!(SecStr::from_draws("secret".to_string(), None, None).is_none());
    assert!(SecStr::from_draws("secret".to_string(), Some(key.clone()), None).is_none());
    assert!(SecStr::from_draws("secret".to_string(), None, Some(nonce.clone())).is_none());
    assert!(SecStr::from_draws("secret".to_string(), Some(vec![7u8; 31]), Some(nonce.clone())).is_none());
    assert!(SecStr::from_draws("secret".to_string(), Some(key.clone()), Some(vec![9u8; 25])).is_none());
    assert!(SecStr::from_draws("secret".to_string(), Some(nonce.clone()), Some(key.clone())).is_none());

    let sec_str = SecStr::from_draws("secret".to_string(), Some(key.clone()), Some(nonce.clone())).unwrap();
    let same = SecStr::with_key("secret".to_string(), key.clone(), nonce.clone());
    assert_eq!(sec_str.password, key);
    assert_eq!(sec_str.iv, nonce);
    assert_eq!(sec_str.encrypted_string, same.encrypted_string);
    assert_eq!(sec_str.string, "\0\0\0\0\0\0");
    assert_eq!(sec_str.export(), "secret");
}

use studio_core::error::StudioError;
use studio_core::keystore::{decode_key, encode_key, hex_decode, hex_encode, hex_u64, key_path, keyring_account, missing_key, uses_keyring, KEYRING_SERVICE};
use studio_core::text::trim_text;
use studio_core::workspace::Workspace;

#[test]
fn hex_round_trips() {
    let bytes = [0x00u8, 0x0f, 0xa5, 0xff, 0x10];
    assert_eq!(hex_encode(&bytes), "000fa5ff10");
    assert_eq!(hex_decode("000fa5ff10").unwrap(), bytes);
    assert!(hex_decode("0g").is_none());
    assert!(hex_decode("abc").is_none());
}

#[test]
fn hex_decode_accepts_either_case() {
    assert_eq!(hex_decode("ABcd").unwrap(), vec![0xab, 0xcd]);
    assert_eq!(hex_decode("").unwrap(), Vec::<u8>::new());
    assert!(hex_decode("é0").is_none());
}

#[test]
fn key_text_round_trips_and_rejects_bad_text() {
    let seed: [u8; 32] = core::array::from_fn(|i| (i * 7) as u8);
    let text = encode_key(&seed);
    assert_eq!(text.len(), 64);
    assert_eq!(decode_key(&text, 1).unwrap(), seed);
    assert_eq!(decode_key(&format!("  {text}\n"), 1).unwrap(), seed);
    match decode_key("zz", 4) {
        Err(StudioError::BadKey(m)) => assert_eq!(m, "malformed key for author 4"),
        other => panic!("unexpected {other:?}"),
    }
    assert!(matches!(decode_key("00ff", 4), Err(StudioError::Aion(_))));
}

#[test]
fn key_files_are_named_per_author_and_kind() {
    let ws = Workspace::new("/tmp/ws");
    assert_eq!(key_path(&ws, 1, ""), "/tmp/ws/keys/author-1.key");
    assert_eq!(key_path(&ws, 2, ".master"), "/tmp/ws/keys/author-2.master.key");
    match missing_key(99, "") {
        StudioError::BadKey(m) => assert_eq!(m, "no  key for author 99"),
        other => panic!("unexpected {other:?}"),
    }
}

#[test]
fn trim_and_fixed_width_hex() {
    assert_eq!(trim_text("\u{3000} a b \t"), "a b");
    assert_eq!(trim_text("   "), "");
    assert_eq!(hex_u64(0xab), "00000000000000ab");
    assert_eq!(hex_u64(u64::MAX), "ffffffffffffffff");
    assert_eq!(hex_u64(0x0123_4567_89ab_cdef), format!("{:016x}", 0x0123_4567_89ab_cdefu64));
}

#[test]
fn keyring_accounts_and_custody_setting() {
    assert_eq!(KEYRING_SERVICE, "aion-context-studio");
    assert_eq!(keyring_account(3, ""), "author-3");
    assert_eq!(keyring_account(3, ".master"), "author-3.master");
    assert!(uses_keyring(Some("keyring")));
    assert!(!uses_keyring(Some("file")));
    assert!(!uses_keyring(Some("Keyring")));
    assert!(!uses_keyring(None));
}

#[test]
fn decoded_hex_is_half_as_long_and_reencodes_in_lower_case() {
    let v = hex_decode("ABcd09").unwrap();
    assert_eq!(v.len(), 3);
    assert_eq!(hex_encode(&v), "ABcd09".to_ascii_lowercase());
    assert!(hex_decode("abc").is_none());
    assert!(hex_decode("zz").is_none());
}

use akira_keys::keygen::free_akira_key;
use akira_keys::keygen::generate_akira_key;
use akira_keys::keygen::key_from_bytes;
use akira_keys::keygen::KeyHandle;

fn is_b64url(c: u8) -> bool {
    c.is_ascii_alphanumeric() || c == b'-' || c == b'_'
}

fn key_of(h: KeyHandle) -> Vec<u8> {
    h.bytes.expect("a generated handle owns a key")
}

#[test]
fn generated_key_matches_format() {
    let key = key_of(generate_akira_key());
    assert_eq!(key.len(), 54);
    assert_eq!(&key[..11], b"akira_rust_");
    for &c in &key[11..] {
        assert!(is_b64url(c));
    }
    assert!(String::from_utf8(key).is_ok());
}

#[test]
fn thousand_keys_are_distinct() {
    let mut seen = std::collections::HashSet::new();
    for _ in 0..1000 {
        let key = key_of(generate_akira_key());
        assert!(seen.insert(key));
    }
}

#[test]
fn decoding_a_key_body_yields_the_32_bytes_back() {
    let engine = &base64::engine::general_purpose::URL_SAFE_NO_PAD;
    for _ in 0..50 {
        let key = key_of(generate_akira_key());
        let body = &key[11..];
        let decoded = base64::Engine::decode(engine, body).expect("key body decodes");
        assert_eq!(decoded.len(), 32);
        let reencoded = base64::Engine::encode(engine, &decoded);
        assert_eq!(reencoded.as_bytes(), body);
    }
}

#[test]
fn releasing_a_null_handle_is_a_noop() {
    let mut h = KeyHandle::null();
    assert!(h.is_null());
    free_akira_key(&mut h);
    assert!(h.is_null());
}

#[test]
fn releasing_an_owned_handle_empties_it() {
    let mut h = generate_akira_key();
    assert!(!h.is_null());
    free_akira_key(&mut h);
    assert!(h.is_null());
    assert!(h.bytes.is_none());
    free_akira_key(&mut h);
    assert!(h.is_null());
}

#[test]
fn three_keys_share_the_tag_and_differ() {
    let keys: Vec<Vec<u8>> = (0..3).map(|_| key_of(generate_akira_key())).collect();
    for key in &keys {
        assert!(key.starts_with(b"akira_rust_"));
        let suffix = &key[11..];
        assert_eq!(suffix.len(), 43);
        for &c in suffix {
            assert!(is_b64url(c));
        }
    }
    assert_ne!(keys[0][11..], keys[1][11..]);
    assert_ne!(keys[0][11..], keys[2][11..]);
    assert_ne!(keys[1][11..], keys[2][11..]);
}

#[test]
fn key_from_zero_bytes_is_the_tag_then_43_a() {
    let bytes = vec![0u8; 32];
    let key = key_from_bytes(&bytes);
    let mut expected = b"akira_rust_".to_vec();
    expected.extend(std::iter::repeat(b'A').take(43));
    assert_eq!(key, expected);
}

#[test]
fn key_from_max_bytes_has_the_known_text() {
    let bytes = vec![0xffu8; 32];
    let key = key_from_bytes(&bytes);
    let mut expected = b"akira_rust_".to_vec();
    expected.extend(std::iter::repeat(b'_').take(42));
    expected.push(b'8');
    assert_eq!(key, expected);
}

#[test]
fn key_from_bytes_agrees_with_the_engine() {
    let bytes: Vec<u8> = (0u8..32).collect();
    let key = key_from_bytes(&bytes);
    let engine = &base64::engine::general_purpose::URL_SAFE_NO_PAD;
    let mut expected = b"akira_rust_".to_vec();
    expected.extend(base64::Engine::encode(engine, &bytes).into_bytes());
    assert_eq!(key, expected);
}

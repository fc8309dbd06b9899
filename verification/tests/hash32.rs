use sayiir::hash32::{DefinitionHash, Hash32, Hash32ParseError, TaskId};

#[test]
fn hash32_round_trips_via_hex() {
    let h = Hash32::sha256(b"hello world");
    let hex = h.to_hex();
    assert_eq!(hex.len(), 64);
    assert_eq!(Hash32::from_hex(&hex).unwrap(), h);
}

#[test]
fn from_hex_rejects_wrong_length() {
    assert!(matches!(Hash32::from_hex("abc"), Err(Hash32ParseError::WrongLength(3))));
}

#[test]
fn from_hex_rejects_non_hex_char() {
    let bad = "z".repeat(64);
    assert!(matches!(Hash32::from_hex(&bad), Err(Hash32ParseError::InvalidChar(b'z'))));
}

#[test]
fn every_byte_is_quoted_in_the_message() {
    for b in 0..=u8::MAX {
        let shown = match b {
            0 => "\\0".to_string(),
            b'\t' => "\\t".to_string(),
            b'\n' => "\\n".to_string(),
            b'\r' => "\\r".to_string(),
            b'\'' => "\\'".to_string(),
            b'\\' => "\\\\".to_string(),
            0x01..=0x1f | 0x7f..=0xa0 | 0xad => format!("\\u{{{b:x}}}"),
            _ => (b as char).to_string(),
        };
        assert_eq!(
            Hash32ParseError::InvalidChar(b).to_string(),
            format!("invalid hex character: '{shown}'"),
        );
    }
}

#[test]
fn from_hex_accepts_uppercase() {
    let lower = "abcd".repeat(16);
    let upper = "ABCD".repeat(16);
    assert_eq!(Hash32::from_hex(&lower).unwrap(), Hash32::from_hex(&upper).unwrap());
}

#[test]
fn definition_hash_displays_as_hex() {
    let d = DefinitionHash::from_bytes([0xab; 32]);
    assert_eq!(d.to_hex(), "ab".repeat(32));
}

#[test]
fn definition_hash_round_trips_via_hex() {
    let d = DefinitionHash::from_hash(Hash32::sha256(b"abc"));
    let parsed = DefinitionHash::from_hex(&d.to_hex()).unwrap();
    assert_eq!(parsed, d);
}

#[test]
fn definition_hash_from_str_hashes_input() {
    let by_str: DefinitionHash = "wf-1".into();
    let by_sha = DefinitionHash::sha256(b"wf-1");
    assert_eq!(by_str, by_sha);
}

#[test]
fn digest_of_nothing() {
    assert_eq!(
        Hash32::sha256(b"").to_hex(),
        "e3b0c44298fc1c149afbf4c8996fb92427ae41e4649b934ca495991b7852b855"
    );
}

#[test]
fn task_id_is_the_digest_of_its_name() {
    assert_eq!(TaskId::from("t").to_hex(), Hash32::sha256(b"t").to_hex());
    assert_eq!(Hash32::zero().to_hex(), "00".repeat(32));
}

#[test]
fn slices_of_32_bytes_are_values() {
    let h = Hash32::sha256(b"payload");
    assert_eq!(Hash32::from_slice(h.as_bytes()), Some(h));
    assert_eq!(Hash32::from_slice(&[0u8; 31]), None);
    assert_eq!(Hash32::from_slice(&[0u8; 33]), None);
}

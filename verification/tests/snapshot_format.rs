use sayiir::snapshot_format::{
    frame_snapshot, unframe_snapshot, unframe_snapshot_checked, CodecId, FormatError, HEADER_LEN,
    SNAPSHOT_FORMAT_VERSION, SNAPSHOT_MAGIC,
};

#[test]
fn header_layout_is_frozen() {
    let framed = frame_snapshot(CodecId::Json, b"payload");
    assert_eq!(&framed[0..4], b"SYRS", "magic");
    assert_eq!(framed[4], 1, "format_version");
    assert_eq!(framed[5], 1, "codec_id json");
    assert_eq!(&framed[6..], b"payload", "payload follows header");
    assert_eq!(framed.len(), HEADER_LEN + 7);
}

#[test]
fn rkyv_codec_id_byte() {
    let framed = frame_snapshot(CodecId::Rkyv, b"x");
    assert_eq!(framed[5], 2);
}

#[test]
fn roundtrip() {
    for codec in [CodecId::Json, CodecId::Rkyv] {
        let payload = b"some opaque codec bytes \x00\x01\x02";
        let framed = frame_snapshot(codec, payload);
        let frame = unframe_snapshot(&framed).expect("parse");
        assert_eq!(frame.format_version, SNAPSHOT_FORMAT_VERSION);
        assert_eq!(frame.codec_id, codec);
        assert_eq!(frame.payload, payload);
    }
}

#[test]
fn empty_payload_roundtrips() {
    let framed = frame_snapshot(CodecId::Json, b"");
    let frame = unframe_snapshot(&framed).expect("parse");
    assert_eq!(frame.payload, b"");
}

#[test]
fn missing_magic_is_detected() {
    let legacy = br#"{"instance_id":"wf-1"}"#;
    assert_eq!(unframe_snapshot(legacy), Err(FormatError::MissingMagic));
    assert!(FormatError::MissingMagic.to_string().contains("pre-1.0"));
}

#[test]
fn short_blob_without_magic_is_missing_magic_not_truncated() {
    assert_eq!(unframe_snapshot(b"abc"), Err(FormatError::MissingMagic));
}

#[test]
fn truncated_after_valid_magic() {
    let mut buf = SNAPSHOT_MAGIC.to_vec();
    buf.push(SNAPSHOT_FORMAT_VERSION);
    assert_eq!(unframe_snapshot(&buf), Err(FormatError::Truncated));
}

#[test]
fn unsupported_version_is_rejected() {
    let mut framed = frame_snapshot(CodecId::Json, b"x");
    framed[4] = 2;
    assert_eq!(unframe_snapshot(&framed), Err(FormatError::UnsupportedVersion(2)));
}

#[test]
fn unknown_codec_is_rejected() {
    let mut framed = frame_snapshot(CodecId::Json, b"x");
    framed[5] = 99;
    assert_eq!(unframe_snapshot(&framed), Err(FormatError::UnknownCodec(99)));
}

#[test]
fn codec_mismatch_is_detected() {
    let framed = frame_snapshot(CodecId::Json, b"x");
    assert_eq!(
        unframe_snapshot_checked(&framed, CodecId::Rkyv),
        Err(FormatError::CodecMismatch { expected: CodecId::Rkyv, found: CodecId::Json })
    );
    assert!(unframe_snapshot_checked(&framed, CodecId::Json).is_ok());
}

#[test]
fn codec_id_byte_roundtrip() {
    assert_eq!(CodecId::from_u8(1), Ok(CodecId::Json));
    assert_eq!(CodecId::from_u8(2), Ok(CodecId::Rkyv));
    assert_eq!(CodecId::from_u8(0), Err(FormatError::UnknownCodec(0)));
    assert_eq!(CodecId::Json.as_u8(), 1);
    assert_eq!(CodecId::Rkyv.as_u8(), 2);
}

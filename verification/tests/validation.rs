use sayiir::validation::{validate_instance_id, InvalidInstanceId, MAX_INSTANCE_ID_LEN};

#[test]
fn accepts_typical_ids() {
    validate_instance_id("a").unwrap();
    validate_instance_id("order-12345").unwrap();
    validate_instance_id("01HQK4P9P0V7S6XQGZ9N3M2RF7").unwrap();
}

#[test]
fn rejects_empty() {
    assert_eq!(validate_instance_id(""), Err(InvalidInstanceId::Empty));
}

#[test]
fn accepts_exactly_max() {
    let s = "x".repeat(MAX_INSTANCE_ID_LEN);
    validate_instance_id(&s).unwrap();
}

#[test]
fn rejects_one_byte_too_long() {
    let s = "x".repeat(MAX_INSTANCE_ID_LEN + 1);
    let err = validate_instance_id(&s).unwrap_err();
    assert_eq!(
        err,
        InvalidInstanceId::TooLong { len: MAX_INSTANCE_ID_LEN + 1, max: MAX_INSTANCE_ID_LEN }
    );
}

#[test]
fn length_counts_bytes() {
    let s = "é".repeat(MAX_INSTANCE_ID_LEN / 2 + 1);
    assert!(validate_instance_id(&s).is_err());
}

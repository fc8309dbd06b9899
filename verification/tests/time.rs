use sayiir::duration::Duration;
use sayiir::hash32::Hash32;
use sayiir::text::{decimal_text, pad_zeros, parse_signed, parse_unsigned};
use sayiir::time::{TimeDelta, Timestamp};
use sha2::Digest;

fn chrono_time(secs: i64, nanos: u32) -> chrono::DateTime<chrono::Utc> {
    chrono::DateTime::from_timestamp(secs, nanos).unwrap()
}

#[test]
fn times_are_written_and_read_back() {
    for (secs, nanos) in [(0, 0), (1_700_000_000, 5_000_000), (-1, 999_999_999), (951_782_400, 1)] {
        let t = Timestamp::from_parts(secs, nanos).unwrap();
        assert_eq!(t.to_rfc3339(), chrono_time(secs, nanos).to_rfc3339());
        let back = Timestamp::parse_from_rfc3339(&t.to_rfc3339()).unwrap();
        assert_eq!(back.timestamp(), secs);
        assert_eq!(back.subsec_nanos(), nanos);
    }
    assert!(Timestamp::parse_from_rfc3339("2023-11-14").is_none());
    let offset = Timestamp::parse_from_rfc3339("1970-01-01T01:00:00+01:00").unwrap();
    assert_eq!(offset.timestamp(), 0);
}

#[test]
fn times_have_limits() {
    let max = chrono::DateTime::<chrono::Utc>::MAX_UTC;
    let min = chrono::DateTime::<chrono::Utc>::MIN_UTC;
    assert!(Timestamp::from_parts(max.timestamp(), 0).is_some());
    assert!(Timestamp::from_parts(max.timestamp() + 1, 0).is_none());
    assert!(Timestamp::from_parts(min.timestamp(), 0).is_some());
    assert!(Timestamp::from_parts(min.timestamp() - 1, 0).is_none());
    let last = Timestamp::from_parts(max.timestamp(), 0).unwrap();
    assert!(last.checked_add_signed(TimeDelta::try_seconds(2).unwrap()).is_none());
}

#[test]
fn spans_are_added_like_chrono_adds_them() {
    for (secs, nanos, ms) in [(10, 0, 1500), (10, 900_000_000, 250), (10, 0, -1), (0, 1, -2_000)] {
        let t = Timestamp::from_parts(secs, nanos).unwrap();
        let r = t.checked_add_signed(TimeDelta::try_milliseconds(ms).unwrap()).unwrap();
        let c = chrono_time(secs, nanos)
            .checked_add_signed(chrono::TimeDelta::try_milliseconds(ms).unwrap())
            .unwrap();
        assert_eq!(r.timestamp(), c.timestamp());
        assert_eq!(r.subsec_nanos(), c.timestamp_subsec_nanos());
    }
    assert!(TimeDelta::try_seconds(i64::MAX).is_none());
}

#[test]
fn now_is_now() {
    let before = chrono::Utc::now().timestamp();
    let now = Timestamp::now().timestamp();
    let after = chrono::Utc::now().timestamp();
    assert!(before <= now && now <= after);
}

#[test]
fn durations_hold_their_milliseconds() {
    assert_eq!(Duration::from_millis(1_500).as_millis(), 1_500);
    assert_eq!(Duration::from_secs(2).as_millis64(), 2_000);
    assert_eq!(Duration::from_secs(2), Duration::from_millis(2_000));
}

#[test]
fn digests_are_those_of_sha256() {
    let ours = Hash32::sha256(b"payload");
    let mut hasher = sha2::Sha256::new();
    hasher.update(b"payload");
    let theirs = hasher.finalize();
    assert_eq!(ours.as_bytes().as_slice(), theirs.as_slice());
}

#[test]
fn numerals_are_written_and_read() {
    assert_eq!(decimal_text(0), "0");
    assert_eq!(decimal_text(u128::from(u64::MAX)), "18446744073709551615");
    assert_eq!(parse_unsigned("18446744073709551615"), Some(u64::MAX));
    assert_eq!(parse_unsigned("18446744073709551616"), None);
    assert_eq!(parse_unsigned("+7"), Some(7));
    assert_eq!(parse_unsigned("-7"), None);
    assert_eq!(parse_unsigned(""), None);
    assert_eq!(parse_signed("-9223372036854775808"), Some(i64::MIN));
    assert_eq!(parse_signed("9223372036854775808"), None);
    assert_eq!(pad_zeros("7".to_string(), 3), "007");
    assert_eq!(pad_zeros("1234".to_string(), 3), "1234");
}

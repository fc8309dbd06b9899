use sayiir::priority::Priority;

#[test]
fn default_is_normal() {
    assert_eq!(Priority::default(), Priority::Normal);
    assert_eq!(Priority::default().as_u8(), 3);
}

#[test]
fn round_trip() {
    for v in 1..=5 {
        let p = Priority::from_u8(v).unwrap();
        assert_eq!(p.as_u8(), v);
    }
}

#[test]
fn out_of_range() {
    assert!(Priority::from_u8(0).is_none());
    assert!(Priority::from_u8(6).is_none());
}

#[test]
fn ordering() {
    assert!(Priority::Critical < Priority::High);
    assert!(Priority::High < Priority::Normal);
    assert!(Priority::Normal < Priority::Low);
    assert!(Priority::Low < Priority::Minimal);
}

#[test]
fn the_order_is_that_of_the_numbers() {
    for a in 1..=5u8 {
        for b in 1..=5u8 {
            let p = Priority::from_u8(a).unwrap();
            let q = Priority::from_u8(b).unwrap();
            assert_eq!(p.partial_cmp(&q), Some(a.cmp(&b)));
            assert_eq!(p.cmp(&q), a.cmp(&b));
        }
    }
}

use assistant_core::clock::Timestamp;

#[test]
fn an_instant_renders_as_rfc3339_in_utc() {
    let at = Timestamp::from_unix(1_788_000_000, 0).expect("a representable instant");
    assert_eq!(at.to_rfc3339(), "2026-08-29T10:40:00+00:00");
    assert_eq!(at.seconds(), 1_788_000_000);
    assert_eq!(at.nanos(), 0);
    let fractional = Timestamp::from_unix(0, 500_000_000).expect("the epoch and a half");
    assert_eq!(fractional.to_rfc3339(), "1970-01-01T00:00:00.500+00:00");
}

#[test]
fn an_instant_chrono_refuses_is_no_timestamp() {
    assert!(Timestamp::from_unix(0, 1_500_000_000).is_none(), "a leap fraction off the minute's last second");
    assert!(Timestamp::from_unix(i64::MAX, 0).is_none(), "past chrono's range");
    assert!(Timestamp::from_unix(59, 1_500_000_000).is_some(), "a leap second is representable");
}

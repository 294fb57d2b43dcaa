use jarvisd::time::{
    formatted_or_epoch, parse_rfc3339, rfc3339, rfc3339_or_blank, truncate_to_micros, Timestamp,
};

#[test]
fn formats_the_unix_epoch() {
    assert_eq!(rfc3339(Timestamp { nanos: 0 }), "1970-01-01T00:00:00Z");
}

#[test]
fn truncates_sub_microsecond_precision() {
    let t = Timestamp { nanos: 1_500_500_999 };
    assert_eq!(truncate_to_micros(t), Timestamp { nanos: 1_500_500_000 });
}

#[test]
fn a_pre_epoch_time_is_left_untouched() {
    let before_epoch = Timestamp { nanos: -1_000_000_000 };
    assert_eq!(truncate_to_micros(before_epoch), before_epoch);
}

#[test]
fn a_time_is_written_and_read_back() {
    let t = Timestamp { nanos: 1_700_000_000_123_456_000 };
    let text = rfc3339(t);
    assert_eq!(text, "2023-11-14T22:13:20.123456Z");
    assert_eq!(parse_rfc3339(&text), Some(t));
    // An offset names the same instant.
    assert_eq!(
        parse_rfc3339("2023-11-14T23:13:20.123456+01:00"),
        Some(t)
    );
    assert_eq!(parse_rfc3339("tomorrow"), None);
}

#[test]
fn a_time_out_of_range_has_a_sentinel_or_is_blank() {
    let far = Timestamp { nanos: i128::MAX };
    assert_eq!(rfc3339(far), "1970-01-01T00:00:00Z");
    assert_eq!(rfc3339_or_blank(far), "");
    assert_eq!(formatted_or_epoch(None), "1970-01-01T00:00:00Z");
    assert_eq!(formatted_or_epoch(Some("x".to_owned())), "x");
    assert_eq!(rfc3339_or_blank(Timestamp { nanos: 0 }), "1970-01-01T00:00:00Z");
}

#[test]
fn truncating_twice_changes_nothing() {
    let t = Timestamp { nanos: 999_999 };
    let once = truncate_to_micros(t);
    assert_eq!(once, Timestamp { nanos: 999_000 });
    assert_eq!(truncate_to_micros(once), once);
}

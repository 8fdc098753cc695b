use fasttq::time_format::{
    deserialize_datetime, serialize_datetime, trim_plus_zero, TimeError, Timestamp,
};

#[test]
fn epoch_is_written_in_iso8601() {
    let text = serialize_datetime(&Timestamp { unix_nanos: 0 }).unwrap();
    assert_eq!(text, "1970-01-01T00:00:00.000000000Z");
}

#[test]
fn instant_with_nanoseconds_is_written_in_full() {
    let instant = Timestamp {
        unix_nanos: 1_700_000_000_123_456_789,
    };
    let text = serialize_datetime(&instant).unwrap();
    assert_eq!(text, "2023-11-14T22:13:20.123456789Z");
}

#[test]
fn instant_out_of_range_cannot_be_written() {
    let instant = Timestamp {
        unix_nanos: i128::MAX,
    };
    assert_eq!(serialize_datetime(&instant), Err(TimeError::Unformattable));
}

#[test]
fn written_instant_is_read_back() {
    for unix_nanos in [0i128, 1, 1_700_000_000_123_456_789, -86_400_000_000_000] {
        let text = serialize_datetime(&Timestamp { unix_nanos }).unwrap();
        assert_eq!(deserialize_datetime(&text), Ok(Timestamp { unix_nanos }));
    }
}

#[test]
fn offset_is_read_as_an_instant() {
    assert_eq!(
        deserialize_datetime("1970-01-01T01:00:00+01:00"),
        Ok(Timestamp { unix_nanos: 0 })
    );
}

#[test]
fn garbage_cannot_be_read() {
    assert_eq!(deserialize_datetime("yesterday"), Err(TimeError::Unparsable));
    assert_eq!(deserialize_datetime(""), Err(TimeError::Unparsable));
}

#[test]
fn leading_plus_zero_is_trimmed() {
    assert_eq!(trim_plus_zero("+002024-01-01"), "2024-01-01");
    assert_eq!(trim_plus_zero("+00+002024"), "2024");
    assert_eq!(trim_plus_zero("+00"), "");
    assert_eq!(trim_plus_zero(""), "");
    assert_eq!(trim_plus_zero("+0"), "+0");
    assert_eq!(trim_plus_zero("2024+00"), "2024+00");
    assert_eq!(trim_plus_zero("+01:00"), "+01:00");
    assert_eq!(trim_plus_zero("é+00"), "é+00");
    assert_eq!(trim_plus_zero("+00é"), "é");
}

#[test]
fn now_can_be_written() {
    let now = Timestamp::now();
    assert!(now.unix_nanos > 1_600_000_000_000_000_000);
    assert!(serialize_datetime(&now).is_ok());
}

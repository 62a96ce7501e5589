use plam_event::event::Event;
use plam_event::timestamp::{
    date_from_found, rfc_string_with, timestamp_from_parsed, timestamp_with, CivilDate, Precision,
    Timestamp, TimestampError,
};

#[test]
fn compact_timestamp_gives_the_instant() {
    let t = Event::dt_from_str("20240615T140000Z").expect("instant");
    assert_eq!(t, Timestamp { secs: 1718460000, nanos: 0 });
    let expected = chrono::DateTime::parse_from_rfc3339("2024-06-15T14:00:00Z").unwrap();
    assert_eq!(t.secs, expected.timestamp());
    assert_eq!(t.nanos, expected.timestamp_subsec_nanos());
    let back = chrono::DateTime::from_timestamp(t.secs, t.nanos).unwrap();
    assert_eq!(back.to_rfc3339(), "2024-06-15T14:00:00+00:00");
}

#[test]
fn rfc_text_is_cut_by_positions() {
    assert_eq!(Event::date_str_to_rfc_string("20240615T140000Z"), "2024-06-15T14:00:00.0Z");
    assert_eq!(Event::date_str_to_rfc_string("20231231X235959"), "2023-12-31T23:59:59.0Z");
    assert_eq!(Event::date_str_to_rfc_string("abcdefgh.ijklmnopq"), "abcd-ef-ghTij:kl:mn.0Z");
    assert_eq!(rfc_string_with("20240615T14", Precision::Hour), "2024-06-15T14:00:00.0Z");
    assert_eq!(rfc_string_with("20240615T143059Z", Precision::Hour), "2024-06-15T14:00:00.0Z");
    assert_eq!(rfc_string_with("20240615T143059Z", Precision::Second), "2024-06-15T14:30:59.0Z");
}

#[test]
fn hour_precision_drops_minutes_and_seconds() {
    let t = timestamp_with("20240615T143059Z", Precision::Hour).expect("instant");
    assert_eq!(t, Timestamp { secs: 1718460000, nanos: 0 });
    let t = timestamp_with("20240615T14", Precision::Hour).expect("instant");
    assert_eq!(t.secs, 1718460000);
    let t = timestamp_with("20240615T14xx", Precision::Hour).expect("instant");
    assert_eq!(t.secs, 1718460000);
    assert_eq!(timestamp_with("20240615T1", Precision::Hour), Err(TimestampError::TooShort));
}

#[test]
fn short_timestamp_is_refused() {
    assert_eq!(Event::dt_from_str(""), Err(TimestampError::TooShort));
    assert_eq!(Event::dt_from_str("20240615"), Err(TimestampError::TooShort));
    assert_eq!(Event::dt_from_str("20240615T14000"), Err(TimestampError::TooShort));
    assert!(Event::dt_from_str("20240615T140000").is_ok());
}

#[test]
fn non_digit_field_is_refused() {
    assert_eq!(Event::dt_from_str("2024061xT140000Z"), Err(TimestampError::NotDigits));
    assert_eq!(Event::dt_from_str("20240615T14000Z0"), Err(TimestampError::NotDigits));
    assert_eq!(Event::dt_from_str("-0240615T140000Z"), Err(TimestampError::NotDigits));
    assert_eq!(Event::dt_from_str("2024\u{663}615T140000Z"), Err(TimestampError::NotDigits));
    assert!(Event::dt_from_str("20240615?140000Z").is_ok());
}

#[test]
fn digits_that_name_no_date_are_refused() {
    assert_eq!(Event::dt_from_str("20241315T140000Z"), Err(TimestampError::Invalid));
    assert_eq!(Event::dt_from_str("20240230T140000Z"), Err(TimestampError::Invalid));
    assert_eq!(Event::dt_from_str("20240615T250000Z"), Err(TimestampError::Invalid));
    assert_eq!(Event::dt_from_str("20240615T146000Z"), Err(TimestampError::Invalid));
    assert_eq!(Event::dt_from_str("20230229T000000Z"), Err(TimestampError::Invalid));
    assert!(Event::dt_from_str("20240229T000000Z").is_ok());
}

#[test]
fn leap_second_is_kept_in_the_nanoseconds() {
    let t = Event::dt_from_str("20161231T235960Z").expect("instant");
    assert_eq!(t, Timestamp { secs: 1483228799, nanos: 1_000_000_000 });
    let before = Event::dt_from_str("20161231T235959Z").unwrap();
    assert!(before.is_before(&t));
    assert!(!t.is_before(&before));
    assert!(!t.is_before(&t));
}

#[test]
fn instants_are_ordered_by_seconds_then_nanoseconds() {
    let a = Timestamp { secs: -5, nanos: 7 };
    let b = Timestamp { secs: 3, nanos: 0 };
    let c = Timestamp { secs: 3, nanos: 1 };
    assert!(a.is_before(&b));
    assert!(b.is_before(&c));
    assert!(!c.is_before(&b));
    assert!(!b.is_before(&a));
    assert!(!b.is_before(&b));
}

#[test]
fn civil_date_follows_the_offset() {
    let t = Timestamp { secs: 1704069000, nanos: 0 };
    assert_eq!(t.date_utc(), Ok(CivilDate { year: 2024, month: 1, day: 1 }));
    assert_eq!(t.date_at(0), Ok(CivilDate { year: 2024, month: 1, day: 1 }));
    assert_eq!(t.date_at(-3600), Ok(CivilDate { year: 2023, month: 12, day: 31 }));
    assert_eq!(t.date_at(23 * 3600 + 1800), Ok(CivilDate { year: 2024, month: 1, day: 2 }));
    let epoch = Timestamp { secs: 0, nanos: 0 };
    assert_eq!(epoch.date_utc(), Ok(CivilDate { year: 1970, month: 1, day: 1 }));
    assert_eq!(epoch.date_at(-1), Ok(CivilDate { year: 1969, month: 12, day: 31 }));
}

#[test]
fn date_out_of_range_is_refused() {
    let t = Timestamp { secs: 0, nanos: 0 };
    assert_eq!(t.date_at(86_400), Err(TimestampError::OutOfRange));
    assert_eq!(t.date_at(-86_400), Err(TimestampError::OutOfRange));
    assert!(t.date_at(86_399).is_ok());
    let far = Timestamp { secs: i64::MAX, nanos: 0 };
    assert_eq!(far.date_utc(), Err(TimestampError::OutOfRange));
    let far = Timestamp { secs: i64::MIN, nanos: 0 };
    assert_eq!(far.date_utc(), Err(TimestampError::OutOfRange));
}

#[test]
fn parsed_and_found_values_are_taken_over() {
    assert_eq!(timestamp_from_parsed(Some((12, 34))), Ok(Timestamp { secs: 12, nanos: 34 }));
    assert_eq!(timestamp_from_parsed(None), Err(TimestampError::Invalid));
    assert_eq!(date_from_found(Some((1999, 12, 31))), Ok(CivilDate { year: 1999, month: 12, day: 31 }));
    assert_eq!(date_from_found(None), Err(TimestampError::OutOfRange));
}

#[test]
fn event_instants_come_from_start_and_creation() {
    let mut ev = Event::default();
    ev.dtstart = "20240615T140000Z".to_string();
    ev.dtstamp = "20200101T000000Z".to_string();
    ev.created = "20240305T090000Z".to_string();
    assert_eq!(ev.date(), Ok(Timestamp { secs: 1718460000, nanos: 0 }));
    assert_eq!(ev.date(), Event::dt_from_str(&ev.dtstart));
    assert_eq!(ev.created(), Ok(Timestamp { secs: 1709629200, nanos: 0 }));
    ev.created = "20240305".to_string();
    assert_eq!(ev.created(), Err(TimestampError::TooShort));
    ev.dtstart = String::new();
    assert_eq!(ev.date(), Err(TimestampError::TooShort));
    ev.dtstart = "20240615".to_string();
    assert_eq!(ev.date(), Err(TimestampError::TooShort));
}

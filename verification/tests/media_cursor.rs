use base64::Engine;
use chrono::{NaiveDate, NaiveDateTime};
use hoarder::application::graphql::media::MediumCursor;
use hoarder::application::graphql::tags::CursorError;
use hoarder::domain::entity::media::MediumId;

fn datetime(y: i32, mo: u32, d: u32, h: u32, mi: u32, s: u32, ms: u32) -> NaiveDateTime {
    NaiveDate::from_ymd_opt(y, mo, d).unwrap().and_hms_milli_opt(h, mi, s, ms).unwrap()
}

fn base64_of(s: &str) -> String {
    base64::engine::general_purpose::STANDARD.encode(s.as_bytes())
}

const ID: u128 = 0x77777777_7777_7777_7777_777777777777;

#[test]
fn medium_cursor_encodes_time_and_id() {
    let cursor = MediumCursor::new(datetime(2022, 6, 1, 12, 34, 56, 0), ID);
    assert_eq!(cursor.encode_cursor(), base64_of("2022-06-01T12:34:56\u{0}77777777-7777-7777-7777-777777777777"));
}

#[test]
fn medium_cursor_encodes_fraction_of_second() {
    let cursor = MediumCursor::new(datetime(2022, 6, 1, 12, 34, 56, 250), ID);
    assert_eq!(cursor.encode_cursor(), base64_of("2022-06-01T12:34:56.250\u{0}77777777-7777-7777-7777-777777777777"));
}

#[test]
fn medium_cursor_round_trip() {
    let created_at = datetime(2023, 1, 31, 23, 59, 59, 999);
    let text = MediumCursor::new(created_at, ID).encode_cursor();
    let (actual_time, actual_id) = MediumCursor::decode_cursor(&text).ok().unwrap().into_inner();
    assert_eq!(actual_time, created_at);
    assert_eq!(actual_id, MediumId(ID));
}

#[test]
fn medium_cursor_decode_errors() {
    assert_eq!(MediumCursor::decode_cursor("@@@").err(), Some(CursorError::Base64));
    assert_eq!(
        MediumCursor::decode_cursor(&base64::engine::general_purpose::STANDARD.encode([0xffu8, 0x00])).err(),
        Some(CursorError::Utf8),
    );
    assert_eq!(MediumCursor::decode_cursor(&base64_of("2022-06-01T12:34:56")).err(), Some(CursorError::InvalidCursor));
    assert_eq!(
        MediumCursor::decode_cursor(&base64_of("yesterday\u{0}77777777-7777-7777-7777-777777777777")).err(),
        Some(CursorError::DateTime),
    );
    assert_eq!(MediumCursor::decode_cursor(&base64_of("2022-06-01T12:34:56\u{0}seven")).err(), Some(CursorError::Uuid));
}

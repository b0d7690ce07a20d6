use photo_sort::error::TimestampError;
use photo_sort::timestamp::check_sort_key;
use photo_sort::timestamp::has_date_time_shape;
use photo_sort::timestamp::has_offset_shape;
use photo_sort::timestamp::has_sort_key_shape;
use photo_sort::timestamp::parse_date_time;
use photo_sort::timestamp::KEY_FORMAT;
use photo_sort::timestamp::PARSE_FORMAT;

fn key(text: &str) -> Result<String, TimestampError> {
    Ok(text.to_string())
}

const MALFORMED: Result<String, TimestampError> = Err(TimestampError::MalformedTimestamp);

#[test]
fn normalize_converts_local_time_to_utc() {
    assert_eq!(parse_date_time("2023-07-04 10:15:30", "+02:00"), key("20230704081530"));
}

#[test]
fn normalize_gives_the_same_key_every_time() {
    let first = parse_date_time("2023-07-04 10:15:30", "+02:00");
    let second = parse_date_time("2023-07-04 10:15:30", "+02:00");
    assert_eq!(first, second);
    assert_eq!(second, key("20230704081530"));
}

#[test]
fn normalize_with_zero_offset_keeps_the_fields() {
    assert_eq!(parse_date_time("2023-07-04 23:45:00", "+00:00"), key("20230704234500"));
    assert_eq!(parse_date_time("2023-07-04 23:45:00", "-00:00"), key("20230704234500"));
}

#[test]
fn normalize_moves_to_the_day_before() {
    assert_eq!(parse_date_time("2023-07-05 00:30:00", "+02:00"), key("20230704223000"));
}

#[test]
fn normalize_moves_to_the_next_year() {
    assert_eq!(parse_date_time("2023-12-31 23:30:00", "-05:00"), key("20240101043000"));
}

#[test]
fn normalize_applies_minutes_of_the_offset() {
    assert_eq!(parse_date_time("2023-07-04 10:15:30", "+05:45"), key("20230704043030"));
    assert_eq!(parse_date_time("2023-07-04 10:15:30", "-03:30"), key("20230704134530"));
}

#[test]
fn normalize_knows_leap_years() {
    assert_eq!(parse_date_time("2024-02-29 12:00:00", "+00:00"), key("20240229120000"));
    assert_eq!(parse_date_time("2024-03-01 00:30:00", "+01:00"), key("20240229233000"));
    assert_eq!(parse_date_time("2023-02-29 12:00:00", "+00:00"), MALFORMED);
    assert_eq!(parse_date_time("1900-02-29 12:00:00", "+00:00"), MALFORMED);
    assert_eq!(parse_date_time("2000-02-29 12:00:00", "+00:00"), key("20000229120000"));
}

#[test]
fn normalize_pads_small_years_with_zeros() {
    assert_eq!(parse_date_time("0042-03-04 05:06:07", "+00:00"), key("00420304050607"));
}

#[test]
fn keys_order_by_instant_not_by_local_time() {
    let late_evening = parse_date_time("2023-07-04 23:00:00", "+02:00").unwrap();
    let after_midnight = parse_date_time("2023-07-05 00:30:00", "+02:00").unwrap();
    let utc_evening = parse_date_time("2023-07-04 23:45:00", "+00:00").unwrap();
    assert_eq!(late_evening, "20230704210000");
    assert_eq!(after_midnight, "20230704223000");
    assert_eq!(utc_evening, "20230704234500");
    assert!(late_evening < after_midnight);
    assert!(after_midnight < utc_evening);
}

#[test]
fn normalize_rejects_impossible_fields() {
    assert_eq!(parse_date_time("2023-13-40 99:99:99", "+02:00"), MALFORMED);
}

#[test]
fn normalize_rejects_each_field_out_of_range() {
    assert_eq!(parse_date_time("2023-00-10 10:00:00", "+02:00"), MALFORMED);
    assert_eq!(parse_date_time("2023-13-10 10:00:00", "+02:00"), MALFORMED);
    assert_eq!(parse_date_time("2023-04-00 10:00:00", "+02:00"), MALFORMED);
    assert_eq!(parse_date_time("2023-04-31 10:00:00", "+02:00"), MALFORMED);
    assert_eq!(parse_date_time("2023-04-30 24:00:00", "+02:00"), MALFORMED);
    assert_eq!(parse_date_time("2023-04-30 10:60:00", "+02:00"), MALFORMED);
    assert_eq!(parse_date_time("2023-04-30 10:00:61", "+02:00"), MALFORMED);
}

#[test]
fn normalize_rejects_offsets_out_of_range() {
    assert_eq!(parse_date_time("2023-07-04 10:15:30", "+02:60"), MALFORMED);
    assert_eq!(parse_date_time("2023-07-04 10:15:30", "+24:00"), MALFORMED);
    assert_eq!(parse_date_time("2023-07-04 10:15:30", "+23:59"), key("20230703101630"));
}

#[test]
fn normalize_rejects_a_date_time_of_another_shape() {
    assert_eq!(parse_date_time("2023-7-4 10:15:30", "+02:00"), MALFORMED);
    assert_eq!(parse_date_time("2023-07-04T10:15:30", "+02:00"), MALFORMED);
    assert_eq!(parse_date_time("2023:07:04 10:15:30", "+02:00"), MALFORMED);
    assert_eq!(parse_date_time("2023-07-04  10:15:30", "+02:00"), MALFORMED);
    assert_eq!(parse_date_time(" 2023-07-04 10:15:30", "+02:00"), MALFORMED);
    assert_eq!(parse_date_time("2023-07-04 10:15:30 ", "+02:00"), MALFORMED);
    assert_eq!(parse_date_time("2023-07-04 10:15", "+02:00"), MALFORMED);
    assert_eq!(parse_date_time("+2023-07-04 10:15:30", "+02:00"), MALFORMED);
    assert_eq!(parse_date_time("12023-07-04 10:15:30", "+02:00"), MALFORMED);
    assert_eq!(parse_date_time("unknown", "+02:00"), MALFORMED);
    assert_eq!(parse_date_time("", "+02:00"), MALFORMED);
}

#[test]
fn normalize_rejects_an_offset_of_another_shape() {
    assert_eq!(parse_date_time("2023-07-04 10:15:30", "+0200"), MALFORMED);
    assert_eq!(parse_date_time("2023-07-04 10:15:30", "02:00"), MALFORMED);
    assert_eq!(parse_date_time("2023-07-04 10:15:30", "+2:00"), MALFORMED);
    assert_eq!(parse_date_time("2023-07-04 10:15:30", "+02:00 "), MALFORMED);
    assert_eq!(parse_date_time("2023-07-04 10:15:30", "\"+02:00\""), MALFORMED);
    assert_eq!(parse_date_time("2023-07-04 10:15:30", "Z"), MALFORMED);
    assert_eq!(parse_date_time("2023-07-04 10:15:30", "\u{2212}02:00"), MALFORMED);
    assert_eq!(parse_date_time("2023-07-04 10:15:30", ""), MALFORMED);
}

#[test]
fn normalize_rejects_digits_outside_ascii() {
    assert_eq!(parse_date_time("\u{ff12}023-07-04 10:15:30", "+02:00"), MALFORMED);
    assert_eq!(parse_date_time("2023-07-04 10:15:30", "+0\u{0662}:00"), MALFORMED);
}

#[test]
fn normalize_rejects_an_instant_outside_four_digit_years() {
    assert_eq!(parse_date_time("0000-01-01 00:00:00", "+02:00"), MALFORMED);
    assert_eq!(parse_date_time("9999-12-31 23:00:00", "-02:00"), MALFORMED);
    assert_eq!(parse_date_time("0000-01-01 00:00:00", "-02:00"), key("00000101020000"));
    assert_eq!(parse_date_time("9999-12-31 23:00:00", "+02:00"), key("99991231210000"));
}

#[test]
fn normalize_keeps_a_leap_second() {
    assert_eq!(parse_date_time("2023-07-04 10:15:60", "+02:00"), key("20230704081560"));
}

#[test]
fn check_sort_key_accepts_fourteen_digits() {
    assert_eq!(check_sort_key("20230704081530".to_string()), key("20230704081530"));
    assert_eq!(check_sort_key("00000000000000".to_string()), key("00000000000000"));
}

#[test]
fn check_sort_key_rejects_anything_else() {
    assert_eq!(check_sort_key("-00011231220000".to_string()), MALFORMED);
    assert_eq!(check_sort_key("+100000101010000".to_string()), MALFORMED);
    assert_eq!(check_sort_key("2023070408153".to_string()), MALFORMED);
    assert_eq!(check_sort_key("202307040815300".to_string()), MALFORMED);
    assert_eq!(check_sort_key("2023070408153x".to_string()), MALFORMED);
    assert_eq!(check_sort_key("2023-07-04 08:15:30".to_string()), MALFORMED);
    assert_eq!(check_sort_key(String::new()), MALFORMED);
}

#[test]
fn shapes_are_recognized() {
    assert!(has_date_time_shape("2023-07-04 10:15:30"));
    assert!(has_date_time_shape("2023-13-40 99:99:99"));
    assert!(!has_date_time_shape("2023-07-04 10:15:3"));
    assert!(!has_date_time_shape("2023-07-04-10:15:30"));
    assert!(!has_date_time_shape("2023-07-04 10.15.30"));
    assert!(has_offset_shape("+02:00"));
    assert!(has_offset_shape("-11:30"));
    assert!(has_offset_shape("+99:99"));
    assert!(!has_offset_shape(" 02:00"));
    assert!(!has_offset_shape("+02-00"));
    assert!(!has_offset_shape("+02:0"));
    assert!(has_sort_key_shape("20230704081530"));
    assert!(!has_sort_key_shape("2023070408153 "));
}

#[test]
fn formats_are_those_of_the_two_texts() {
    assert_eq!(PARSE_FORMAT, "%F %T %:z");
    assert_eq!(KEY_FORMAT, "%Y%m%d%H%M%S");
}

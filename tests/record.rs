use weight_reader::{format_record, Timestamp};

fn stamp(year: u32, month: u32, day: u32, hour: u32, minute: u32, second: u32) -> Timestamp {
    Timestamp { year, month, day, hour, minute, second }
}

#[test]
fn record_has_header_and_padded_fields() {
    let t = stamp(2026, 3, 7, 9, 5, 1);
    assert!(t.is_valid());
    assert_eq!(format_record(&t, 24), "Date, Time, Weight\n07-03-2026, 09:05:01, 24\n");
}

#[test]
fn record_of_zero_and_large_weights() {
    let t = stamp(987, 12, 31, 23, 59, 60);
    assert_eq!(format_record(&t, 0), "Date, Time, Weight\n31-12-0987, 23:59:60, 0\n");
    assert_eq!(format_record(&t, 4294967295), "Date, Time, Weight\n31-12-0987, 23:59:60, 4294967295\n");
    assert_eq!(format_record(&stamp(2009, 7, 6, 1, 13, 39), 1030), "Date, Time, Weight\n06-07-2009, 01:13:39, 1030\n");
}

#[test]
fn timestamp_validity() {
    assert!(stamp(0, 1, 1, 0, 0, 0).is_valid());
    assert!(!stamp(10000, 1, 1, 0, 0, 0).is_valid());
    assert!(!stamp(2026, 13, 1, 0, 0, 0).is_valid());
    assert!(!stamp(2026, 0, 1, 0, 0, 0).is_valid());
    assert!(!stamp(2026, 1, 32, 0, 0, 0).is_valid());
    assert!(!stamp(2026, 1, 1, 24, 0, 0).is_valid());
    assert!(!stamp(2026, 1, 1, 0, 60, 0).is_valid());
    assert!(!stamp(2026, 1, 1, 0, 0, 61).is_valid());
}

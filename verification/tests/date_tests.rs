use page_scaffold::date::{datetime_from_fields, format_date, format_datetime, Date};

#[test]
fn date_renders_iso_sortable() {
    let d = Date { year: 2024, month: 3, day: 5 };
    assert_eq!(format_date(&d), "2024-03-05");
}

#[test]
fn date_zero_pads_small_year() {
    let d = Date { year: 87, month: 12, day: 31 };
    assert_eq!(format_date(&d), "0087-12-31");
}

#[test]
fn datetime_renders_full_timestamp() {
    let dt = datetime_from_fields(2024, 3, 5, 10, 30, 0).unwrap();
    assert_eq!(format_datetime(&dt), "2024-03-05T10:30:00");
}

#[test]
fn datetime_fields_round_trip() {
    let dt = datetime_from_fields(1999, 12, 31, 23, 59, 59).unwrap();
    assert_eq!(dt.date.year, 1999);
    assert_eq!(dt.date.month, 12);
    assert_eq!(dt.date.day, 31);
    assert_eq!(format_datetime(&dt), "1999-12-31T23:59:59");
}

#[test]
fn datetime_rejects_year_out_of_range() {
    assert!(datetime_from_fields(0, 3, 5, 10, 30, 0).is_none());
    assert!(datetime_from_fields(10000, 3, 5, 10, 30, 0).is_none());
    assert!(datetime_from_fields(-44, 3, 5, 10, 30, 0).is_none());
}

#[test]
fn datetime_rejects_bad_month_day_time() {
    assert!(datetime_from_fields(2024, 0, 5, 10, 30, 0).is_none());
    assert!(datetime_from_fields(2024, 13, 5, 10, 30, 0).is_none());
    assert!(datetime_from_fields(2024, 3, 0, 10, 30, 0).is_none());
    assert!(datetime_from_fields(2024, 3, 32, 10, 30, 0).is_none());
    assert!(datetime_from_fields(2024, 3, 5, 24, 30, 0).is_none());
    assert!(datetime_from_fields(2024, 3, 5, 10, 60, 0).is_none());
    assert!(datetime_from_fields(2024, 3, 5, 10, 30, 60).is_none());
}

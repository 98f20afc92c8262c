use isek_rs::helper::{
    dt_with_timezone, due_date_day, format_due, format_ical_datetime, ical_datetime_to_chrono, DueDate,
};

// 2024-01-03 as chrono's day number from the common era.
const JAN_3_2024: i32 = 738888;

#[test]
fn date_resolves_to_utc_midnight() {
    let d = DueDate::Date { days_from_ce: JAN_3_2024 };
    assert_eq!(ical_datetime_to_chrono(&d), 1704240000);
    assert_eq!(due_date_day(&d), 19725);
}

#[test]
fn floating_and_utc_read_as_utc() {
    assert_eq!(ical_datetime_to_chrono(&DueDate::Floating { seconds: 1704283200 }), 1704283200);
    assert_eq!(ical_datetime_to_chrono(&DueDate::Utc { seconds: 1704283200 }), 1704283200);
}

#[test]
fn unknown_zone_reads_as_utc() {
    let d = DueDate::WithTimezone { date_time: 1704283200, tzid: "Not/AZone".to_string() };
    assert_eq!(ical_datetime_to_chrono(&d), 1704283200);
    assert_eq!(dt_with_timezone(1704283200, "Not/AZone"), None);
}

#[test]
fn known_zone_is_applied() {
    // 2024-01-03 12:00 in Berlin (UTC+1 in winter) is 11:00 UTC.
    let d = DueDate::WithTimezone { date_time: 1704283200, tzid: "Europe/Berlin".to_string() };
    assert_eq!(ical_datetime_to_chrono(&d), 1704283200 - 3600);
}

#[test]
fn ambiguous_wall_clock_takes_earliest_instant() {
    // 2024-10-27 02:30 happens twice in Berlin; the earlier one is 00:30 UTC.
    let local = 1729996200;
    assert_eq!(dt_with_timezone(local, "Europe/Berlin"), Some(local - 7200));
}

#[test]
fn day_of_instant_before_epoch_rounds_down() {
    assert_eq!(due_date_day(&DueDate::Utc { seconds: -1 }), -1);
    assert_eq!(due_date_day(&DueDate::Floating { seconds: 86399 }), 0);
}

#[test]
fn formats_dates_and_unknown_zones() {
    let d = DueDate::Date { days_from_ce: JAN_3_2024 };
    assert_eq!(format_ical_datetime(&d, "%Y-%m-%d", "%Y-%m-%d %H:%M"), "2024-01-03");
    let f = DueDate::Floating { seconds: 1704283200 };
    assert_eq!(format_ical_datetime(&f, "%Y-%m-%d", "%Y-%m-%d %H:%M"), "2024-01-03 12:00");
    let z = DueDate::WithTimezone { date_time: 1704283200, tzid: "Not/AZone".to_string() };
    assert_eq!(format_ical_datetime(&z, "%Y-%m-%d", "%Y-%m-%d %H:%M"), "2024-01-03 12:00 Not/AZone");
}

#[test]
fn invalid_pattern_gives_empty_text() {
    let d = DueDate::Date { days_from_ce: JAN_3_2024 };
    assert_eq!(format_ical_datetime(&d, "%Q", "%Y"), "");
}

#[test]
fn formats_utc_and_zoned_at_local_offset() {
    let u = DueDate::Utc { seconds: 1704283200 };
    assert_eq!(format_due(&u, "%Y-%m-%d", "%Y-%m-%d %H:%M", 3600), "2024-01-03 13:00");
    assert_eq!(format_due(&u, "%Y-%m-%d", "%H:%M %z", -18000), "07:00 -0500");
    // 12:00 in Berlin is 11:00 UTC, shown at UTC+2 as 13:00.
    let z = DueDate::WithTimezone { date_time: 1704283200, tzid: "Europe/Berlin".to_string() };
    assert_eq!(format_due(&z, "%Y-%m-%d", "%H:%M", 7200), "13:00");
    assert!(!format_ical_datetime(&u, "%Y-%m-%d", "%Y-%m-%d %H:%M").is_empty());
}

use kodo::date::{Date, Timestamp};
use kodo::timezone::TimeZoneMode;

fn noon(y: i32, m: u32, d: u32) -> Timestamp {
    Timestamp::from_date_hms(Date::from_ymd(y, m, d).unwrap(), 12, 0, 0).unwrap()
}

#[test]
fn parses_named_timezone() {
    let tz = TimeZoneMode::parse("America/New_York").expect("valid timezone");
    assert!(matches!(tz, TimeZoneMode::Named(_)));
}

#[test]
fn handles_dst_offsets_for_named_timezone() {
    let tz = TimeZoneMode::parse("America/New_York").expect("valid timezone");

    let winter = noon(2024, 1, 15);
    let summer = noon(2024, 7, 15);

    let winter_offset = tz.datetime(winter).local_minus_utc();
    let summer_offset = tz.datetime(summer).local_minus_utc();

    assert_ne!(winter_offset, summer_offset);
    assert_eq!(winter_offset, -5 * 3600);
    assert_eq!(summer_offset, -4 * 3600);
}

#[test]
fn parses_local_and_utc_in_any_case() {
    assert!(matches!(TimeZoneMode::parse("local"), Ok(TimeZoneMode::Local)));
    assert!(matches!(TimeZoneMode::parse("  LoCaL "), Ok(TimeZoneMode::Local)));
    assert!(matches!(TimeZoneMode::parse("UTC"), Ok(TimeZoneMode::Utc)));
    assert!(matches!(TimeZoneMode::parse("utc"), Ok(TimeZoneMode::Utc)));
}

#[test]
fn rejects_unknown_zone_with_message() {
    match TimeZoneMode::parse("Mars/Olympus") {
        Err(msg) => {
            assert_eq!(msg, "invalid timezone: Mars/Olympus. Use local, utc, or an IANA name like Asia/Tokyo");
        }
        Ok(_) => panic!("accepted an unknown zone"),
    }
    assert!(TimeZoneMode::parse("asia/tokyo").is_err());
}

#[test]
fn named_zone_dates_and_hours() {
    let tz = TimeZoneMode::parse("Asia/Tokyo").unwrap();
    // 2024-01-01 20:00 UTC is 2024-01-02 05:00 in Tokyo
    let t = Timestamp::from_date_hms(Date::from_ymd(2024, 1, 1).unwrap(), 20, 0, 0).unwrap();
    assert_eq!(tz.date_naive(t), Date::from_ymd(2024, 1, 2).unwrap());
    let z = tz.datetime(t);
    assert_eq!(z.hour(), 5);
    assert_eq!(z.weekday_from_monday(), 1);
    assert_eq!(TimeZoneMode::Utc.date_naive(t), Date::from_ymd(2024, 1, 1).unwrap());
    assert_eq!(TimeZoneMode::Utc.offset_at(t), 0);
}

#[test]
fn local_offset_is_within_a_day() {
    let off = TimeZoneMode::Local.offset_at(noon(2024, 6, 1));
    assert!(off > -86400 && off < 86400);
    assert!(TimeZoneMode::Local.now_date_naive().is_some());
}

#[test]
fn now_reads_the_clock_without_panicking() {
    let today = TimeZoneMode::Utc.now_date_naive().unwrap();
    assert!(today.year() >= 2024);
}

#[test]
fn named_zone_keeps_its_name() {
    match TimeZoneMode::parse(" America/New_York ").unwrap() {
        TimeZoneMode::Named(zone) => assert_eq!(zone.name(), "America/New_York"),
        _ => panic!("expected a named zone"),
    }
}

use kodo::date::{Date, DateRange, Days, Timestamp};
use kodo::stats::{ActivityStats, AnalysisResult, PeriodStats, TotalStats};
use kodo::timezone::TimeZoneMode;

fn ymd(y: i32, m: u32, d: u32) -> Date {
    Date::from_ymd(y, m, d).unwrap()
}

#[test]
fn test_days_creation() {
    let days = Days::new(7);
    assert_eq!(days.value(), 7);

    let days: Days = 30.into();
    assert_eq!(days.value(), 30);
}

#[test]
fn test_date_range_last_n_days() {
    let today = TimeZoneMode::Utc.now_date_naive().unwrap();
    let range = DateRange::last_n_days(Days::new(7), today);

    assert_eq!(range.to, today);
    assert!(range.from < range.to);
}

#[test]
fn last_n_days_spans_n_plus_one_days() {
    let today = ymd(2024, 3, 10);
    let range = DateRange::last_n_days(Days::new(7), today);
    assert_eq!(range.from, ymd(2024, 3, 3));
    assert_eq!(range.iter_days().len(), 8);
}

#[test]
fn test_date_range_contains() {
    let from = ymd(2024, 1, 1);
    let to = ymd(2024, 1, 31);
    let range = DateRange::new(from, to);

    assert!(range.contains(ymd(2024, 1, 15)));
    assert!(range.contains(from));
    assert!(range.contains(to));
    assert!(!range.contains(ymd(2023, 12, 31)));
    assert!(!range.contains(ymd(2024, 2, 1)));
}

#[test]
fn test_date_range_iter_days() {
    let from = ymd(2024, 1, 1);
    let to = ymd(2024, 1, 3);
    let range = DateRange::new(from, to);

    let days: Vec<_> = range.iter_days();
    assert_eq!(days.len(), 3);
    assert_eq!(days[0], from);
    assert_eq!(days[2], to);
}

#[test]
fn iter_days_crosses_month_and_leap_day() {
    let range = DateRange::new(ymd(2024, 2, 27), ymd(2024, 3, 2));
    let days = range.iter_days();
    assert_eq!(days.len(), 5);
    assert_eq!(days[2], ymd(2024, 2, 29));
    for w in days.windows(2) {
        assert_eq!(w[1].day, w[0].day + 1);
    }
}

#[test]
fn iter_days_single_day_and_inverted() {
    let d = ymd(2024, 5, 5);
    assert_eq!(DateRange::new(d, d).iter_days(), vec![d]);
    assert!(DateRange::new(ymd(2024, 1, 3), ymd(2024, 1, 1)).iter_days().is_empty());
}

#[test]
fn date_fields_and_text() {
    let d = ymd(2024, 1, 1);
    assert_eq!(d.day, 738886);
    assert_eq!(d.year(), 2024);
    assert_eq!(d.month(), 1);
    assert_eq!(d.iso_week(), (2024, 1));
    assert_eq!(d.format_ymd(), "2024-01-01");
    assert_eq!(d.weekday_from_monday(), 0);
    assert_eq!(ymd(2024, 1, 7).weekday_from_monday(), 6);
    assert_eq!(ymd(2021, 1, 3).iso_week(), (2020, 53));
    assert!(Date::from_ymd(2023, 2, 29).is_none());
    assert!(Date::from_day_number(i32::MAX).is_none());
}

#[test]
fn timestamp_dates_at_offsets() {
    let t = Timestamp::from_date_hms(ymd(2024, 1, 1), 23, 30, 0).unwrap();
    assert_eq!(t.local_date(0), ymd(2024, 1, 1));
    assert_eq!(t.local_date(3600), ymd(2024, 1, 2));
    assert_eq!(t.local_hour(0), 23);
    assert_eq!(t.local_hour(3600), 0);
    let early = Timestamp::from_date_hms(ymd(1960, 6, 1), 1, 0, 0).unwrap();
    assert_eq!(early.local_date(-7200), ymd(1960, 5, 31));
    assert_eq!(early.local_hour(-7200), 23);
    assert!(Timestamp::from_date_hms(ymd(2024, 1, 1), 24, 0, 0).is_none());
}

#[test]
fn test_period_stats_merge() {
    let mut stats1 = PeriodStats { commits: 5, additions: 100, deletions: 20, ..Default::default() };
    stats1.update_net_lines();

    let stats2 = PeriodStats { commits: 3, additions: 50, deletions: 10, ..Default::default() };

    stats1.merge(&stats2);

    assert_eq!(stats1.commits, 8);
    assert_eq!(stats1.additions, 150);
    assert_eq!(stats1.deletions, 30);
    assert_eq!(stats1.net_lines, 120);
}

#[test]
fn net_lines_negative_after_merge() {
    let mut a = PeriodStats { additions: 10, deletions: 20, ..Default::default() };
    a.update_net_lines();
    assert_eq!(a.net_lines, -10);
    let b = PeriodStats { additions: 0, deletions: 30, ..Default::default() };
    a.merge(&b);
    assert_eq!(a.net_lines, -40);
    assert_eq!(a.calculate_net_lines(), -40);
}

#[test]
fn period_stats_new_labels_the_day() {
    let p = PeriodStats::new(ymd(2024, 3, 9));
    assert_eq!(p.label, "2024-03-09");
    assert_eq!(p.commits, 0);
    assert_eq!(p.net_lines, 0);
    let q = PeriodStats::with_label(ymd(2024, 3, 9), "2024-W10".to_string());
    assert_eq!(q.label, "2024-W10");
}

#[test]
fn test_total_stats_from_periods() {
    let periods = vec![
        PeriodStats { commits: 5, additions: 100, deletions: 20, files_changed: 10, ..Default::default() },
        PeriodStats { commits: 3, additions: 50, deletions: 10, files_changed: 5, ..Default::default() },
    ];

    let total = TotalStats::from_periods(&periods);

    assert_eq!(total.commits, 8);
    assert_eq!(total.additions, 150);
    assert_eq!(total.deletions, 30);
    assert_eq!(total.net_lines, 120);
    assert_eq!(total.files_changed, 15);
}

#[test]
fn analysis_result_new_sums_totals() {
    let from = ymd(2024, 1, 1);
    let to = ymd(2024, 1, 7);
    let result = AnalysisResult::new("test-repo".to_string(), "daily".to_string(), from, to, vec![]);
    assert_eq!(result.repository, "test-repo");
    assert_eq!(result.from.format_ymd(), "2024-01-01");
    assert_eq!(result.total.commits, 0);
    assert_eq!(result.total.net_lines, 0);
}

#[test]
fn test_activity_stats_default() {
    let stats = ActivityStats::default();
    assert_eq!(stats.weekday, [0; 7]);
    assert_eq!(stats.hourly, [0; 24]);
}

#[test]
fn test_activity_stats_weekday_labels() {
    let labels = ActivityStats::weekday_labels();
    assert_eq!(labels.len(), 7);
    assert_eq!(labels[0], "Mon");
    assert_eq!(labels[6], "Sun");
}

#[test]
fn test_activity_stats_hour_labels() {
    let labels = ActivityStats::hour_labels();
    assert_eq!(labels.len(), 24);
    assert_eq!(labels[0], "0");
    assert_eq!(labels[23], "23");
}

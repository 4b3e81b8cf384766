use kodo::args::Period;
use kodo::collector::{
    aggregate_by_month, aggregate_by_week, aggregate_by_year, collect_activity_stats,
     collect_activity_stats_with_offsets, collect_stats,
    collect_stats_with_offsets, try_collect_stats, CommitInfo,
};
use kodo::date::{Date, DateRange, Timestamp};
use kodo::diff::{DiffStats, FileChange};
use kodo::stats::PeriodStats;
use kodo::timezone::TimeZoneMode;

fn ymd(y: i32, m: u32, d: u32) -> Date {
    Date::from_ymd(y, m, d).unwrap()
}

fn at(date: Date, h: u32, m: u32) -> Timestamp {
    Timestamp::from_date_hms(date, h, m, 0).unwrap()
}

fn make_commit(date: Date, additions: u64, deletions: u64) -> CommitInfo {
    CommitInfo {
        id: "abc1234".to_string(),
        timestamp: at(date, 12, 0),
        is_merge: false,
        diff: DiffStats::new(additions, deletions, 1),
    }
}

fn plain_commit(id: &str, timestamp: Timestamp) -> CommitInfo {
    CommitInfo { id: id.to_string(), timestamp, is_merge: false, diff: DiffStats::default() }
}

#[test]
fn test_collect_stats_empty() {
    let range = DateRange::new(ymd(2024, 1, 1), ymd(2024, 1, 3));

    let result = collect_stats("test", vec![], range, Period::Daily, None, &TimeZoneMode::Utc);

    assert_eq!(result.repository, "test");
    assert_eq!(result.stats.len(), 3); // 3 days with zeros
    assert_eq!(result.total.commits, 0);
}

#[test]
fn gap_filling_gives_zero_buckets_for_each_day() {
    let range = DateRange::new(ymd(2024, 1, 1), ymd(2024, 1, 3));
    let result = collect_stats("test", vec![], range, Period::Daily, None, &TimeZoneMode::Utc);
    let labels: Vec<&str> = result.stats.iter().map(|s| s.label.as_str()).collect();
    assert_eq!(labels, vec!["2024-01-01", "2024-01-02", "2024-01-03"]);
    for s in &result.stats {
        assert_eq!(s.commits, 0);
        assert_eq!(s.net_lines, 0);
    }
    assert_eq!(result.period, "daily");
}

#[test]
fn test_collect_stats_with_commits() {
    let date1 = ymd(2024, 1, 1);
    let date2 = ymd(2024, 1, 2);

    let commits = vec![make_commit(date1, 100, 10), make_commit(date1, 50, 5), make_commit(date2, 30, 3)];

    let range = DateRange::new(date1, date2);
    let result = collect_stats("test", commits, range, Period::Daily, None, &TimeZoneMode::Utc);

    assert_eq!(result.stats.len(), 2);
    assert_eq!(result.total.commits, 3);
    assert_eq!(result.total.additions, 180);
    assert_eq!(result.total.deletions, 18);
}

#[test]
fn daily_buckets_hold_each_days_commits() {
    let date1 = ymd(2024, 1, 1);
    let date2 = ymd(2024, 1, 2);
    let commits = vec![make_commit(date1, 100, 10), make_commit(date2, 30, 3), make_commit(date1, 50, 5)];
    let result = collect_stats("test", commits, DateRange::new(date1, date2), Period::Daily, None, &TimeZoneMode::Utc);

    let d1 = &result.stats[0];
    assert_eq!((d1.date, d1.commits, d1.additions, d1.deletions, d1.net_lines), (date1, 2, 150, 15, 135));
    let d2 = &result.stats[1];
    assert_eq!((d2.date, d2.commits, d2.additions, d2.deletions, d2.net_lines), (date2, 1, 30, 3, 27));
    assert_eq!(result.total.commits, 3);
    assert_eq!(result.total.additions, 180);
    assert_eq!(result.total.deletions, 18);
    assert_eq!(result.total.net_lines, 162);
}

#[test]
fn commits_outside_range_are_ignored() {
    let commits = vec![make_commit(ymd(2023, 12, 31), 5, 5), make_commit(ymd(2024, 1, 2), 7, 1)];
    let range = DateRange::new(ymd(2024, 1, 1), ymd(2024, 1, 2));
    let result = collect_stats("test", commits, range, Period::Daily, None, &TimeZoneMode::Utc);
    assert_eq!(result.stats.len(), 2);
    assert_eq!(result.total.commits, 1);
    assert_eq!(result.total.additions, 7);
}

#[test]
fn test_collect_stats_with_extension_filter() {
    let date = ymd(2024, 1, 1);

    let mut diff = DiffStats::default();
    diff.add_file(FileChange::new("src/main.rs".to_string(), 100, 10));
    diff.add_file(FileChange::new("src/lib.ts".to_string(), 50, 5));
    diff.add_file(FileChange::new("README.md".to_string(), 20, 2));

    let commit = CommitInfo { id: "abc1234".to_string(), timestamp: at(date, 12, 0), is_merge: false, diff };

    let range = DateRange::new(date, date);
    let extensions = vec!["rs".to_string()];
    let result = collect_stats("test", vec![commit], range, Period::Daily, Some(&extensions), &TimeZoneMode::Utc);

    // Only .rs file should be counted
    assert_eq!(result.total.additions, 100);
    assert_eq!(result.total.deletions, 10);
    assert_eq!(result.total.files_changed, 1);
    assert_eq!(result.stats[0].commits, 1);
}

#[test]
fn filter_excluding_everything_keeps_commit_count() {
    let date = ymd(2024, 1, 1);
    let mut diff = DiffStats::default();
    diff.add_file(FileChange::new("README.md".to_string(), 20, 2));
    let commit = CommitInfo { id: "a".to_string(), timestamp: at(date, 9, 0), is_merge: false, diff };
    let exts = vec!["rs".to_string()];
    let range = DateRange::new(date, date);
    let result = collect_stats("t", vec![commit], range, Period::Daily, Some(&exts), &TimeZoneMode::Utc);
    assert_eq!(result.total.commits, 1);
    assert_eq!(result.total.additions, 0);
    assert_eq!(result.total.files_changed, 0);
}

#[test]
fn empty_filter_equals_no_filter_on_consistent_diffs() {
    let date = ymd(2024, 1, 1);
    let two_files = || {
        let mut diff = DiffStats::default();
        diff.add_file(FileChange::new("a.rs".to_string(), 3, 1));
        diff.add_file(FileChange::new("b".to_string(), 4, 2));
        diff
    };
    let c1 = CommitInfo { id: "a".to_string(), timestamp: at(date, 9, 0), is_merge: false, diff: two_files() };
    let c2 = CommitInfo { id: "a".to_string(), timestamp: at(date, 9, 0), is_merge: false, diff: two_files() };
    let range = DateRange::new(date, date);
    let empty: Vec<String> = vec![];
    let r1 = collect_stats("t", vec![c1], range, Period::Daily, Some(&empty), &TimeZoneMode::Utc);
    let r2 = collect_stats("t", vec![c2], range, Period::Daily, None, &TimeZoneMode::Utc);
    assert_eq!(r1.total.additions, r2.total.additions);
    assert_eq!(r1.total.deletions, r2.total.deletions);
    assert_eq!(r1.total.files_changed, r2.total.files_changed);
    assert_eq!(r1.total.commits, r2.total.commits);
}

#[test]
fn test_aggregate_by_week() {
    let week1_day1 = ymd(2024, 1, 1); // Monday
    let week1_day2 = ymd(2024, 1, 2);
    let week2_day1 = ymd(2024, 1, 8); // Next Monday

    let daily = vec![
        PeriodStats { date: week1_day1, commits: 2, additions: 100, deletions: 10, ..Default::default() },
        PeriodStats { date: week1_day2, commits: 3, additions: 50, deletions: 5, ..Default::default() },
        PeriodStats { date: week2_day1, commits: 1, additions: 20, deletions: 2, ..Default::default() },
    ];

    let weekly = aggregate_by_week(daily);

    assert_eq!(weekly.len(), 2);
    // First week: 2 + 3 commits
    assert_eq!(weekly[0].commits, 5);
    // Second week: 1 commit
    assert_eq!(weekly[1].commits, 1);
    assert_eq!(weekly[0].label, "2024-W01");
    assert_eq!(weekly[1].label, "2024-W02");
    assert_eq!(weekly[0].date, week1_day1);
    assert_eq!(weekly[0].net_lines, 135);
}

#[test]
fn weekly_collect_gives_two_iso_weeks() {
    let commits = vec![
        make_commit(ymd(2024, 1, 1), 1, 0),
        make_commit(ymd(2024, 1, 2), 1, 0),
        make_commit(ymd(2024, 1, 8), 1, 0),
    ];
    let range = DateRange::new(ymd(2024, 1, 1), ymd(2024, 1, 8));
    let result = collect_stats("t", commits, range, Period::Weekly, None, &TimeZoneMode::Utc);
    assert_eq!(result.stats.len(), 2);
    assert_eq!(result.stats[0].commits, 2);
    assert_eq!(result.stats[1].commits, 1);
    assert_eq!(result.period, "weekly");
}

#[test]
fn test_aggregate_by_month() {
    let jan = ymd(2024, 1, 15);
    let feb = ymd(2024, 2, 15);

    let daily = vec![
        PeriodStats { date: jan, commits: 5, additions: 100, ..Default::default() },
        PeriodStats { date: feb, commits: 3, additions: 50, ..Default::default() },
    ];

    let monthly = aggregate_by_month(daily);

    assert_eq!(monthly.len(), 2);
    assert!(monthly[0].label.contains("2024-01"));
    assert!(monthly[1].label.contains("2024-02"));
}

#[test]
fn monthly_equals_sum_of_days_within_month() {
    let commits = vec![
        make_commit(ymd(2024, 3, 1), 10, 1),
        make_commit(ymd(2024, 3, 15), 20, 2),
        make_commit(ymd(2024, 3, 15), 5, 9),
        make_commit(ymd(2024, 3, 31), 1, 1),
    ];
    let range = DateRange::new(ymd(2024, 3, 1), ymd(2024, 3, 31));
    let daily = collect_stats("t", commits, range, Period::Daily, None, &TimeZoneMode::Utc);
    let commits = vec![
        make_commit(ymd(2024, 3, 31), 1, 1),
        make_commit(ymd(2024, 3, 15), 5, 9),
        make_commit(ymd(2024, 3, 1), 10, 1),
        make_commit(ymd(2024, 3, 15), 20, 2),
    ];
    let monthly = collect_stats("t", commits, range, Period::Monthly, None, &TimeZoneMode::Utc);
    assert_eq!(monthly.stats.len(), 1);
    let m = &monthly.stats[0];
    assert_eq!(m.label, "2024-03");
    assert_eq!(m.date, ymd(2024, 3, 1));
    assert_eq!(m.commits, daily.total.commits);
    assert_eq!(m.additions, daily.total.additions);
    assert_eq!(m.deletions, daily.total.deletions);
    assert_eq!(m.net_lines, 36 - 13);
}

#[test]
fn yearly_and_negative_years_are_labelled() {
    let daily = vec![
        PeriodStats { date: ymd(2023, 12, 31), commits: 1, ..Default::default() },
        PeriodStats { date: ymd(2024, 1, 1), commits: 2, ..Default::default() },
    ];
    let yearly = aggregate_by_year(daily);
    assert_eq!(yearly.len(), 2);
    assert_eq!(yearly[0].label, "2023");
    assert_eq!(yearly[1].label, "2024");
    let old = vec![PeriodStats { date: ymd(-5, 3, 1), commits: 1, ..Default::default() }];
    assert_eq!(aggregate_by_month(old)[0].label, "-5-03");
}

#[test]
fn offsets_move_commits_across_days() {
    let date = ymd(2024, 1, 1);
    let commits = vec![plain_commit("a", at(date, 23, 30))];
    let range = DateRange::new(date, ymd(2024, 1, 2));
    let utc = collect_stats_with_offsets("t", &commits, &vec![0], range, Period::Daily, None);
    assert_eq!(utc.stats[0].commits, 1);
    let east = collect_stats_with_offsets("t", &commits, &vec![3600], range, Period::Daily, None);
    assert_eq!(east.stats[0].commits, 0);
    assert_eq!(east.stats[1].commits, 1);
}

#[test]
fn try_collect_stats_checks_counters() {
    let date = ymd(2024, 1, 1);
    let range = DateRange::new(date, date);
    let ok = try_collect_stats("t", vec![make_commit(date, 1, 1)], range, Period::Daily, None, &TimeZoneMode::Utc);
    assert_eq!(ok.unwrap().total.commits, 1);
    let big = vec![make_commit(date, u64::MAX, 0)];
    assert!(try_collect_stats("t", big, range, Period::Daily, None, &TimeZoneMode::Utc).is_none());
}

#[test]
fn test_collect_activity_stats_empty() {
    let commits: Vec<CommitInfo> = vec![];
    let stats = collect_activity_stats(&commits, &TimeZoneMode::Utc);

    assert_eq!(stats.weekday, [0; 7]);
    assert_eq!(stats.hourly, [0; 24]);
}

#[test]
fn test_collect_activity_stats_single_commit() {
    // Monday, 2024-01-01, 10:30 UTC
    let commit = plain_commit("abc1234", at(ymd(2024, 1, 1), 10, 30));

    let stats = collect_activity_stats(&[commit], &TimeZoneMode::Utc);

    // Monday = index 0
    assert_eq!(stats.weekday[0], 1);
    assert_eq!(stats.weekday[1..], [0; 6]);

    // Hour 10
    assert_eq!(stats.hourly[10], 1);
    assert_eq!(stats.hourly[0..10], [0; 10]);
    assert_eq!(stats.hourly[11..], [0; 13]);
}

#[test]
fn test_collect_activity_stats_multiple_commits() {
    let commits: Vec<CommitInfo> = vec![
        plain_commit("a", at(ymd(2024, 1, 1), 10, 0)),
        plain_commit("b", at(ymd(2024, 1, 1), 10, 30)),
        plain_commit("c", at(ymd(2024, 1, 2), 14, 0)),
        plain_commit("d", at(ymd(2024, 1, 7), 23, 59)),
    ];

    let stats = collect_activity_stats(&commits, &TimeZoneMode::Utc);

    // Weekday: Mon=2, Tue=1, Sun=1
    assert_eq!(stats.weekday[0], 2); // Monday
    assert_eq!(stats.weekday[1], 1); // Tuesday
    assert_eq!(stats.weekday[6], 1); // Sunday

    // Hourly: 10=2, 14=1, 23=1
    assert_eq!(stats.hourly[10], 2);
    assert_eq!(stats.hourly[14], 1);
    assert_eq!(stats.hourly[23], 1);
}

#[test]
fn activity_follows_the_offsets() {
    // Sunday 23:30 UTC is Monday 00:30 an hour east
    let commits = vec![plain_commit("a", at(ymd(2024, 1, 7), 23, 30))];
    let stats = collect_activity_stats_with_offsets(&commits, &[3600]);
    assert_eq!(stats.weekday[0], 1);
    assert_eq!(stats.hourly[0], 1);
    let utc = collect_activity_stats(&commits, &TimeZoneMode::Utc);
    assert_eq!(utc.weekday[6], 1);
    assert_eq!(utc.hourly[23], 1);
}

#[test]
fn commit_date_is_utc_date() {
    let c = plain_commit("a", at(ymd(2024, 2, 29), 0, 0));
    assert_eq!(c.date(), ymd(2024, 2, 29));
    let n = CommitInfo::new("b".to_string(), at(ymd(2024, 1, 1), 5, 0), true, DiffStats::default());
    assert!(n.is_merge);
    assert_eq!(n.id, "b");
}

#[test]
fn stats_and_activity_share_the_clock() {
    let tz = TimeZoneMode::parse("Asia/Tokyo").unwrap();
    // 2024-01-07 (Sunday) 20:00 UTC is Monday 05:00 in Tokyo
    let commits = vec![plain_commit("a", at(ymd(2024, 1, 7), 20, 0))];
    let range = DateRange::new(ymd(2024, 1, 7), ymd(2024, 1, 8));
    let (result, activity) =
        kodo::collector::try_collect_stats_with_activity("t", commits, range, Period::Daily, None, &tz).unwrap();
    assert_eq!(result.stats[0].commits, 0);
    assert_eq!(result.stats[1].commits, 1);
    assert_eq!(activity.weekday[0], 1);
    assert_eq!(activity.hourly[5], 1);
}

#[test]
fn every_bucket_has_net_lines_of_its_totals() {
    let range = DateRange::new(ymd(2024, 1, 1), ymd(2024, 1, 14));
    for period in [Period::Daily, Period::Weekly, Period::Monthly, Period::Yearly] {
        let commits = vec![make_commit(ymd(2024, 1, 1), 10, 50), make_commit(ymd(2024, 1, 9), 7, 2)];
        let r = collect_stats("t", commits, range, period, None, &TimeZoneMode::Utc);
        for b in &r.stats {
            assert_eq!(b.net_lines, b.additions as i64 - b.deletions as i64);
        }
        assert_eq!(r.total.net_lines, -35);
    }
}

#[test]
fn activity_follows_a_named_zone() {
    let tz = TimeZoneMode::parse("Asia/Tokyo").unwrap();
    // Sunday 20:00 UTC is Monday 05:00 in Tokyo
    let commits = vec![plain_commit("a", at(ymd(2024, 1, 7), 20, 0))];
    let stats = collect_activity_stats(&commits, &tz);
    assert_eq!(stats.weekday[0], 1);
    assert_eq!(stats.hourly[5], 1);
}

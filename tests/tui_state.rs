use kodo::chart::ChartType;
use kodo::dashboard::{App, Metric};
use kodo::date::Date;
use kodo::mvu::{update, Action, Model};
use kodo::stats::{ActivityStats, AnalysisResult, PeriodStats, TotalStats};

#[test]
fn chart_type_cycle() {
    let chart = ChartType::Commits;
    assert_eq!(chart.next(), ChartType::FilesChanged);
    assert_eq!(chart.next().next(), ChartType::AddDel);
    assert_eq!(chart.next().next().next(), ChartType::Weekday);
    assert_eq!(chart.next().next().next().next(), ChartType::Hour);
    assert_eq!(chart.next().next().next().next().next(), ChartType::Commits);
}

#[test]
fn chart_type_prev_cycle() {
    let chart = ChartType::Commits;
    assert_eq!(chart.prev(), ChartType::Hour);
    assert_eq!(chart.prev().prev(), ChartType::Weekday);
    assert_eq!(chart.prev().prev().prev(), ChartType::AddDel);
    assert_eq!(chart.prev().prev().prev().prev(), ChartType::FilesChanged);
    assert_eq!(chart.prev().prev().prev().prev().prev(), ChartType::Commits);
}

#[test]
fn chart_type_name() {
    assert_eq!(ChartType::Commits.name(), "Commits");
    assert_eq!(ChartType::FilesChanged.name(), "Files Changed");
    assert_eq!(ChartType::AddDel.name(), "Add/Del");
    assert_eq!(ChartType::Weekday.name(), "Weekday");
    assert_eq!(ChartType::Hour.name(), "Hour");
}

#[test]
fn chart_type_default() {
    assert_eq!(ChartType::default(), ChartType::Commits);
}

fn model() -> Model {
    Model { chart_type: ChartType::Commits, should_quit: false, single_metric: false, scroll_offset: 0, data_len: 5 }
}

#[test]
fn update_sets_quit_flag() {
    let next = update(model(), Action::Quit);
    assert!(next.should_quit);
}

#[test]
fn update_force_quit_sets_quit_flag() {
    let next = update(model(), Action::ForceQuit);
    assert!(next.should_quit);
}

#[test]
fn update_next_chart_only_in_single_mode() {
    let split = update(model(), Action::NextChart);
    assert_eq!(split.chart_type, ChartType::Commits);

    let mut single = model();
    single.single_metric = true;
    let next = update(single, Action::NextChart);
    assert_eq!(next.chart_type, ChartType::FilesChanged);
}

#[test]
fn update_prev_chart_only_in_single_mode() {
    let split = update(model(), Action::PrevChart);
    assert_eq!(split.chart_type, ChartType::Commits);

    let mut single = model();
    single.single_metric = true;
    let next = update(single, Action::PrevChart);
    assert_eq!(next.chart_type, ChartType::Hour);
}

#[test]
fn update_scroll_up_respects_upper_bound() {
    let mut m = model();
    m.scroll_offset = 4;

    let next = update(m, Action::ScrollUp);
    assert_eq!(next.scroll_offset, 4);
}

#[test]
fn update_scroll_down_saturates_at_zero() {
    let next = update(model(), Action::ScrollDown);
    assert_eq!(next.scroll_offset, 0);
}

#[test]
fn update_scroll_ignored_when_single_mode_non_add_del() {
    let mut m = model();
    m.single_metric = true;
    m.chart_type = ChartType::Commits;
    let next = update(m, Action::ScrollUp);
    assert_eq!(next.scroll_offset, 0);
}

#[test]
fn update_toggle_metric_view_resets_scroll_offset() {
    let mut m = model();
    m.scroll_offset = 3;

    let next = update(m, Action::ToggleMetricView);
    assert!(next.single_metric);
    assert_eq!(next.scroll_offset, 0);
}

#[test]
fn update_scroll_in_add_del_single_view_and_ticks() {
    let mut m = model();
    m.single_metric = true;
    m.chart_type = ChartType::AddDel;
    assert!(m.can_scroll());
    assert_eq!(update(m, Action::ScrollUp).scroll_offset, 1);
    assert_eq!(update(m, Action::Tick), m);
    assert_eq!(update(m, Action::Noop), m);
    let mut empty = model();
    empty.data_len = 0;
    assert_eq!(update(empty, Action::ScrollUp).scroll_offset, 0);
}

fn ymd(y: i32, m: u32, d: u32) -> Date {
    Date::from_ymd(y, m, d).unwrap()
}

fn make_result() -> AnalysisResult {
    AnalysisResult {
        repository: "test".to_string(),
        period: "daily".to_string(),
        from: ymd(2024, 1, 1),
        to: ymd(2024, 1, 7),
        stats: vec![PeriodStats {
            label: "2024-01-01".to_string(),
            date: ymd(2024, 1, 1),
            commits: 5,
            additions: 100,
            deletions: 20,
            net_lines: 80,
            files_changed: 10,
        }],
        total: TotalStats::default(),
    }
}

#[test]
fn test_metric_cycle() {
    let metric = Metric::Commits;
    assert_eq!(metric.next(), Metric::AdditionsAndDeletions);
    assert_eq!(metric.prev(), Metric::FilesChanged);
    assert_eq!(metric.name(), "Commits");
    assert_eq!(Metric::AdditionsAndDeletions.name(), "Additions / Deletions");
}

#[test]
fn test_metric_values() {
    let result = make_result();
    let app = App::new(result, ActivityStats::default(), false);

    let values = app.metric_values();
    assert_eq!(values.len(), 1);
    assert_eq!(values[0], ("2024-01-01".to_string(), 5));
    assert_eq!(app.values_for_metric(Metric::AdditionsAndDeletions)[0].1, 80);
    assert_eq!(app.values_for_metric(Metric::FilesChanged)[0].1, 10);
}

#[test]
fn test_all_metrics() {
    let metrics = App::all_metrics();
    assert_eq!(metrics.len(), 3);
}

#[test]
fn test_additions_deletions_data() {
    let result = make_result();
    let app = App::new(result, ActivityStats::default(), false);

    let data = app.additions_deletions_data();
    assert_eq!(data.len(), 1);
    assert_eq!(data[0].label, "2024-01-01");
    assert_eq!(data[0].additions, 100);
    assert_eq!(data[0].deletions, 20);
}

fn make_result_with_multiple_days() -> AnalysisResult {
    AnalysisResult {
        repository: "test".to_string(),
        period: "daily".to_string(),
        from: ymd(2024, 1, 1),
        to: ymd(2024, 1, 5),
        stats: (1..=5)
            .map(|day| PeriodStats {
                label: format!("2024-01-0{day}"),
                date: ymd(2024, 1, day),
                commits: day,
                additions: u64::from(day) * 10,
                deletions: u64::from(day) * 2,
                net_lines: i64::from(day) * 8,
                files_changed: day,
            })
            .collect(),
        total: TotalStats::default(),
    }
}

#[test]
fn test_scroll_up_increases_offset() {
    let result = make_result_with_multiple_days();
    let mut app = App::new(result, ActivityStats::default(), false);

    assert_eq!(app.scroll_offset, 0);
    app.scroll_up();
    assert_eq!(app.scroll_offset, 1);
    app.scroll_up();
    assert_eq!(app.scroll_offset, 2);
}

#[test]
fn test_scroll_down_decreases_offset() {
    let result = make_result_with_multiple_days();
    let mut app = App::new(result, ActivityStats::default(), false);

    app.scroll_offset = 3;
    app.scroll_down();
    assert_eq!(app.scroll_offset, 2);
    app.scroll_down();
    assert_eq!(app.scroll_offset, 1);
    app.scroll_down();
    assert_eq!(app.scroll_offset, 0);
}

#[test]
fn test_scroll_down_does_not_go_negative() {
    let result = make_result_with_multiple_days();
    let mut app = App::new(result, ActivityStats::default(), false);

    assert_eq!(app.scroll_offset, 0);
    app.scroll_down();
    assert_eq!(app.scroll_offset, 0);
}

#[test]
fn test_scroll_up_respects_max_offset() {
    let result = make_result_with_multiple_days();
    let mut app = App::new(result, ActivityStats::default(), false);

    // 5 items, max offset should be 4 (data_len - 1)
    for _ in 0..10 {
        app.scroll_up();
    }
    assert_eq!(app.scroll_offset, 4);
}

#[test]
fn test_scroll_offset_resets_on_view_toggle() {
    let result = make_result_with_multiple_days();
    let mut app = App::new(result, ActivityStats::default(), false);

    app.scroll_offset = 3;
    app.handle_action(Action::ToggleMetricView);

    assert_eq!(app.scroll_offset, 0);
    assert!(app.single_metric);
}

#[test]
fn app_actions_follow_view_mode() {
    let mut app = App::new(make_result_with_multiple_days(), ActivityStats::default(), false);
    app.handle_action(Action::NextChart);
    assert_eq!(app.metric, Metric::Commits);
    app.handle_action(Action::ScrollUp);
    assert_eq!(app.scroll_offset, 1);
    app.handle_action(Action::ToggleMetricView);
    app.handle_action(Action::NextChart);
    assert_eq!(app.metric, Metric::AdditionsAndDeletions);
    app.handle_action(Action::ScrollUp);
    assert_eq!(app.scroll_offset, 0);
    app.handle_action(Action::Quit);
    assert!(app.should_quit);
}

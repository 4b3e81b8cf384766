use kodo::diff::{extension_matches, DiffStats, FileChange};

#[test]
fn test_diff_stats_net_lines() {
    let stats = DiffStats::new(100, 30, 5);
    assert_eq!(stats.net_lines(), 70);
}

#[test]
fn test_diff_stats_negative_net() {
    let stats = DiffStats::new(10, 50, 3);
    assert_eq!(stats.net_lines(), -40);
}

#[test]
fn test_diff_stats_add_file() {
    let mut stats = DiffStats::default();
    stats.add_file(FileChange::new("src/main.rs".to_string(), 10, 5));
    stats.add_file(FileChange::new("src/lib.rs".to_string(), 20, 3));

    assert_eq!(stats.additions, 30);
    assert_eq!(stats.deletions, 8);
    assert_eq!(stats.files_changed, 2);
    assert_eq!(stats.files.len(), 2);
}

#[test]
fn test_file_change_matches_extensions() {
    let file = FileChange::new("src/main.rs".to_string(), 10, 5);

    assert!(file.matches_extensions(&["rs".to_string(), "ts".to_string()]));
    assert!(!file.matches_extensions(&["ts".to_string(), "js".to_string()]));
    assert!(file.matches_extensions(&[])); // Empty = match all
}

#[test]
fn test_file_change_no_extension() {
    let file = FileChange::new("Makefile".to_string(), 10, 5);

    assert!(!file.matches_extensions(&["rs".to_string()]));
    assert!(file.matches_extensions(&[]));
}

#[test]
fn extension_match_is_case_sensitive() {
    let file = FileChange::new("lib/Main.RS".to_string(), 1, 0);
    assert!(!file.matches_extensions(&["rs".to_string()]));
    assert!(file.matches_extensions(&["RS".to_string()]));
}

#[test]
fn extension_is_taken_from_final_segment_after_last_dot() {
    let file = FileChange::new("a.dir/archive.tar.gz".to_string(), 1, 0);
    assert!(file.matches_extensions(&["gz".to_string()]));
    assert!(!file.matches_extensions(&["tar".to_string()]));
    assert!(!file.matches_extensions(&["dir".to_string()]));
}

#[test]
fn extension_matches_on_given_extension() {
    let exts = vec!["rs".to_string(), "ts".to_string()];
    assert!(extension_matches(Some("ts"), &exts));
    assert!(!extension_matches(Some("js"), &exts));
    assert!(!extension_matches(None, &exts));
    assert!(extension_matches(None, &[]));
}

#[test]
fn filtered_counts_keep_only_matching_files() {
    let mut diff = DiffStats::default();
    diff.add_file(FileChange::new("src/main.rs".to_string(), 100, 10));
    diff.add_file(FileChange::new("src/lib.ts".to_string(), 50, 5));
    diff.add_file(FileChange::new("README.md".to_string(), 20, 2));
    assert_eq!(diff.filtered_counts(&["rs".to_string()]), (100, 10, 1));
    assert_eq!(diff.filtered_counts(&[]), (170, 17, 3));
    assert_eq!(diff.filtered_counts(&["py".to_string()]), (0, 0, 0));
    assert_eq!(diff.additions, 170);
}

#[test]
fn dot_file_extension_is_text_after_last_dot() {
    let file = FileChange::new("config/.gitignore".to_string(), 1, 0);
    assert!(file.matches_extensions(&["gitignore".to_string()]));
    let dir_dot = FileChange::new("a.d/Makefile".to_string(), 1, 0);
    assert!(!dir_dot.matches_extensions(&["d/Makefile".to_string()]));
    assert!(!dir_dot.matches_extensions(&["d".to_string()]));
}

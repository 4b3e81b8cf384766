use kodo::error::Error;
use kodo::widgets::BarDataPoint;

#[test]
fn test_error_display() {
    let err = Error::ConfigNotFound { path: "/path/to/config.json".to_string() };
    assert!(err.to_string().contains("/path/to/config.json"));
}

#[test]
fn test_error_no_repositories() {
    let err = Error::NoRepositories;
    assert_eq!(err.to_string(), "No repositories to analyze");
}

#[test]
fn test_error_not_git_repo() {
    let err = Error::NotGitRepo { path: "/tmp/not-a-repo".to_string() };
    assert!(err.to_string().contains("Not a git repository"));
    assert_eq!(err.to_string(), "Not a git repository: /tmp/not-a-repo");
}

#[test]
fn error_messages_name_the_value() {
    assert_eq!(Error::RepoNotInConfig { identifier: "x".to_string() }.to_string(), "Repository not found in config: x");
    assert_eq!(Error::Git("boom".to_string()).to_string(), "Git error: boom");
}

#[test]
fn test_bar_data_point_new() {
    let point = BarDataPoint::new("Mon", 10);
    assert_eq!(point.label, "Mon");
    assert_eq!(point.value, 10);
}

#[test]
fn test_bar_data_point_with_string() {
    let point = BarDataPoint::new(String::from("Tue"), 5);
    assert_eq!(point.label, "Tue");
    assert_eq!(point.value, 5);
}

#[test]
fn every_error_variant_has_its_message() {
    assert_eq!(Error::ConfigInvalid { message: "bad".to_string() }.to_string(), "Invalid configuration: bad");
    assert_eq!(Error::RepoNotFound { path: "/x".to_string() }.to_string(), "Repository not found: /x");
    assert_eq!(Error::Io("denied".to_string()).to_string(), "IO error: denied");
    assert_eq!(Error::Json("eof".to_string()).to_string(), "JSON error: eof");
    assert_eq!(Error::ConfigNotFound { path: "/c.json".to_string() }.to_string(), "Configuration file not found: /c.json");
}

use kanade::status::{EventType, JobStatus};
use kanade::text::{concat3, concat4, i64_to_decimal, str_eq, strip_prefix, u64_to_decimal};

#[test]
fn decimal_formatting_matches_to_string() {
    for n in [0u64, 7, 10, 99, 1234567890, u64::MAX] {
        assert_eq!(u64_to_decimal(n), n.to_string());
    }
    for n in [0i64, -1, -10, 42, i64::MIN, i64::MAX] {
        assert_eq!(i64_to_decimal(n), n.to_string());
    }
}

#[test]
fn prefixes_and_equality() {
    assert_eq!(strip_prefix("refs/heads/main", "refs/heads/").as_deref(), Some("main"));
    assert_eq!(strip_prefix("refs/tags/v1", "refs/heads/"), None);
    assert_eq!(strip_prefix("", "").as_deref(), Some(""));
    assert!(str_eq("ä", "ä"));
    assert!(!str_eq("a", "ab"));
    assert_eq!(concat3("a", "-", "b"), "a-b");
    assert_eq!(concat4("a", "b", "c", "d"), "abcd");
}

#[test]
fn event_names_are_snake_case() {
    assert_eq!(EventType::Push.name(), "push");
    assert_eq!(EventType::PullRequest.name(), "pull_request");
    assert_eq!(EventType::Manual.name(), "manual");
    assert_eq!(EventType::Cron.name(), "cron");
    assert_eq!(EventType::Release.name(), "release");
    assert_eq!(EventType::Tag.name(), "tag");
}

#[test]
fn finished_statuses() {
    assert!(JobStatus::Success.is_finished());
    assert!(JobStatus::Failed.is_finished());
    assert!(JobStatus::Skipped.is_finished());
    assert!(JobStatus::Cancelled.is_finished());
    assert!(!JobStatus::Running.is_finished());
    assert!(!JobStatus::Pending.is_finished());
    assert!(!JobStatus::Waiting.is_finished());
}

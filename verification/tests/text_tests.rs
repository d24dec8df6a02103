use task_cache::task::Status;
use task_cache::text;

#[test]
fn status_keywords_round_trip() {
    let all = [
        Status::Pending,
        Status::Completed,
        Status::Deleted,
        Status::Waiting,
        Status::Recurring,
    ];
    for s in all {
        assert_eq!(Status::from_text(&s.to_text()), Some(s));
    }
    assert_eq!(Status::from_text("completed"), Some(Status::Completed));
    assert_eq!(Status::from_text("someday"), None);
}

#[test]
fn active_means_not_completed_and_not_deleted() {
    assert!(Status::Pending.is_active());
    assert!(Status::Waiting.is_active());
    assert!(Status::Recurring.is_active());
    assert!(!Status::Completed.is_active());
    assert!(!Status::Deleted.is_active());
}

#[test]
fn str_eq_compares_characters() {
    assert!(text::str_eq("foo", "foo"));
    assert!(!text::str_eq("foo", "fop"));
    assert!(!text::str_eq("foo", "fo"));
    assert!(text::str_eq("", ""));
}

#[test]
fn lowercase_maps_the_characters() {
    assert_eq!(text::lowercase("FoO.Bar"), "foo.bar");
    assert_eq!(text::lowercase(""), "");
}

#[test]
fn strip_whitespace_removes_blanks_and_tabs() {
    assert_eq!(text::strip_whitespace(" a b\tc\nd "), "abcd");
    assert_eq!(text::strip_whitespace("abc"), "abc");
    assert_eq!(text::strip_whitespace(" \t\n"), "");
}

#[test]
fn join_with_dot_puts_one_dot_between_parts() {
    assert_eq!(text::join_with_dot(&vec!["foo".to_string(), "bar".to_string()]), "foo.bar");
    assert_eq!(text::join_with_dot(&vec!["foo".to_string()]), "foo");
    assert_eq!(text::join_with_dot(&Vec::new()), "");
}

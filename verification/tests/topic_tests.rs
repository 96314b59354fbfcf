use bagimages::common::error::AppError;
use bagimages::topic::TopicName;

#[test]
fn literal_selector_matches_only_exact_string() {
    let sel = TopicName::new("/cam/image", false).unwrap();
    assert!(sel.matches("/cam/image"));
    assert!(!sel.matches("/cam/image2"));
    assert!(!sel.matches("/cam"));
    assert!(!sel.matches("cam/image"));
}

#[test]
fn regex_selector_matches_by_pattern() {
    let sel = TopicName::new("^/cam/.*$", true).unwrap();
    assert!(sel.matches("/cam/image"));
    assert!(sel.matches("/cam/depth"));
    assert!(!sel.matches("/lidar/points"));
}

#[test]
fn literal_selector_accepts_regex_metacharacters_verbatim() {
    let sel = TopicName::new("/cam/.*", false).unwrap();
    assert!(sel.matches("/cam/.*"));
    assert!(!sel.matches("/cam/image"));
}

#[test]
fn invalid_regex_is_rejected_at_construction() {
    let r = TopicName::new("foo(bar", true);
    assert!(matches!(r, Err(AppError::ArgsInvalidRegex(p)) if p == "foo(bar"));
}

#[test]
fn invalid_pattern_is_fine_as_literal() {
    let sel = TopicName::new("foo(bar", false).unwrap();
    assert!(sel.matches("foo(bar"));
}

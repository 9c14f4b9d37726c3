use dbug::logger::elapsed_suffix;
use dbug::Logger;

#[test]
fn it_works() {}

#[test]
fn new_logger_has_fresh_state() {
    let l = Logger::new("a", "a b");
    assert_eq!(l.raw_label, "a");
    assert!(l.last_log.is_none());
    assert!(l.should_log());
}

#[test]
fn listed_label_emits_and_advances_timestamp() {
    let mut l = Logger::new("a", "a b");
    l.log("hi");
    assert!(l.last_log.is_some());
}

#[test]
fn unlisted_label_is_suppressed_without_effect() {
    let mut l = Logger::new("c", "a b");
    assert!(!l.should_log());
    l.log("hi");
    assert!(l.last_log.is_none());
}

#[test]
fn first_entry_reports_zero_elapsed() {
    let l = Logger::new("a", "a b");
    let line = l.compose_entry("hi", 0);
    assert!(line.contains("a"));
    assert!(line.contains("hi"));
    assert!(line.contains("+0"));
}

#[test]
fn elapsed_suffix_is_zero_before_first_emission() {
    assert_eq!(elapsed_suffix(None, 0), "+0");
    assert_eq!(elapsed_suffix(None, 12345), "+0");
}

#[test]
fn elapsed_suffix_reports_whole_millisecond_delta() {
    assert_eq!(elapsed_suffix(Some(100), 350), "+250");
    assert_eq!(elapsed_suffix(Some(100), 100), "+0");
    assert_eq!(elapsed_suffix(Some(350), 100), "+0");
}

#[test]
fn entry_after_emission_carries_the_delta() {
    let mut l = Logger::new("a", "*");
    l.last_log = Some(100);
    let line = l.compose_entry("m", 350);
    assert!(line.contains("+250"));
}

#[test]
fn extend_composes_label_with_colon() {
    let l = Logger::new("x", "*");
    let child = l.extend("y", "*");
    assert_eq!(child.raw_label, "x:y");
    assert!(child.last_log.is_none());
}

#[test]
fn extend_leaves_parent_and_child_independent() {
    let mut parent = Logger::new("x", "*");
    parent.log("from parent");
    let baseline = parent.last_log;
    let mut child = parent.extend("y", "*");
    assert!(child.last_log.is_none());
    child.log("from child");
    assert_eq!(parent.last_log, baseline);
    assert!(child.last_log.is_some());
}

#[test]
fn match_all_spec_emits_for_any_label() {
    let mut a = Logger::new("a", "*");
    let mut odd = Logger::new("some:odd label", "*");
    a.log("x");
    odd.log("y");
    assert!(a.last_log.is_some());
    assert!(odd.last_log.is_some());
}

#[test]
fn negated_label_never_emits_under_match_all() {
    let mut secret = Logger::new("secret", "*,-secret");
    let mut other = Logger::new("anythingElse", "*,-secret");
    secret.log("hidden");
    other.log("shown");
    assert!(secret.last_log.is_none());
    assert!(other.last_log.is_some());
}

#[test]
fn closure_handle_continues_timing_state() {
    let l = Logger::new("s", "*");
    let mut f = l.to_closure();
    f.call("first");
    let after_first = f.logger.last_log;
    assert!(after_first.is_some());
    f.call("second");
    assert!(f.logger.last_log.is_some());
}

#[test]
fn suppressed_closure_handle_stays_silent() {
    let l = Logger::new("quiet", "");
    let mut f = l.to_closure();
    f.call("nothing");
    assert!(f.logger.last_log.is_none());
}

#[test]
fn stored_timestamp_never_moves_backwards() {
    let mut l = Logger::new("a", "*");
    l.last_log = Some(u64::MAX);
    l.log("m");
    assert_eq!(l.last_log, Some(u64::MAX));
}

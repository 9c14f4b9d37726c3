use dbug::parse_filter;
use dbug::FilterRule;

#[test]
fn negation_wins_over_positive_match() {
    let rules = parse_filter("-b a b");
    assert!(!dbug::filter::matches(&rules, "b"));
    assert!(dbug::filter::matches(&rules, "a"));
}

#[test]
fn wildcard_matches_prefixed_labels() {
    let rules = parse_filter("foo*");
    assert!(dbug::filter::matches(&rules, "foo"));
    assert!(dbug::filter::matches(&rules, "foobar"));
    assert!(!dbug::filter::matches(&rules, "fo"));
    assert!(!dbug::filter::matches(&rules, "xfoo"));
}

#[test]
fn exact_pattern_matches_only_equal_label() {
    let rules = parse_filter("foo");
    assert!(dbug::filter::matches(&rules, "foo"));
    assert!(!dbug::filter::matches(&rules, "foobar"));
    assert!(!dbug::filter::matches(&rules, "fo"));
}

#[test]
fn empty_spec_denies_everything() {
    let rules = parse_filter("");
    assert!(rules.is_empty());
    assert!(!dbug::filter::matches(&rules, "a"));
    assert!(!dbug::filter::matches(&rules, ""));
    assert!(!dbug::filter::matches(&rules, "anything"));
}

#[test]
fn match_all_token_admits_every_label() {
    let rules = parse_filter("*");
    assert!(dbug::filter::matches(&rules, "a"));
    assert!(dbug::filter::matches(&rules, ""));
    assert!(dbug::filter::matches(&rules, "deeply:nested:label"));
}

#[test]
fn commas_split_when_no_space_present() {
    let rules = parse_filter("a,b");
    assert!(dbug::filter::matches(&rules, "a"));
    assert!(dbug::filter::matches(&rules, "b"));
    assert!(!dbug::filter::matches(&rules, "c"));
}

#[test]
fn spaces_take_precedence_over_commas() {
    let rules = parse_filter("a,b c");
    assert!(dbug::filter::matches(&rules, "a,b"));
    assert!(dbug::filter::matches(&rules, "c"));
    assert!(!dbug::filter::matches(&rules, "a"));
    assert!(!dbug::filter::matches(&rules, "b"));
}

#[test]
fn empty_tokens_are_discarded_after_trimming() {
    let rules = parse_filter("  a   b  ");
    assert_eq!(rules.len(), 2);
    assert!(dbug::filter::matches(&rules, "a"));
    assert!(dbug::filter::matches(&rules, "b"));
    assert!(!dbug::filter::matches(&rules, ""));
}

#[test]
fn negation_token_is_parsed_with_marker_stripped() {
    let rules = parse_filter("-x");
    assert_eq!(rules.len(), 1);
    assert!(rules[0].is_negation);
    assert_eq!(rules[0].pattern, "x");
    assert!(!dbug::filter::matches(&rules, "x"));
    assert!(!dbug::filter::matches(&rules, "-x"));
}

#[test]
fn wildcard_negation_strips_both_markers() {
    let rules = parse_filter("* -noisy*");
    assert!(dbug::filter::matches(&rules, "quiet"));
    assert!(!dbug::filter::matches(&rules, "noisy"));
    assert!(!dbug::filter::matches(&rules, "noisy:child"));
}

#[test]
fn match_all_with_negated_label() {
    let rules = parse_filter("*,-secret");
    assert!(!dbug::filter::matches(&rules, "secret"));
    assert!(dbug::filter::matches(&rules, "anythingElse"));
    assert!(dbug::filter::matches(&rules, "secretx"));
}

#[test]
fn hand_built_rules_evaluate_like_parsed_ones() {
    let rules = vec![
        FilterRule { is_negation: true, pattern: String::from("b") },
        FilterRule { is_negation: false, pattern: String::from("a") },
        FilterRule { is_negation: false, pattern: String::from("b") },
    ];
    assert!(!dbug::filter::matches(&rules, "b"));
    assert!(dbug::filter::matches(&rules, "a"));
}

#[test]
fn unicode_whitespace_is_trimmed_from_tokens() {
    let rules = parse_filter("\u{00A0}a\u{00A0},b");
    assert_eq!(rules.len(), 2);
    assert!(dbug::filter::matches(&rules, "a"));
    assert!(dbug::filter::matches(&rules, "b"));
    assert!(!dbug::filter::matches(&rules, "\u{00A0}a\u{00A0}"));

    let tabbed = parse_filter("\ta\t");
    assert_eq!(tabbed.len(), 1);
    assert!(dbug::filter::matches(&tabbed, "a"));
}

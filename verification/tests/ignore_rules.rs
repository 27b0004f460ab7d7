use vesper::ignore_rules::{
    build_global_rules, combine_matches, default_rules_text, directory_rules,
    format_ignore_validation_errors, ignore_rules_from_text, is_ignored, validate_global_patterns,
    validated_ignore_rules, IgnoreMatch, IgnoreRules, IgnoreValidationError, IndexError,
    DEFAULT_GLOBAL_PATTERNS, GLOBAL_RULES_SOURCE,
};

/// A `.galleryignore` rule set for `dir`, built from its text as the file
/// loader builds it.
fn local_rules(dir: &str, text: &str) -> IgnoreRules {
    directory_rules(dir, text, &format!("{dir}/.galleryignore")).unwrap()
}

fn strings(items: &[&str]) -> Vec<String> {
    items.iter().map(|s| s.to_string()).collect()
}

#[test]
fn test_ignore_rules_precedence() {
    let root = "/library/root";
    let child = "/library/root/child";

    let global = build_global_rules(&strings(&[
        "*.tmp",
        "global_ignore.txt",
        "!global_unignore.txt",
    ]))
    .unwrap();

    let root_rules = local_rules(
        root,
        "\n# This is a comment\n*.log\n!/unignored.log\n!/child/unignored_by_parent.log\ndir_pruned/\n",
    );
    let child_rules = local_rules(child, "!*.log\n*.tmp\n\n# another comment");

    let root_text = "\n# This is a comment\n*.log\n!/unignored.log\n!/child/unignored_by_parent.log\ndir_pruned/\n";
    let stack_root = vec![root_rules];
    let stack_child = vec![local_rules(root, root_text), child_rules];

    // A child negates the parent's ignore rule.
    assert!(!is_ignored("/library/root/child/test.log", false, &stack_child, &global));

    // A local negation un-ignores a globally ignored file.
    let child_rules2 = local_rules(child, "!*.tmp\n");
    let stack_child2 = vec![local_rules(root, root_text), child_rules2];
    assert!(!is_ignored("/library/root/child/test.tmp", false, &stack_child2, &global));

    // A directory rule prunes the directory.
    assert!(is_ignored("/library/root/dir_pruned", true, &stack_root, &global));

    // The same pattern in global and local rules: the local one wins.
    let global2 = build_global_rules(&strings(&["*.txt"])).unwrap();
    let root_rules2 = local_rules(root, "!*.txt\n");
    assert!(!is_ignored("/library/root/test.txt", false, &[root_rules2], &global2));
}

#[test]
fn global_rule_and_local_negation_combine_under_one_last_match_list() {
    let root = "/library/root";
    let global = build_global_rules(&strings(&["*.tmp"])).unwrap();
    let stack = vec![local_rules(root, "!important.tmp\n")];

    assert!(
        is_ignored("/library/root/scratch.tmp", false, &stack, &global),
        "global *.tmp still ignores files with no local override"
    );
    assert!(
        !is_ignored("/library/root/important.tmp", false, &stack, &global),
        "a local negation overrides an earlier global ignore in the combined list"
    );
}

#[test]
fn invalid_ignore_pattern_does_not_partially_apply_and_is_collected() {
    let patterns = strings(&["*.jpg", "[z-a].tmp", "*.png"]);

    let result = validate_global_patterns(&patterns);
    let errors = result.expect_err("an invalid pattern must fail validation");

    assert_eq!(errors.len(), 1, "exactly the invalid line is reported");
    assert_eq!(errors[0].line, Some(2), "reports the offending line number");
    assert_eq!(errors[0].source, "global rules");
    assert!(!errors[0].message.is_empty(), "carries a reason");

    assert!(
        validate_global_patterns(&patterns).is_err(),
        "an invalid set never yields a partial matcher"
    );
}

#[test]
fn valid_global_patterns_build_successfully() {
    let matcher = validate_global_patterns(&strings(&["*.tmp", "!keep.tmp"]))
        .expect("valid patterns build a matcher");
    assert_eq!(matcher.matched("scratch.tmp", false), IgnoreMatch::Ignore);
    assert_eq!(matcher.matched("keep.tmp", false), IgnoreMatch::Whitelist);
}

#[test]
fn every_invalid_line_is_reported_in_order() {
    let patterns = strings(&["[z-a].a", "*.ok", "[y-b].b"]);
    let errors = validate_global_patterns(&patterns).unwrap_err();
    let lines: Vec<Option<usize>> = errors.iter().map(|e| e.line).collect();
    assert_eq!(lines, vec![Some(1), Some(3)]);
    assert!(errors.iter().all(|e| e.source == GLOBAL_RULES_SOURCE));
}

#[test]
fn build_global_rules_reports_a_parse_error_for_the_global_source() {
    match build_global_rules(&strings(&["*.ok", "[z-a].tmp"])) {
        Err(IndexError::IgnoreParse { path, message }) => {
            assert_eq!(path, "global rules");
            assert!(!message.is_empty());
        }
        other => panic!("expected a parse error, got {:?}", other.map(|_| ())),
    }
}

#[test]
fn ignore_validation_feedback_includes_source_line_and_message() {
    let rules = ignore_rules_from_text("*.jpg\n[z-a].tmp\n*.png");
    let errors = validate_global_patterns(&rules).unwrap_err();
    let feedback = format_ignore_validation_errors(&errors);
    assert!(feedback.contains("global rules"));
    assert!(feedback.contains("line 2"));
    assert!(feedback.contains(&errors[0].message));
}

#[test]
fn feedback_renders_each_error_on_its_own_line() {
    let errors = vec![
        IgnoreValidationError {
            source: "global rules".to_string(),
            line: Some(2),
            message: "bad range".to_string(),
        },
        IgnoreValidationError {
            source: "/m/.galleryignore".to_string(),
            line: None,
            message: "unreadable".to_string(),
        },
    ];
    assert_eq!(
        format_ignore_validation_errors(&errors),
        "global rules, line 2: bad range\n/m/.galleryignore: unreadable"
    );
    assert_eq!(format_ignore_validation_errors(&[]), "");
}

#[test]
fn reset_to_defaults_matches_arch_default_set() {
    let text = default_rules_text();
    let rules = ignore_rules_from_text(&text);
    for default in DEFAULT_GLOBAL_PATTERNS {
        assert!(rules.iter().any(|rule| rule == default));
    }
    assert!(!rules.iter().any(|rule| rule == ".*"));
}

#[test]
fn default_text_round_trips_to_the_default_list() {
    let rules = ignore_rules_from_text(&default_rules_text());
    assert_eq!(rules, strings(&DEFAULT_GLOBAL_PATTERNS));
}

#[test]
fn ignore_apply_rejects_invalid_rules_as_one_set() {
    let result = validated_ignore_rules("*.valid\n[z-a].tmp");
    assert!(result.is_err());
    assert!(result.unwrap_err().contains("global rules, line 2:"));
}

#[test]
fn valid_rules_text_is_applied_line_by_line() {
    assert_eq!(
        validated_ignore_rules("*.tmp\r\n!keep.tmp\n").unwrap(),
        strings(&["*.tmp", "!keep.tmp"])
    );
}

#[test]
fn settings_text_splits_like_str_lines() {
    assert_eq!(ignore_rules_from_text("a\r\nb\n\nc"), strings(&["a", "b", "", "c"]));
    assert_eq!(ignore_rules_from_text(""), Vec::<String>::new());
    assert_eq!(ignore_rules_from_text("x\n"), strings(&["x"]));
}

#[test]
fn the_last_matching_rule_set_decides() {
    assert!(!combine_matches(&[]));
    assert!(combine_matches(&[IgnoreMatch::Ignore, IgnoreMatch::NoMatch]));
    assert!(!combine_matches(&[
        IgnoreMatch::Ignore,
        IgnoreMatch::Whitelist,
        IgnoreMatch::NoMatch
    ]));
    assert!(combine_matches(&[IgnoreMatch::Whitelist, IgnoreMatch::Ignore]));
}

#[test]
fn bad_galleryignore_line_fails_the_whole_file() {
    match directory_rules("/lib/root", "*.ok\n[z-a].tmp\n", "/lib/root/.galleryignore") {
        Err(IndexError::IgnoreParse { path, message }) => {
            assert_eq!(path, "/lib/root/.galleryignore");
            assert!(!message.is_empty());
        }
        other => panic!("expected a parse error, got {:?}", other.map(|_| ())),
    }
    let rules = local_rules("/lib/root", "*.log\n");
    assert_eq!(rules.matched("/lib/root/a.log", false), IgnoreMatch::Ignore);
    assert_eq!(rules.matched("/lib/root/a.jpg", false), IgnoreMatch::NoMatch);
}

#[test]
fn every_rejected_galleryignore_line_is_reported() {
    match directory_rules("/r", "[z-a].a\n*.ok\n[y-b].b\n", "/r/.galleryignore") {
        Err(IndexError::IgnoreParse { path, message }) => {
            assert_eq!(path, "/r/.galleryignore");
            let lines: Vec<&str> = message.lines().collect();
            assert_eq!(lines.len(), 2);
            assert!(lines[0].starts_with("/r/.galleryignore: line 1: "));
            assert!(lines[1].starts_with("/r/.galleryignore: line 3: "));
        }
        other => panic!("expected a parse error, got {:?}", other.map(|_| ())),
    }
}

#[test]
fn leading_byte_order_mark_is_dropped_from_galleryignore() {
    let rules = local_rules("/r", "\u{feff}*.log\n");
    assert_eq!(rules.matched("/r/a.log", false), IgnoreMatch::Ignore);
}

#[test]
fn valid_patterns_yield_rules() {
    assert!(build_global_rules(&strings(&["*.tmp", "# note", ""])).is_ok());
    assert!(validate_global_patterns(&strings(&["*.tmp"])).is_ok());
    assert!(validated_ignore_rules("*.tmp\n!keep.tmp").is_ok());
}

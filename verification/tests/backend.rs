use rdump::backend::{
    any_pattern_matches, classify_discovered_file, identity_from_resolved, path_within_root, empty_ignore_rules, parse_ignore_rules, parse_root_unignores, path_has_hidden_component,
    record_discovery_decision, record_unreadable_entry, sort_candidates, BackendPathIdentity, DiscoveryDecision,
    DiscoveryReport, DiscoveryRules,
};
use rdump::content::DiagnosticKind;
use rdump::model::PathResolution;
use rdump::report::format_mode;

fn rules(gitignore: &str) -> DiscoveryRules {
    DiscoveryRules {
        root_unignores: parse_root_unignores("!target/keep/\n"),
        gitignore: parse_ignore_rules(".gitignore", gitignore),
        rdumpignore: empty_ignore_rules(".rdumpignore"),
    }
}

fn identity(display: &str, resolved: &str) -> BackendPathIdentity {
    BackendPathIdentity {
        display_path: display.to_string(),
        resolved_path: resolved.to_string(),
        root_relative_path: None,
        resolution: PathResolution::Canonical,
    }
}

#[test]
fn ignore_files_parse_into_globs() {
    let parsed = parse_ignore_rules(".gitignore", "# comment\n*.log\nbuild/\n\n!keep.log\nsecret\n");
    assert_eq!(parsed.source, ".gitignore");
    assert_eq!(parsed.patterns, vec!["*.log".to_string(), "build/**".to_string(), "**/secret".to_string()]);
    assert_eq!(parsed.unignore_patterns, vec!["**/keep.log".to_string()]);
    assert_eq!(parse_root_unignores("!target/keep/\nplain\n! \n"), vec!["target/keep/**".to_string()]);
}

#[test]
fn discovered_files_are_classified_in_order() {
    let rules = rules("*.log\n");
    assert_eq!(classify_discovered_file("a/b/c.rs", Some(2), false, false, &rules), DiscoveryDecision::TooDeep);
    assert_eq!(classify_discovered_file(".env", None, false, false, &rules), DiscoveryDecision::Hidden);
    assert_eq!(classify_discovered_file(".env", None, true, false, &rules), DiscoveryDecision::Candidate);
    assert_eq!(classify_discovered_file("target/x.rs", None, false, false, &rules), DiscoveryDecision::DefaultIgnored);
    assert_eq!(classify_discovered_file("target/keep/x.rs", None, false, false, &rules), DiscoveryDecision::Candidate);
    assert_eq!(classify_discovered_file("target/x.rs", None, false, true, &rules), DiscoveryDecision::Candidate);
    assert_eq!(
        classify_discovered_file("app.log", None, false, false, &rules),
        DiscoveryDecision::Ignored { source: ".gitignore".to_string(), pattern: "*.log".to_string() }
    );
    assert_eq!(classify_discovered_file("src/main.rs", None, false, false, &rules), DiscoveryDecision::Candidate);
}

#[test]
fn discovery_decisions_are_counted() {
    let mut report = DiscoveryReport::default();
    record_discovery_decision(&mut report, &DiscoveryDecision::TooDeep, true, "/r/a/b/c", "a/b/c");
    record_discovery_decision(&mut report, &DiscoveryDecision::Hidden, true, "/r/.env", ".env");
    record_discovery_decision(&mut report, &DiscoveryDecision::DefaultIgnored, false, "/r/target/x", "target/x");
    record_discovery_decision(&mut report, &DiscoveryDecision::Candidate, true, "/r/src/a.rs", "src/a.rs");
    assert_eq!(report.max_depth_skipped, 1);
    assert_eq!(report.hidden_skipped, 1);
    assert_eq!(report.ignore_skipped, 1);
    assert_eq!(report.diagnostics.len(), 1);
    assert_eq!(report.diagnostics[0].kind, DiagnosticKind::IgnoreExcluded);
    assert_eq!(report.diagnostics[0].message, "Excluded by hidden pattern `path contains hidden component`");
    record_unreadable_entry(&mut report, "permission denied");
    assert_eq!(report.unreadable_entries, 1);
    assert_eq!(report.diagnostics[1].kind, DiagnosticKind::WalkWarning);
}

#[test]
fn hidden_components_are_dot_segments() {
    assert!(path_has_hidden_component("src/.cache/x.rs"));
    assert!(!path_has_hidden_component("src/main.rs"));
    assert!(!path_has_hidden_component("../src/main.rs"));
}

#[test]
fn candidates_sort_by_display_then_resolved_path() {
    let sorted = sort_candidates(vec![
        identity("src/b.rs", "/r/src/b.rs"),
        identity("src/a.rs", "/r2/src/a.rs"),
        identity("README", "/r/README"),
        identity("src/a.rs", "/r1/src/a.rs"),
    ]);
    let order: Vec<(&str, &str)> =
        sorted.iter().map(|c| (c.display_path.as_str(), c.resolved_path.as_str())).collect();
    assert_eq!(
        order,
        vec![("README", "/r/README"), ("src/a.rs", "/r1/src/a.rs"), ("src/a.rs", "/r2/src/a.rs"), ("src/b.rs", "/r/src/b.rs")]
    );
}

#[test]
fn modes_render_like_ls() {
    assert_eq!(format_mode(0o100644), "-rw-r--r--");
    assert_eq!(format_mode(0o040755), "drwxr-xr-x");
    assert_eq!(format_mode(0o100000), "----------");
}

#[test]
fn resolved_paths_under_the_root_get_a_canonical_identity() {
    let id = identity_from_resolved("/repo/src/main.rs", "/repo", ".");
    assert_eq!(id.display_path, "./src/main.rs");
    assert_eq!(id.resolved_path, "/repo/src/main.rs");
    assert_eq!(id.root_relative_path.as_deref(), Some("src/main.rs"));
    assert_eq!(id.resolution, PathResolution::Canonical);
    let outside = identity_from_resolved("/other/main.rs", "/repo", ".");
    assert_eq!(outside.display_path, "/other/main.rs");
    assert!(outside.root_relative_path.is_none());
    assert_eq!(outside.resolution, PathResolution::Fallback);
    assert!(path_within_root("/repo/src/main.rs", "/repo"));
    assert!(!path_within_root("/repository/main.rs", "/repo"));
}

#[test]
fn glob_patterns_that_cannot_be_built_match_nothing() {
    assert!(any_pattern_matches(&vec!["*.log".to_string()], "build/app.log"));
    assert!(!any_pattern_matches(&vec!["*.log".to_string()], "build/app.rs"));
    let huge = "?".repeat(200_000);
    assert!(!any_pattern_matches(&vec![huge], "a"));
    assert!(!any_pattern_matches(&vec!["[".to_string()], "["));
}

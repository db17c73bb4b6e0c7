use rdump::contracts::{ErrorMode, SemanticMatchMode, SnippetMode};
use rdump::mcp::{build_search_request, normalize_query, parse_continuation_offset, parse_usize, McpSearchArgs};

fn empty_args() -> McpSearchArgs {
    McpSearchArgs {
        query: None,
        root: None,
        presets: None,
        no_ignore: None,
        hidden: None,
        max_depth: None,
        sql_dialect: None,
        sql_strict: None,
        output: None,
        limits: None,
        context_lines: None,
        error_mode: None,
        skip_errors: None,
        execution_budget_ms: None,
        semantic_budget_ms: None,
        max_semantic_matches_per_file: None,
        language_override: None,
        semantic_match_mode: None,
        snippet_mode: None,
        semantic_strict: None,
        strict_path_resolution: None,
        snapshot_drift_detection: None,
        ignore_debug: None,
        language_debug: None,
        sql_trace: None,
        execution_profile: None,
        offset: None,
        continuation_token: None,
        path_display: None,
        line_endings: None,
        include_match_text: None,
    }
}

#[test]
fn usize_parsing_follows_std() {
    assert_eq!(parse_usize("42"), Some(42));
    assert_eq!(parse_usize("+7"), Some(7));
    assert_eq!(parse_usize(""), None);
    assert_eq!(parse_usize("+"), None);
    assert_eq!(parse_usize("-1"), None);
    assert_eq!(parse_usize("1x"), None);
    assert_eq!(parse_usize("99999999999999999999999"), None);
    assert_eq!(parse_continuation_offset("offset:25"), Some(25));
    assert_eq!(parse_continuation_offset("session:v1:1:25:ab"), None);
}

#[test]
fn queries_need_text_or_presets() {
    assert_eq!(normalize_query(Some("ext:rs".to_string()), &None).unwrap(), "ext:rs");
    assert_eq!(normalize_query(Some("   ".to_string()), &Some(vec!["rust".to_string()])).unwrap(), "");
    assert_eq!(
        normalize_query(None, &Some(vec![])).unwrap_err(),
        "search requires a non-empty query or at least one preset"
    );
}

#[test]
fn requests_take_defaults_and_offsets() {
    let mut args = empty_args();
    args.query = Some("func:main".to_string());
    args.skip_errors = Some(false);
    args.continuation_token = Some("offset:10".to_string());
    let request = build_search_request(args).unwrap();
    assert_eq!(request.query, "func:main");
    assert_eq!(request.error_mode, ErrorMode::FailFast);
    assert_eq!(request.offset, 10);
    assert!(request.snapshot_drift_detection);
    assert!(request.include_match_text);
    assert_eq!(request.semantic_match_mode, SemanticMatchMode::Exact);
    assert_eq!(request.snippet_mode, SnippetMode::PreserveLineEndings);
    assert!(build_search_request(empty_args()).is_err());
}


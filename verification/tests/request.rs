use rdump::contracts::{
    ErrorCode, ErrorMode, FileIdentity, Limits, LimitValue, PathMetadata, PathResolution, ResultKind, SearchItem,
    SearchRequest, SearchStatus,
};
use rdump::request::{
    classify_error_message, error_envelope, language_capability_matrix, predicate_catalog, resolve_limits, PageBuilder,
    PendingSearchItem, SearchRequestPager,
};
use std::collections::VecDeque;

fn path_entry(path: &str, approx_bytes: usize) -> PendingSearchItem {
    let item = SearchItem::Path {
        path: path.to_string(),
        file: FileIdentity {
            display_path: path.to_string(),
            resolved_path: path.to_string(),
            root_relative_path: Some(path.to_string()),
            resolution: PathResolution::Canonical,
        },
        fingerprint: "0000000000000000".to_string(),
        metadata: PathMetadata {
            size_bytes: 1,
            modified_unix_millis: None,
            readonly: false,
            permissions_display: "-rw-r--r--".to_string(),
        },
        result_kind: ResultKind::WholeFile,
        item_truncated: false,
    };
    PendingSearchItem { item, path: path.to_string(), diagnostics: Vec::new(), match_count: 1, approx_bytes }
}

fn pager_with(max_results: usize, max_total_bytes: usize, error_mode: ErrorMode) -> SearchRequestPager {
    let mut limits = Limits::default();
    limits.max_results = LimitValue::Value(max_results);
    limits.max_total_bytes = LimitValue::Value(max_total_bytes);
    let mut request = SearchRequest::default();
    request.query = "ext:rs".to_string();
    request.limits = Some(limits);
    request.error_mode = error_mode;
    SearchRequestPager::new(request, "s1".to_string(), "ext:rs".to_string())
}

#[test]
fn error_messages_are_classified_by_their_words() {
    let e = classify_error_message("Invalid query syntax: expected value");
    assert_eq!(e.code, ErrorCode::QueryValidation);
    assert!(!e.remediation.retryable);
    assert_eq!(
        e.remediation.suggested_action.as_deref(),
        Some("Run `rdump query explain` or `validate_query` to inspect the query.")
    );
    let e = classify_error_message("Search exceeded configured time budget of 5ms");
    assert_eq!(e.code, ErrorCode::SearchBudgetExceeded);
    assert!(e.remediation.retryable);
    let e = classify_error_message("Search CANCELLED by host");
    assert_eq!(e.code, ErrorCode::SearchCancelled);
    assert!(e.remediation.retryable);
    let e = classify_error_message("disk failure");
    assert_eq!(e.code, ErrorCode::SearchExecution);
    assert_eq!(e.message, "disk failure");
    assert!(e.field.is_none());
    let envelope = error_envelope(e.clone(), SearchStatus::InvalidQuery);
    assert_eq!(envelope.schema_version, "rdump.v1");
    assert_eq!(envelope.error, e);
}

#[test]
fn full_pages_are_truncated_unless_the_source_is_done() {
    let mut limits = resolve_limits(None);
    limits.max_results = 0;
    let mut page = PageBuilder::new();
    assert!(page.is_full(&limits));
    page.close_full(false);
    assert!(page.truncated);
    assert_eq!(page.truncation_reason.as_deref(), Some("max_results"));
    let mut done = PageBuilder::new();
    done.close_full(true);
    assert!(!done.truncated);
    assert!(done.truncation_reason.is_none());
}

#[test]
fn page_errors_follow_the_error_mode() {
    let mut limits = resolve_limits(None);
    limits.max_errors = 1;
    let mut page = PageBuilder::new();
    assert_eq!(page.record_error(&limits, ErrorMode::SkipErrors, "one".to_string()), Ok(()));
    assert_eq!(page.record_error(&limits, ErrorMode::SkipErrors, "two".to_string()), Ok(()));
    assert_eq!(page.errors.len(), 1);
    assert_eq!(page.record_error(&limits, ErrorMode::FailFast, "three".to_string()), Err("three".to_string()));
}

#[test]
fn predicate_catalog_lists_aliases() {
    let catalog = predicate_catalog();
    assert_eq!(catalog.schema_version, "rdump.v1");
    assert_eq!(catalog.predicates[4].name, "contains");
    assert_eq!(catalog.predicates[4].aliases, vec!["c".to_string()]);
    assert_eq!(catalog.predicates[4].deprecated_aliases, vec!["content".to_string()]);
    assert_eq!(catalog.predicates[17].name, "matches");
    assert_eq!(catalog.predicates[17].aliases, vec!["m".to_string()]);
}

#[test]
fn pages_advance_the_offset_and_continue_where_they_stopped() {
    let mut pager = pager_with(2, 1_000_000, ErrorMode::SkipErrors);
    let mut source: VecDeque<Result<PendingSearchItem, String>> = VecDeque::new();
    source.push_back(Ok(path_entry("a.rs", 10)));
    source.push_back(Err("unreadable b.rs".to_string()));
    source.push_back(Ok(path_entry("c.rs", 10)));
    source.push_back(Ok(path_entry("d.rs", 10)));
    let first = pager.fill_page(&mut source, false).unwrap();
    assert_eq!(first.results.len(), 2);
    assert_eq!(first.errors.len(), 1);
    assert_eq!(first.errors[0].message, "unreadable b.rs");
    assert_eq!(first.errors[0].code, ErrorCode::SearchExecution);
    assert!(first.truncated);
    assert_eq!(first.truncation_reason.as_deref(), Some("max_results"));
    assert_eq!(first.status, SearchStatus::TruncatedSuccess);
    assert_eq!(first.next_offset, Some(2));
    assert_eq!(first.continuation_token.as_deref(), Some("offset:2"));
    assert_eq!(first.returned_matches, 2);
    assert_eq!(pager.current_offset(), 2);
    let second = pager.fill_page(&mut source, false).unwrap();
    assert_eq!(second.results.len(), 1);
    assert!(!second.truncated);
    assert!(second.truncation_reason.is_none());
    assert_eq!(second.next_offset, None);
    assert!(second.continuation_token.is_none());
    assert_eq!(second.status, SearchStatus::FullSuccess);
    assert_eq!(pager.current_offset(), 3);
    assert!(pager.is_finished());
}

#[test]
fn an_item_over_the_byte_budget_waits_for_the_next_page() {
    let mut pager = pager_with(10, 25, ErrorMode::SkipErrors);
    let mut source: VecDeque<Result<PendingSearchItem, String>> = VecDeque::new();
    source.push_back(Ok(path_entry("a.rs", 20)));
    source.push_back(Ok(path_entry("b.rs", 20)));
    let first = pager.fill_page(&mut source, false).unwrap();
    assert_eq!(first.results.len(), 1);
    assert!(first.truncated);
    assert_eq!(first.truncation_reason.as_deref(), Some("max_total_bytes"));
    assert_eq!(first.next_offset, Some(1));
    let second = pager.fill_page(&mut source, false).unwrap();
    assert_eq!(second.results.len(), 1);
    match &second.results[0] {
        SearchItem::Path { path, .. } => assert_eq!(path, "b.rs"),
        other => panic!("unexpected item {other:?}"),
    }
    assert!(!second.truncated);
    assert_eq!(pager.current_offset(), 2);
}

#[test]
fn fail_fast_pages_stop_at_the_first_error_and_cancelled_pages_are_truncated() {
    let mut pager = pager_with(10, 1_000_000, ErrorMode::FailFast);
    let mut source: VecDeque<Result<PendingSearchItem, String>> = VecDeque::new();
    source.push_back(Err("boom".to_string()));
    assert_eq!(pager.fill_page(&mut source, false).err(), Some("boom".to_string()));
    let mut pager = pager_with(10, 1_000_000, ErrorMode::SkipErrors);
    let mut source: VecDeque<Result<PendingSearchItem, String>> = VecDeque::new();
    source.push_back(Ok(path_entry("a.rs", 5)));
    let page = pager.fill_page(&mut source, true).unwrap();
    assert!(page.truncated);
    assert_eq!(page.truncation_reason.as_deref(), Some("cancelled"));
    assert_eq!(page.status, SearchStatus::TruncatedSuccess);
    assert_eq!(page.next_offset, Some(1));
}

#[test]
fn capability_matrix_lists_each_builtin_language_once() {
    let m = language_capability_matrix();
    let ids: Vec<&str> = m.languages.iter().map(|l| l.id.as_str()).collect();
    for id in ["c", "php", "ex", "lua", "ml", "scala", "swift", "rs", "py", "go", "ts", "jsx"] {
        assert_eq!(ids.iter().filter(|x| **x == id).count(), 1, "{id}");
    }
    assert_eq!(ids.len(), 12);
    let rust = m.languages.iter().find(|l| l.id == "rs").unwrap();
    assert_eq!(rust.name, "Rust");
    assert_eq!(rust.predicates.content, vec!["contains".to_string(), "matches".to_string()]);
}

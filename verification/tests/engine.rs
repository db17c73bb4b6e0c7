use rdump::backend::{
    BackendFileType, BackendMetadata, BackendPathIdentity, DiscoveryReport, DiscoveryRequest, SearchBackend,
};
use rdump::content::{ContentState, DiagnosticKind, DiagnosticLevel, SearchDiagnostic};
use rdump::engine::{
    absorb_loaded_result, finish_search_report, budget_error, hex16_text, materialize_raw_search_item, prefilter_error, search_time_budget, CandidateEntry, EngineState,
    Evaluation, RawSearchItem, StepOutcome,
};
use rdump::contracts::{LineEndingMode, OutputMode, SearchItem, SnippetMode};
use rdump::model::{FileSnapshot, PathResolution, ResultKind, SearchMaterializationFailureKind, TextPoint, TextRange};
use rdump::request::{resolve_limits, shape_item, shape_path_item};

struct OneFileBackend {
    path: String,
    bytes: Vec<u8>,
    token: Option<String>,
    stat_fails: bool,
}

impl OneFileBackend {
    fn metadata(&self) -> BackendMetadata {
        BackendMetadata {
            size_bytes: self.bytes.len() as u64,
            modified_unix_millis: Some(1_700_000_000_000),
            readonly: false,
            permissions_display: "-rw-r--r--".to_string(),
            file_type: BackendFileType::File,
            stable_token: self.token.clone(),
            device_id: None,
            inode: None,
        }
    }
}

impl SearchBackend for OneFileBackend {
    fn normalize_root(&self, root: &str) -> Result<String, String> {
        Ok(root.to_string())
    }

    fn discover(&self, _request: &DiscoveryRequest) -> Result<DiscoveryReport, String> {
        Ok(DiscoveryReport::default())
    }

    fn normalize_path(&self, _root: &str, _display_root: &str, path: &str) -> Result<BackendPathIdentity, String> {
        Err(format!("not supported: {}", path))
    }

    fn stat(&self, path: &str) -> Result<BackendMetadata, String> {
        if self.stat_fails || path != self.path {
            Err(format!("no such file {}", path))
        } else {
            Ok(self.metadata())
        }
    }

    fn read_bytes(&self, path: &str) -> Result<Vec<u8>, String> {
        if path == self.path {
            Ok(self.bytes.clone())
        } else {
            Err(format!("no such file {}", path))
        }
    }
}

fn identity(display: &str, resolution: PathResolution) -> BackendPathIdentity {
    BackendPathIdentity {
        display_path: display.to_string(),
        resolved_path: format!("/root/{}", display),
        root_relative_path: Some(display.to_string()),
        resolution,
    }
}

fn candidate(display: &str, resolution: PathResolution) -> CandidateEntry {
    CandidateEntry { identity: identity(display, resolution), estimated_bytes: 0 }
}

fn range(start: usize, end: usize, row: usize) -> TextRange {
    TextRange {
        start_byte: start,
        end_byte: end,
        start_point: TextPoint { row, column: 0 },
        end_point: TextPoint { row, column: end - start },
    }
}

fn state_with(names: &[&str]) -> EngineState {
    let mut discovery = DiscoveryReport::default();
    discovery.candidates = names.iter().map(|n| identity(n, PathResolution::Canonical)).collect();
    discovery.hidden_skipped = 3;
    EngineState::new(discovery, 17)
}

fn snapshot(token: &str) -> FileSnapshot {
    FileSnapshot {
        len: 13,
        modified_unix_millis: Some(1_700_000_000_000),
        readonly: false,
        permissions_display: "-rw-r--r--".to_string(),
        stable_token: Some(token.to_string()),
        device_id: None,
        inode: None,
    }
}

fn raw_item(ranges: Vec<TextRange>, snapshot: Option<FileSnapshot>) -> RawSearchItem {
    RawSearchItem {
        display_path: "src/main.rs".to_string(),
        resolved_path: "/root/src/main.rs".to_string(),
        root_relative_path: Some("src/main.rs".to_string()),
        resolution: PathResolution::Canonical,
        ranges,
        diagnostics: vec![],
        semantic_skip_reasons: vec![],
        snapshot,
    }
}

fn backend(token: &str, stat_fails: bool) -> OneFileBackend {
    OneFileBackend {
        path: "/root/src/main.rs".to_string(),
        bytes: b"fn main() {}\n".to_vec(),
        token: Some(token.to_string()),
        stat_fails,
    }
}

#[test]
fn budget_error_names_the_budget() {
    assert_eq!(
        budget_error(150, Some(100)),
        Some("Search exceeded configured time budget of 100ms".to_string())
    );
    assert_eq!(budget_error(100, Some(100)), None);
    assert_eq!(budget_error(5_000, None), None);
}

#[test]
fn time_budget_prefers_a_positive_option_then_the_environment() {
    assert_eq!(search_time_budget(Some(250), Some("10")), Some(250));
    assert_eq!(search_time_budget(Some(0), Some("40")), Some(40));
    assert_eq!(search_time_budget(None, Some("40")), Some(40));
    assert_eq!(search_time_budget(None, Some("0")), None);
    assert_eq!(search_time_budget(None, Some("forty")), None);
    assert_eq!(search_time_budget(None, None), None);
}

#[test]
fn prefilter_error_names_the_path() {
    assert_eq!(prefilter_error("src/a.rs", "boom"), "Error during pre-filter on src/a.rs: boom");
}

#[test]
fn engine_state_hands_out_candidates_in_order() {
    let mut state = state_with(&["a.rs", "b.rs"]);
    assert_eq!(state.stats.candidate_files, 2);
    assert_eq!(state.stats.hidden_skipped, 3);
    assert_eq!(state.stats.walk_millis, 17);
    // "/root/a.rs" (10) + "a.rs" (4) + "a.rs" (4) + 64 per candidate.
    assert_eq!(state.candidates[0].estimated_bytes, 82);
    assert_eq!(state.remaining_candidate_bytes, 164);
    assert_eq!(state.estimated_state_bytes(), 164);
    assert_eq!(state.remaining_hint(), 2);
    let first = state.next_candidate().expect("first candidate");
    assert_eq!(first.identity.display_path, "a.rs");
    assert_eq!(state.remaining_hint(), 1);
    assert_eq!(state.remaining_candidate_bytes, 82);
    let second = state.next_candidate().expect("second candidate");
    assert_eq!(second.identity.display_path, "b.rs");
    assert!(state.next_candidate().is_none());
    assert_eq!(state.remaining_candidate_bytes, 0);
}

#[test]
fn prefilter_notes_update_counters_and_diagnostics() {
    let mut state = state_with(&["a.rs"]);
    state.note_prefilter_passed();
    assert_eq!(state.stats.prefiltered_files, 1);
    let d = SearchDiagnostic::new(DiagnosticLevel::Warn, DiagnosticKind::WalkWarning, "odd".to_string(), None);
    state.note_prefilter_rejected(vec![d]);
    assert_eq!(state.diagnostics.len(), 1);
    assert_eq!(state.stats.diagnostics, 1);
    // "odd" (3) + 32.
    assert_eq!(state.estimated_state_bytes(), 82 + 35);
}

#[test]
fn finish_evaluation_yields_whole_file_and_ranged_items() {
    let mut state = state_with(&["a.rs"]);
    let out = state.finish_evaluation(
        candidate("a.rs", PathResolution::Canonical),
        Evaluation::Boolean(true),
        vec![],
        vec![],
        None,
        false,
    );
    match out {
        StepOutcome::Item(item) => {
            assert_eq!(item.display_path, "a.rs");
            assert_eq!(item.resolved_path, "/root/a.rs");
            assert!(item.ranges.is_empty());
            assert!(item.diagnostics.is_empty());
        },
        other => panic!("unexpected outcome {:?}", other),
    }
    assert_eq!(state.stats.evaluated_files, 1);
    assert_eq!(state.stats.matched_files, 1);
    assert_eq!(state.stats.whole_file_results, 1);

    let out = state.finish_evaluation(
        candidate("a.rs", PathResolution::Canonical),
        Evaluation::Hunks(vec![range(0, 2, 0), range(3, 7, 0)]),
        vec![],
        vec![],
        None,
        true,
    );
    match out {
        StepOutcome::Item(item) => assert_eq!(item.ranges.len(), 2),
        other => panic!("unexpected outcome {:?}", other),
    }
    assert_eq!(state.stats.ranged_results, 1);
    assert_eq!(state.stats.matched_ranges, 2);
    assert_eq!(state.stats.matched_files, 2);
}

#[test]
fn finish_evaluation_without_a_match_keeps_path_diagnostics() {
    let mut state = state_with(&["a.rs"]);
    let d = SearchDiagnostic::new(DiagnosticLevel::Info, DiagnosticKind::LanguageSelection, "picked".to_string(), None);
    let out = state.finish_evaluation(
        candidate("a.rs", PathResolution::Canonical),
        Evaluation::Boolean(false),
        vec![d],
        vec![],
        None,
        false,
    );
    assert!(matches!(out, StepOutcome::Continue));
    assert_eq!(state.diagnostics.len(), 1);
    assert_eq!(state.stats.diagnostics, 1);
    assert_eq!(state.stats.matched_files, 0);
    let out = state.finish_evaluation(
        candidate("a.rs", PathResolution::Canonical),
        Evaluation::Hunks(vec![]),
        vec![],
        vec![],
        None,
        false,
    );
    assert!(matches!(out, StepOutcome::Continue));
    assert_eq!(state.stats.evaluated_files, 2);
}

#[test]
fn finish_evaluation_errors() {
    let mut state = state_with(&["a.rs"]);
    let out = state.finish_evaluation(
        candidate("a.rs", PathResolution::Canonical),
        Evaluation::Failed("bad query".to_string()),
        vec![],
        vec![],
        None,
        false,
    );
    match out {
        StepOutcome::Error(m) => assert_eq!(m, "Error evaluating file /root/a.rs: bad query"),
        other => panic!("unexpected outcome {:?}", other),
    }
    let out = state.finish_evaluation(
        candidate("a.rs", PathResolution::Fallback),
        Evaluation::Boolean(true),
        vec![],
        vec![],
        None,
        true,
    );
    match out {
        StepOutcome::Error(m) => assert_eq!(m, "Strict path resolution failed for /root/a.rs"),
        other => panic!("unexpected outcome {:?}", other),
    }
}

#[test]
fn fallback_paths_carry_a_resolution_note() {
    let mut state = state_with(&["a.rs"]);
    let out = state.finish_evaluation(
        candidate("a.rs", PathResolution::Fallback),
        Evaluation::Boolean(true),
        vec![],
        vec![],
        None,
        false,
    );
    match out {
        StepOutcome::Item(item) => {
            assert_eq!(item.diagnostics.len(), 1);
            assert_eq!(item.diagnostics[0].kind, DiagnosticKind::PathResolutionFallback);
            assert_eq!(item.diagnostics[0].path.as_deref(), Some("a.rs"));
        },
        other => panic!("unexpected outcome {:?}", other),
    }
}

#[test]
fn materialize_builds_matches_from_ranges() {
    let backend = backend("t1", false);
    let result = materialize_raw_search_item(&backend, raw_item(vec![range(3, 7, 0)], Some(snapshot("t1"))))
        .expect("materialized");
    assert_eq!(result.path, "src/main.rs");
    assert_eq!(result.content, "fn main() {}\n");
    assert_eq!(result.content_state, ContentState::Loaded);
    assert_eq!(result.matches.len(), 1);
    assert_eq!(result.matches[0].text, "main");
    assert_eq!(result.metadata.result_kind, ResultKind::Ranged);
    assert!(!result.metadata.snapshot_drift);
    assert_eq!(result.metadata.fingerprint.len(), 16);
    assert!(result.metadata.fingerprint.chars().all(|c| c.is_ascii_hexdigit()));

    let whole = materialize_raw_search_item(&backend, raw_item(vec![], Some(snapshot("t1")))).expect("materialized");
    assert_eq!(whole.metadata.result_kind, ResultKind::WholeFile);
    assert!(whole.matches.is_empty());
    assert_ne!(whole.metadata.fingerprint, result.metadata.fingerprint);
}

#[test]
fn materialize_notes_snapshot_drift() {
    let backend = backend("t2", false);
    let result = materialize_raw_search_item(&backend, raw_item(vec![], Some(snapshot("t1")))).expect("materialized");
    assert!(result.metadata.snapshot_drift);
    let last = result.diagnostics.last().expect("drift diagnostic");
    assert_eq!(last.kind, DiagnosticKind::SnapshotDrift);
}

#[test]
fn materialize_reports_read_failures() {
    let backend = backend("t1", true);
    let err = materialize_raw_search_item(&backend, raw_item(vec![], None)).expect_err("read fails");
    assert_eq!(err.kind, SearchMaterializationFailureKind::ContentReadFailed);
    assert!(!err.snapshot_drift);
    assert_eq!(err.message, "Failed to read metadata for src/main.rs");
    let err = materialize_raw_search_item(&backend, raw_item(vec![], Some(snapshot("t1")))).expect_err("read fails");
    assert!(err.snapshot_drift);
    assert_eq!(
        err.message,
        "Materialization for /root/src/main.rs may have drifted since evaluation: Failed to read metadata for src/main.rs"
    );
}

fn shape(backend: &OneFileBackend, output: OutputMode, raw: RawSearchItem) -> Result<rdump::request::PendingSearchItem, String> {
    shape_item(
        backend,
        output,
        raw,
        1,
        SnippetMode::Normalized,
        &resolve_limits(None),
        None,
        LineEndingMode::Preserve,
        false,
    )
}

#[test]
fn path_items_take_fingerprint_and_metadata_from_the_snapshot() {
    let backend = backend("t1", false);
    let pending = shape_path_item(&backend, raw_item(vec![range(3, 7, 0)], Some(snapshot("t1"))), None).expect("shaped");
    assert_eq!(pending.path, "src/main.rs");
    assert_eq!(pending.match_count, 0);
    // path 13 + identity (13 + 19 + 13 + 8) + fingerprint 4 + permissions 12 + time 8 + 56.
    assert_eq!(pending.approx_bytes, 146);
    match pending.item {
        SearchItem::Path { path, fingerprint, metadata, result_kind, item_truncated, .. } => {
            assert_eq!(path, "src/main.rs");
            assert_eq!(fingerprint, "t1");
            assert_eq!(metadata.size_bytes, 13);
            assert_eq!(result_kind, rdump::contracts::ResultKind::Ranged);
            assert!(!item_truncated);
        },
        other => panic!("unexpected item {:?}", other),
    }
}

#[test]
fn path_items_without_snapshot_ask_the_backend() {
    let mut backend = backend("t1", false);
    backend.token = None;
    let pending = shape_path_item(&backend, raw_item(vec![], None), None).expect("shaped");
    match pending.item {
        SearchItem::Path { fingerprint, result_kind, .. } => {
            assert_eq!(fingerprint, "13:1700000000000:false:0:0");
            assert_eq!(result_kind, rdump::contracts::ResultKind::WholeFile);
        },
        other => panic!("unexpected item {:?}", other),
    }
    let failing = super_backend_failing();
    assert_eq!(
        shape_path_item(&failing, raw_item(vec![], None), None).expect_err("stat fails"),
        "no such file /root/src/main.rs"
    );
}

fn super_backend_failing() -> OneFileBackend {
    backend("t1", true)
}

#[test]
fn shape_item_builds_content_items() {
    let backend = backend("t1", false);
    let pending = shape(&backend, OutputMode::Summary, raw_item(vec![range(3, 7, 0)], Some(snapshot("t1")))).expect("shaped");
    assert_eq!(pending.match_count, 1);
    match pending.item {
        SearchItem::Summary { matches, whole_file_match, content_state, .. } => {
            assert_eq!(matches, 1);
            assert!(!whole_file_match);
            assert_eq!(content_state.as_deref(), Some("loaded"));
        },
        other => panic!("unexpected item {:?}", other),
    }
    let pending = shape(&backend, OutputMode::Snippets, raw_item(vec![range(3, 7, 0)], Some(snapshot("t1")))).expect("shaped");
    match pending.item {
        SearchItem::Snippets { snippets, .. } => {
            assert_eq!(snippets.len(), 1);
            assert_eq!(snippets[0].text, "fn main() {}\n");
        },
        other => panic!("unexpected item {:?}", other),
    }
}

#[test]
fn shape_item_reports_read_failures_and_stale_ranges() {
    let failing = super_backend_failing();
    assert_eq!(
        shape(&failing, OutputMode::Matches, raw_item(vec![], None)).expect_err("read fails"),
        "Failed to materialize src/main.rs (ContentReadFailed, snapshot_drift=false): Failed to read metadata for src/main.rs"
    );
    let backend = backend("t1", false);
    assert_eq!(
        shape(&backend, OutputMode::Snippets, raw_item(vec![range(3, 7, 5)], None)).expect_err("stale"),
        "Match ranges of src/main.rs lie outside its current content"
    );
}

fn loaded_result(path: &str, matches: usize, state: ContentState) -> rdump::model::SearchResult {
    let mut result = rdump::model::SearchResult {
        path: path.to_string(),
        matches: vec![],
        content: String::new(),
        content_state: state,
        diagnostics: vec![SearchDiagnostic::new(DiagnosticLevel::Info, DiagnosticKind::ContentSkipped, format!("note {}", path), None)],
        metadata: rdump::model::SearchResultMetadata::default(),
    };
    for i in 0..matches {
        result.matches.push(rdump::model::Match {
            start_line: i + 1,
            end_line: i + 1,
            start_column: 0,
            end_column: 1,
            byte_range: i..i + 1,
            text: "x".to_string(),
        });
    }
    result
}

#[test]
fn absorbing_results_keeps_or_skips_per_error_mode() {
    let mut results = Vec::new();
    let mut diagnostics = Vec::new();
    let mode_skip = rdump::contracts::ErrorMode::SkipErrors;
    let mode_fail = rdump::contracts::ErrorMode::FailFast;
    assert!(absorb_loaded_result(&mut results, &mut diagnostics, Ok(loaded_result("a", 1, ContentState::Loaded)), mode_skip, false).is_ok());
    assert_eq!(results.len(), 1);
    assert_eq!(diagnostics.len(), 1);
    assert_eq!(diagnostics[0].message, "note a");
    assert!(absorb_loaded_result(&mut results, &mut diagnostics, Err("boom".to_string()), mode_skip, false).is_ok());
    assert_eq!(diagnostics.len(), 2);
    assert_eq!(diagnostics[1].kind, DiagnosticKind::WalkWarning);
    assert_eq!(diagnostics[1].message, "Skipping result after per-file error: boom");
    assert_eq!(
        absorb_loaded_result(&mut results, &mut diagnostics, Err("boom".to_string()), mode_skip, true),
        Err("boom".to_string())
    );
    assert_eq!(
        absorb_loaded_result(&mut results, &mut diagnostics, Err("bang".to_string()), mode_fail, false),
        Err("bang".to_string())
    );
    assert_eq!(results.len(), 1);
    assert_eq!(diagnostics.len(), 2);
}

#[test]
fn finished_reports_count_result_kinds() {
    let results = vec![
        loaded_result("a", 0, ContentState::Loaded),
        loaded_result("b", 2, ContentState::Loaded),
        loaded_result("c", 0, ContentState::Skipped { reason: rdump::content::ContentSkipReason::TooLarge }),
        loaded_result("d", 0, ContentState::Skipped { reason: rdump::content::ContentSkipReason::Binary }),
        loaded_result("e", 0, ContentState::Skipped { reason: rdump::content::ContentSkipReason::Binary }),
    ];
    let mut stats = rdump::model::SearchStats::default();
    stats.candidate_files = 9;
    let engine_diag = SearchDiagnostic::new(DiagnosticLevel::Warn, DiagnosticKind::WalkWarning, "walk".to_string(), None);
    let result_diag = SearchDiagnostic::new(DiagnosticLevel::Info, DiagnosticKind::ContentSkipped, "skip".to_string(), None);
    let report = finish_search_report(results, stats, vec![engine_diag], vec![result_diag], 12);
    assert_eq!(report.results.len(), 5);
    assert_eq!(report.stats.whole_file_results, 4);
    assert_eq!(report.stats.ranged_results, 1);
    assert_eq!(report.stats.suppressed_too_large, 1);
    assert_eq!(report.stats.suppressed_binary, 2);
    assert_eq!(report.stats.suppressed_secret_like, 0);
    assert_eq!(report.stats.candidate_files, 9);
    assert_eq!(report.stats.diagnostics, 2);
    assert_eq!(report.stats.materialize_millis, 12);
    assert_eq!(report.diagnostics[0].message, "walk");
    assert_eq!(report.diagnostics[1].message, "skip");
}

#[test]
fn pager_settings_default_from_the_request() {
    let mut request = rdump::contracts::SearchRequest::default();
    request.query = "ext:rs".to_string();
    let pager = rdump::request::SearchRequestPager::new(request, "s1".to_string(), "ext:rs".to_string());
    assert_eq!(pager.output, OutputMode::Snippets);
    assert_eq!(pager.context_lines, 2);
    assert_eq!(pager.root, ".");
    assert_eq!(pager.line_endings, LineEndingMode::Preserve);
    assert_eq!(pager.current_offset(), 0);
    assert!(!pager.is_finished());
}

#[test]
fn pager_polls_held_back_items_first() {
    let mut request = rdump::contracts::SearchRequest::default();
    request.error_mode = rdump::contracts::ErrorMode::FailFast;
    let mut pager = rdump::request::SearchRequestPager::new(request, "s1".to_string(), String::new());
    assert!(pager.begin());
    assert!(!pager.begin());
    assert!(matches!(pager.poll(), rdump::request::PagerPoll::PullNext));
    let backend = backend("t1", false);
    let item = shape_path_item(&backend, raw_item(vec![], Some(snapshot("t1"))), None).expect("shaped");
    pager.hold_back(item);
    assert!(!pager.is_finished());
    pager.note_exhausted();
    assert!(!pager.is_finished());
    match pager.poll() {
        rdump::request::PagerPoll::Pending(item) => assert_eq!(item.path, "src/main.rs"),
        other => panic!("unexpected poll {:?}", other),
    }
    assert!(pager.is_finished());
    assert!(matches!(pager.poll(), rdump::request::PagerPoll::Exhausted));
    pager.note_handed_out();
    assert_eq!(pager.current_offset(), 1);
    assert_eq!(rdump::request::skip_outcome(&mut pager, Err("bad".to_string())), Err("bad".to_string()));
    assert_eq!(pager.current_offset(), 1);
}

#[test]
fn pager_reports_each_engine_diagnostic_once() {
    let mut pager = rdump::request::SearchRequestPager::new(
        rdump::contracts::SearchRequest::default(),
        "s1".to_string(),
        String::new(),
    );
    let d = |m: &str| SearchDiagnostic::new(DiagnosticLevel::Warn, DiagnosticKind::WalkWarning, m.to_string(), None);
    let mut all = vec![d("one"), d("two")];
    let fresh = pager.take_engine_diagnostics(&all);
    assert_eq!(fresh.len(), 2);
    assert_eq!(fresh[0].level, "warn");
    all.push(d("three"));
    let fresh = pager.take_engine_diagnostics(&all);
    assert_eq!(fresh.len(), 1);
    assert_eq!(fresh[0].message, "three");
    assert!(pager.take_engine_diagnostics(&all).is_empty());
}

#[test]
fn page_response_joins_page_and_engine_statistics() {
    let backend = backend("t1", false);
    let limits = resolve_limits(None);
    let mut page = rdump::request::PageBuilder::new();
    let item = shape_path_item(&backend, raw_item(vec![], Some(snapshot("t1"))), None).expect("shaped");
    assert!(matches!(page.offer(item, &limits), rdump::request::OfferOutcome::Accepted));
    let summary = page.finish(false, true, 1);
    let mut stats = rdump::model::SearchStats::default();
    stats.candidate_files = 4;
    stats.evaluated_files = 3;
    let mut request = rdump::contracts::SearchRequest::default();
    request.query = "ext:rs".to_string();
    let engine_diag = rdump::contracts::SearchDiagnostic {
        level: "warn".to_string(),
        kind: "walkwarning".to_string(),
        message: "walk".to_string(),
        path: None,
    };
    let response = rdump::request::page_response(
        &request,
        "ext:rs",
        ".",
        OutputMode::Paths,
        &limits,
        summary,
        stats,
        vec![engine_diag],
    );
    assert_eq!(response.schema_version, "rdump.v1");
    assert_eq!(response.schema_reference, "rdump://docs/sdk");
    assert_eq!(response.results.len(), 1);
    assert_eq!(response.stats.returned_files, 1);
    assert_eq!(response.stats.whole_file_results, 1);
    assert_eq!(response.stats.candidate_files, 4);
    assert_eq!(response.stats.evaluated_files, 3);
    assert_eq!(response.stats.returned_bytes, 146);
    assert_eq!(response.stats.diagnostics, 1);
    assert_eq!(response.next_offset, None);
    assert_eq!(response.continuation_token, None);
    assert_eq!(response.page_size, Some(limits.max_results));
    assert!(!response.truncated);
}

fn iterator_item(display: &str) -> RawSearchItem {
    RawSearchItem {
        display_path: display.to_string(),
        resolved_path: format!("/root/{}", display),
        root_relative_path: None,
        resolution: PathResolution::Canonical,
        ranges: vec![],
        diagnostics: vec![],
        semantic_skip_reasons: vec![],
        snapshot: None,
    }
}

#[test]
fn test_search_result_iterator_size_hint_and_remaining() {
    let results = vec![iterator_item("file1.txt"), iterator_item("file2.txt")];
    let mut iter = rdump::engine::SearchResultIterator::new(
        backend("t1", false),
        results,
        rdump::model::SearchStats::default(),
        vec![],
    );

    assert_eq!(iter.size_hint(), (2, Some(2)));
    assert_eq!(iter.remaining(), 2);
    iter.next_result();
    assert_eq!(iter.size_hint(), (1, Some(1)));
    assert_eq!(iter.remaining(), 1);
}

#[test]
fn result_iterator_error_names_the_path_and_continues() {
    let mut ok = iterator_item("src/main.rs");
    ok.resolved_path = "/root/src/main.rs".to_string();
    let results = vec![ok, iterator_item("missing.txt")];
    let mut iter = rdump::engine::SearchResultIterator::new(
        backend("t1", false),
        results,
        rdump::model::SearchStats::default(),
        vec![],
    );
    let first = iter.next_result().expect("first item");
    assert_eq!(first.expect("loaded").content, "fn main() {}\n");
    let second = iter.next_result().expect("second item").expect_err("missing file");
    assert!(second.message.contains("missing.txt"));
    assert_eq!(second.path, "missing.txt");
    assert!(iter.next_result().is_none());
    assert!(!iter.was_cancelled());
}

#[test]
fn path_iterator_hands_out_paths_in_order() {
    let mut stats = rdump::model::SearchStats::default();
    stats.matched_files = 2;
    let mut iter = rdump::engine::SearchPathIterator::new(vec!["a.rs".to_string(), "b.rs".to_string()], stats, vec![]);
    assert_eq!(iter.size_hint(), (2, Some(2)));
    assert_eq!(iter.stats().matched_files, 2);
    assert!(iter.diagnostics().is_empty());
    assert_eq!(iter.next_path(), Some(Ok("a.rs".to_string())));
    assert_eq!(iter.remaining(), 1);
    assert_eq!(iter.next_path(), Some(Ok("b.rs".to_string())));
    assert_eq!(iter.next_path(), None);
}

#[test]
fn begin_candidate_checks_cancellation_then_budget() {
    let mut state = state_with(&["a.rs", "b.rs", "c.rs"]);
    match state.begin_candidate(false, 10, Some(100)) {
        rdump::engine::CandidateStep::Evaluate(c) => assert_eq!(c.identity.display_path, "a.rs"),
        other => panic!("unexpected step {:?}", other),
    }
    match state.begin_candidate(false, 150, Some(100)) {
        rdump::engine::CandidateStep::BudgetExceeded(m) => {
            assert_eq!(m, "Search exceeded configured time budget of 100ms")
        },
        other => panic!("unexpected step {:?}", other),
    }
    assert!(matches!(state.begin_candidate(true, 0, None), rdump::engine::CandidateStep::Cancelled));
    assert!(state.was_cancelled());
    assert_eq!(state.size_hint(), (0, Some(1)));
    assert!(matches!(state.begin_candidate(false, 0, None), rdump::engine::CandidateStep::Evaluate(_)));
    assert!(matches!(state.begin_candidate(false, 0, None), rdump::engine::CandidateStep::Exhausted));
}

#[test]
fn runtime_stats_count_cache_use_since_the_start() {
    let mut state = state_with(&["a.rs"]);
    state.add_phase_millis(5, 7);
    state.add_phase_millis(u64::MAX, 1);
    assert_eq!(state.stats.prefilter_millis, u64::MAX);
    assert_eq!(state.stats.evaluate_millis, 8);
    let mut by_language = std::collections::BTreeMap::new();
    by_language.insert("rust".to_string(), 2);
    state.refresh_runtime_stats(
        rdump::engine::RuntimeCounters {
            semantic_parse_failures: 2,
            semantic_budget_exhaustions: 1,
            semantic_parse_failures_by_language: by_language,
            tree_cache_hits: 3,
            tree_cache_misses: 4,
            query_cache_hits: 10,
            query_cache_misses: 1,
        },
        6,
        5,
    );
    assert_eq!(state.stats.query_cache_hits, 4);
    assert_eq!(state.stats.query_cache_misses, 0);
    assert_eq!(state.stats.semantic_parse_failures_by_language.get("rust"), Some(&2));
}

#[test]
fn snapshots_are_recorded_only_with_drift_detection() {
    let backend = backend("t1", false);
    let metadata = backend.metadata();
    assert!(rdump::engine::evaluation_snapshot(false, Some(metadata.clone())).is_none());
    assert!(rdump::engine::evaluation_snapshot(true, None).is_none());
    let snapshot = rdump::engine::evaluation_snapshot(true, Some(metadata)).expect("snapshot");
    assert_eq!(snapshot.len, 13);
    assert_eq!(snapshot.stable_token.as_deref(), Some("t1"));
}

#[test]
fn engine_phases_report_progress_against_their_totals() {
    let mut stats = rdump::model::SearchStats::default();
    stats.candidate_files = 10;
    stats.prefiltered_files = 4;
    stats.evaluated_files = 3;
    let events = rdump::request::engine_phase_events(&stats, "s1");
    assert_eq!(events.len(), 3);
    assert_eq!(
        events[2],
        rdump::contracts::ProgressEvent::Phase {
            session_id: "s1".to_string(),
            name: "evaluate".to_string(),
            completed_items: 3,
            total_items: Some(4),
        }
    );
    match &events[0] {
        rdump::contracts::ProgressEvent::Phase { name, completed_items, total_items, .. } => {
            assert_eq!(name, "discover");
            assert_eq!(*completed_items, 10);
            assert_eq!(*total_items, Some(10));
        },
        other => panic!("unexpected event {:?}", other),
    }
}

#[test]
fn start_event_describes_the_session() {
    let mut request = rdump::contracts::SearchRequest::default();
    request.query = "ext:rs".to_string();
    request.root = Some("/repo".to_string());
    let pager = rdump::request::SearchRequestPager::new(request, "s9".to_string(), "ext:rs & name:*".to_string());
    assert_eq!(
        rdump::request::start_event(&pager),
        rdump::contracts::ProgressEvent::Started {
            session_id: "s9".to_string(),
            query: "ext:rs".to_string(),
            effective_query: "ext:rs & name:*".to_string(),
            root: "/repo".to_string(),
            queue_wait_millis: 0,
        }
    );
}

#[test]
fn diagnostic_log_lines() {
    assert!(rdump::request::diagnostic_logging_enabled(Some("1")));
    assert!(rdump::request::diagnostic_logging_enabled(Some("TRUE")));
    assert!(!rdump::request::diagnostic_logging_enabled(Some("yes")));
    assert!(!rdump::request::diagnostic_logging_enabled(None));
    let d = SearchDiagnostic::new(DiagnosticLevel::Warn, DiagnosticKind::SnapshotDrift, "changed".to_string(), Some("a.rs".to_string()));
    assert_eq!(rdump::request::diagnostic_log_line(&d), "[warn:snapshotdrift] changed (a.rs)");
    let c = rdump::contracts::SearchDiagnostic {
        level: "info".to_string(),
        kind: "walkwarning".to_string(),
        message: "odd".to_string(),
        path: None,
    };
    assert_eq!(rdump::request::contract_diagnostic_log_line(&c), "[info:walkwarning] odd");
}

#[test]
fn page_continuation_tokens_read_back_as_their_offset() {
    let backend = backend("t1", false);
    let limits = resolve_limits(None);
    let mut page = rdump::request::PageBuilder::new();
    let item = shape_path_item(&backend, raw_item(vec![], Some(snapshot("t1"))), None).expect("shaped");
    assert!(matches!(page.offer(item, &limits), rdump::request::OfferOutcome::Accepted));
    let summary = page.finish(true, false, 7);
    assert_eq!(summary.next_offset, Some(7));
    let token = summary.continuation_token.expect("token");
    assert_eq!(token, "offset:7");
    assert_eq!(rdump::mcp::parse_continuation_offset(&token), Some(7));
}

#[test]
fn fingerprints_render_sixteen_hex_digits() {
    assert_eq!(hex16_text(0), "0000000000000000");
    assert_eq!(hex16_text(255), "00000000000000ff");
    for h in [1u64, 0xdead_beef, u64::MAX, 0x0123_4567_89ab_cdef] {
        assert_eq!(hex16_text(h), format!("{h:016x}"));
    }
}

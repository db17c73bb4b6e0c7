//! Structured requests: limit resolution, option mapping, error
//! classification, and the shaping of results into response items.

use crate::content::{opt_view, skip_reason_label, state_is_loaded, ContentState, DiagnosticKind, DiagnosticLevel};
use crate::contracts::{
    CapabilityMetadata, ContractError, ErrorCode, ErrorEnvelope, ErrorMode, ErrorRemediation, ExecutionProfile,
    LimitValue, Limits, LineEndingMode, MatchCoordinateSemantics, OutputMode, PathDisplayMode, ResultKind,
    SearchItem, SearchRequest, SearchStatus, SemanticSkipReason, StabilityTier, SurfaceStability, SCHEMA_VERSION,
};
use crate::model::{dialect_of_option, SearchOptions, SqlDialect};
use crate::text::{
    ascii_lower_seq, cap_usize, has_substring, owned, push_str, starts_with_spec, str_contains, str_eq, str_starts_with,
    string_from_chars, to_ascii_lower, views,
};
use std::collections::VecDeque;
use vstd::prelude::*;

verus! {

/// Default number of result files per page.
pub const DEFAULT_MAX_RESULTS: usize = 50;

/// Default number of matches reported per file.
pub const DEFAULT_MAX_MATCHES_PER_FILE: usize = 20;

/// Default byte budget for the content of one file.
pub const DEFAULT_MAX_BYTES_PER_FILE: usize = 20_000;

/// Default byte budget for one page.
pub const DEFAULT_MAX_TOTAL_BYTES: usize = 200_000;

/// Default byte budget for the text of one match.
pub const DEFAULT_MAX_MATCH_BYTES: usize = 200;

/// Default byte budget for the text of one snippet.
pub const DEFAULT_MAX_SNIPPET_BYTES: usize = 2_000;

/// Default number of per-file errors kept per page.
pub const DEFAULT_MAX_ERRORS: usize = 10;

/// Default number of context lines around a snippet.
pub const DEFAULT_CONTEXT_LINES: usize = 2;

/// Limits with every value resolved to a number.
#[derive(Debug, Clone, Copy, PartialEq, Eq, Structural)]
pub struct ResolvedLimits {
    pub max_results: usize,
    pub max_matches_per_file: usize,
    pub max_bytes_per_file: usize,
    pub max_total_bytes: usize,
    pub max_match_bytes: usize,
    pub max_snippet_bytes: usize,
    pub max_errors: usize,
}

/// The default limits, each an explicit value.
pub open spec fn default_limits_spec() -> Limits {
    Limits {
        max_results: LimitValue::Value(DEFAULT_MAX_RESULTS),
        max_matches_per_file: LimitValue::Value(DEFAULT_MAX_MATCHES_PER_FILE),
        max_bytes_per_file: LimitValue::Value(DEFAULT_MAX_BYTES_PER_FILE),
        max_total_bytes: LimitValue::Value(DEFAULT_MAX_TOTAL_BYTES),
        max_match_bytes: LimitValue::Value(DEFAULT_MAX_MATCH_BYTES),
        max_snippet_bytes: LimitValue::Value(DEFAULT_MAX_SNIPPET_BYTES),
        max_errors: LimitValue::Value(DEFAULT_MAX_ERRORS),
    }
}

/// The limits applied when a request gives none.
pub fn default_limits() -> (l: Limits)
    ensures
        l == default_limits_spec(),
{
    Limits {
        max_results: LimitValue::Value(DEFAULT_MAX_RESULTS),
        max_matches_per_file: LimitValue::Value(DEFAULT_MAX_MATCHES_PER_FILE),
        max_bytes_per_file: LimitValue::Value(DEFAULT_MAX_BYTES_PER_FILE),
        max_total_bytes: LimitValue::Value(DEFAULT_MAX_TOTAL_BYTES),
        max_match_bytes: LimitValue::Value(DEFAULT_MAX_MATCH_BYTES),
        max_snippet_bytes: LimitValue::Value(DEFAULT_MAX_SNIPPET_BYTES),
        max_errors: LimitValue::Value(DEFAULT_MAX_ERRORS),
    }
}

/// A limit value resolved against its default: an explicit value stands,
/// `Unlimited` is `usize::MAX`, `Unset` takes the default.
pub open spec fn limit_spec(value: LimitValue, default: usize) -> usize {
    match value {
        LimitValue::Value(n) => n,
        LimitValue::Unlimited => usize::MAX,
        LimitValue::Unset => default,
    }
}

/// Resolves one limit value.
pub fn resolve_limit(value: LimitValue, default: usize) -> (n: usize)
    ensures
        n == limit_spec(value, default),
{
    match value {
        LimitValue::Value(n) => n,
        LimitValue::Unlimited => usize::MAX,
        LimitValue::Unset => default,
    }
}

/// The resolved form of optional limits.
pub open spec fn resolved_limits_spec(limits: Option<Limits>) -> ResolvedLimits {
    let l = match limits {
        Some(l) => l,
        None => default_limits_spec(),
    };
    ResolvedLimits {
        max_results: limit_spec(l.max_results, DEFAULT_MAX_RESULTS),
        max_matches_per_file: limit_spec(l.max_matches_per_file, DEFAULT_MAX_MATCHES_PER_FILE),
        max_bytes_per_file: limit_spec(l.max_bytes_per_file, DEFAULT_MAX_BYTES_PER_FILE),
        max_total_bytes: limit_spec(l.max_total_bytes, DEFAULT_MAX_TOTAL_BYTES),
        max_match_bytes: limit_spec(l.max_match_bytes, DEFAULT_MAX_MATCH_BYTES),
        max_snippet_bytes: limit_spec(l.max_snippet_bytes, DEFAULT_MAX_SNIPPET_BYTES),
        max_errors: limit_spec(l.max_errors, DEFAULT_MAX_ERRORS),
    }
}

/// Resolves every limit of a request, falling back to the defaults.
pub fn resolve_limits(limits: Option<Limits>) -> (r: ResolvedLimits)
    ensures
        r == resolved_limits_spec(limits),
{
    let l = match limits {
        Some(l) => l,
        None => default_limits(),
    };
    ResolvedLimits {
        max_results: resolve_limit(l.max_results, DEFAULT_MAX_RESULTS),
        max_matches_per_file: resolve_limit(l.max_matches_per_file, DEFAULT_MAX_MATCHES_PER_FILE),
        max_bytes_per_file: resolve_limit(l.max_bytes_per_file, DEFAULT_MAX_BYTES_PER_FILE),
        max_total_bytes: resolve_limit(l.max_total_bytes, DEFAULT_MAX_TOTAL_BYTES),
        max_match_bytes: resolve_limit(l.max_match_bytes, DEFAULT_MAX_MATCH_BYTES),
        max_snippet_bytes: resolve_limit(l.max_snippet_bytes, DEFAULT_MAX_SNIPPET_BYTES),
        max_errors: resolve_limit(l.max_errors, DEFAULT_MAX_ERRORS),
    }
}

/// Absent limits resolve exactly as the explicit default limits do, and an
/// explicit value is always kept as given.
pub proof fn lemma_default_limits_resolve(l: Limits)
    ensures
        resolved_limits_spec(None) == resolved_limits_spec(Some(default_limits_spec())),
        resolved_limits_spec(None) == (ResolvedLimits {
            max_results: DEFAULT_MAX_RESULTS,
            max_matches_per_file: DEFAULT_MAX_MATCHES_PER_FILE,
            max_bytes_per_file: DEFAULT_MAX_BYTES_PER_FILE,
            max_total_bytes: DEFAULT_MAX_TOTAL_BYTES,
            max_match_bytes: DEFAULT_MAX_MATCH_BYTES,
            max_snippet_bytes: DEFAULT_MAX_SNIPPET_BYTES,
            max_errors: DEFAULT_MAX_ERRORS,
        }),
        l.max_results matches LimitValue::Value(n) ==> resolved_limits_spec(Some(l)).max_results == n,
        l.max_results is Unlimited ==> resolved_limits_spec(Some(l)).max_results == usize::MAX,
{
}

/// The coordinate conventions of match positions.
pub fn coordinate_semantics() -> (c: MatchCoordinateSemantics)
    ensures
        c.line_numbers@ == "1-indexed lines"@,
        c.columns@ == "0-indexed byte offsets within the line"@,
        c.byte_ranges@ == "0-indexed byte offsets within the file"@,
{
    MatchCoordinateSemantics {
        line_numbers: owned("1-indexed lines"),
        columns: owned("0-indexed byte offsets within the line"),
        byte_ranges: owned("0-indexed byte offsets within the file"),
    }
}

/// What the service supports: every output mode, two context lines, the
/// stability of the cli, sdk and mcp surfaces, the default limits, the
/// coordinate conventions and the three execution profiles.
pub fn capability_metadata() -> (c: CapabilityMetadata)
    ensures
        c.schema_version@ == SCHEMA_VERSION@,
        c.supported_outputs@ == seq![
            OutputMode::Paths,
            OutputMode::Matches,
            OutputMode::Snippets,
            OutputMode::Full,
            OutputMode::Summary,
        ],
        c.default_context_lines == DEFAULT_CONTEXT_LINES,
        c.stability@.len() == 3,
        c.stability@[0].surface@ == "cli"@ && c.stability@[0].tier == StabilityTier::Stable,
        c.stability@[1].surface@ == "sdk"@ && c.stability@[1].tier == StabilityTier::Stable,
        c.stability@[2].surface@ == "mcp"@ && c.stability@[2].tier == StabilityTier::Provisional,
        c.default_limits == default_limits_spec(),
        c.coordinate_semantics.line_numbers@ == "1-indexed lines"@,
        c.coordinate_semantics.columns@ == "0-indexed byte offsets within the line"@,
        c.coordinate_semantics.byte_ranges@ == "0-indexed byte offsets within the file"@,
        c.stability@[0].semver_notes@
            == "Command names and default output flags follow semver. Human-readable help and prose may evolve."@,
        c.stability@[1].semver_notes@
            == "Core search APIs are semver-stable. Legacy CLI-facing exports remain available but are compatibility-bound."@,
        c.stability@[2].semver_notes@
            == "Structured payloads are versioned by schema_version. Hosts should gate behavior on that field."@,
        c.execution_profiles@ == seq![
            ExecutionProfile::Interactive,
            ExecutionProfile::Batch,
            ExecutionProfile::Agent,
        ],
{
    let cli = SurfaceStability {
        surface: owned("cli"),
        tier: StabilityTier::Stable,
        semver_notes: owned(
            "Command names and default output flags follow semver. Human-readable help and prose may evolve.",
        ),
    };
    let sdk = SurfaceStability {
        surface: owned("sdk"),
        tier: StabilityTier::Stable,
        semver_notes: owned(
            "Core search APIs are semver-stable. Legacy CLI-facing exports remain available but are compatibility-bound.",
        ),
    };
    let mcp = SurfaceStability {
        surface: owned("mcp"),
        tier: StabilityTier::Provisional,
        semver_notes: owned(
            "Structured payloads are versioned by schema_version. Hosts should gate behavior on that field.",
        ),
    };
    let c = CapabilityMetadata {
        schema_version: owned(SCHEMA_VERSION),
        supported_outputs: vec![
            OutputMode::Paths,
            OutputMode::Matches,
            OutputMode::Snippets,
            OutputMode::Full,
            OutputMode::Summary,
        ],
        default_context_lines: DEFAULT_CONTEXT_LINES,
        stability: vec![cli, sdk, mcp],
        default_limits: default_limits(),
        coordinate_semantics: coordinate_semantics(),
        execution_profiles: vec![ExecutionProfile::Interactive, ExecutionProfile::Batch, ExecutionProfile::Agent],
    };
    assert(c.supported_outputs@ =~= seq![
        OutputMode::Paths,
        OutputMode::Matches,
        OutputMode::Snippets,
        OutputMode::Full,
        OutputMode::Summary,
    ]);
    assert(c.execution_profiles@ =~= seq![
        ExecutionProfile::Interactive,
        ExecutionProfile::Batch,
        ExecutionProfile::Agent,
    ]);
    c
}

/// Copies a vector of strings.
pub fn clone_strings(v: &Vec<String>) -> (r: Vec<String>)
    ensures
        views(r@) == views(v@),
{
    let mut r: Vec<String> = Vec::new();
    let mut i: usize = 0;
    while i < v.len()
        invariant
            i <= v.len(),
            views(r@) == views(v@).take(i as int),
        decreases v.len() - i,
    {
        let ghost before = r@;
        r.push(v[i].clone());
        i = i + 1;
        proof {
            crate::text::lemma_views_push(before, r@[i - 1]);
            assert(views(v@).take(i as int) =~= views(v@).take(i - 1).push(v@[i - 1]@));
            assert(views(r@) =~= views(v@).take(i as int));
        }
    }
    assert(views(v@).take(i as int) =~= views(v@));
    r
}

/// `o` with `v` put in place of `None`.
pub open spec fn or_insert<T>(o: Option<T>, v: T) -> Option<T> {
    match o {
        Some(x) => Some(x),
        None => Some(v),
    }
}

/// The options of a request before its execution profile is applied.
pub open spec fn request_options_base(request: SearchRequest, o: SearchOptions) -> bool {
    &&& o.root@ == (match request.root {
        Some(r) => r@,
        None => "."@,
    })
    &&& views(o.presets@) == views(request.presets@)
    &&& o.no_ignore == request.no_ignore
    &&& o.hidden == request.hidden
    &&& o.max_depth == request.max_depth
    &&& o.sql_dialect == (match request.sql_dialect {
        Some(d) => Some(dialect_of_option(d)),
        None => None,
    })
    &&& o.sql_strict == request.sql_strict
    &&& o.max_semantic_matches_per_file == (match request.execution_profile {
        Some(ExecutionProfile::Agent) => or_insert(request.max_semantic_matches_per_file, 25),
        _ => request.max_semantic_matches_per_file,
    })
    &&& opt_view(o.language_override) == opt_view(request.language_override)
    &&& o.semantic_match_mode == request.semantic_match_mode
    &&& o.snippet_mode == request.snippet_mode
    &&& o.semantic_strict == request.semantic_strict
    &&& o.strict_path_resolution == request.strict_path_resolution
    &&& o.snapshot_drift_detection == request.snapshot_drift_detection
    &&& o.execution_profile == request.execution_profile
    &&& o.ignore_debug == request.ignore_debug
    &&& o.language_debug == request.language_debug
    &&& o.sql_trace == request.sql_trace
}

/// The error mode and budgets after the request's execution profile:
/// `Batch` fails fast with 60 s / 5 s budgets, `Agent` skips errors with
/// 15 s / 1.5 s budgets; explicit budgets are kept.
pub open spec fn request_options_profiled(request: SearchRequest, o: SearchOptions) -> bool {
    match request.execution_profile {
        Some(ExecutionProfile::Batch) => {
            &&& o.error_mode == ErrorMode::FailFast
            &&& o.execution_budget_ms == or_insert(request.execution_budget_ms, 60_000u64)
            &&& o.semantic_budget_ms == or_insert(request.semantic_budget_ms, 5_000u64)
        },
        Some(ExecutionProfile::Agent) => {
            &&& o.error_mode == ErrorMode::SkipErrors
            &&& o.execution_budget_ms == or_insert(request.execution_budget_ms, 15_000u64)
            &&& o.semantic_budget_ms == or_insert(request.semantic_budget_ms, 1_500u64)
        },
        _ => {
            &&& o.error_mode == request.error_mode
            &&& o.execution_budget_ms == request.execution_budget_ms
            &&& o.semantic_budget_ms == request.semantic_budget_ms
        },
    }
}

/// Fills `value` when it is `None`.
fn get_or_insert_u64(value: Option<u64>, default: u64) -> (r: Option<u64>)
    ensures
        r == or_insert(value, default),
{
    match value {
        Some(v) => Some(v),
        None => Some(default),
    }
}

/// Applies the defaults of the request's execution profile to `options`.
fn apply_execution_profile(request: &SearchRequest, options: &mut SearchOptions)
    ensures
        final(options).root == old(options).root,
        final(options).presets == old(options).presets,
        final(options).language_override == old(options).language_override,
        request.execution_profile == Some(ExecutionProfile::Batch) ==> {
            &&& final(options).error_mode == ErrorMode::FailFast
            &&& final(options).execution_budget_ms == or_insert(old(options).execution_budget_ms, 60_000u64)
            &&& final(options).semantic_budget_ms == or_insert(old(options).semantic_budget_ms, 5_000u64)
            &&& final(options).max_semantic_matches_per_file == old(options).max_semantic_matches_per_file
        },
        request.execution_profile == Some(ExecutionProfile::Agent) ==> {
            &&& final(options).error_mode == ErrorMode::SkipErrors
            &&& final(options).execution_budget_ms == or_insert(old(options).execution_budget_ms, 15_000u64)
            &&& final(options).semantic_budget_ms == or_insert(old(options).semantic_budget_ms, 1_500u64)
            &&& final(options).max_semantic_matches_per_file == or_insert(
                old(options).max_semantic_matches_per_file,
                25usize,
            )
        },
        !(request.execution_profile == Some(ExecutionProfile::Batch) || request.execution_profile == Some(
            ExecutionProfile::Agent,
        )) ==> *final(options) == *old(options),
        final(options).no_ignore == old(options).no_ignore,
        final(options).hidden == old(options).hidden,
        final(options).max_depth == old(options).max_depth,
        final(options).sql_dialect == old(options).sql_dialect,
        final(options).sql_strict == old(options).sql_strict,
        final(options).semantic_match_mode == old(options).semantic_match_mode,
        final(options).snippet_mode == old(options).snippet_mode,
        final(options).semantic_strict == old(options).semantic_strict,
        final(options).strict_path_resolution == old(options).strict_path_resolution,
        final(options).snapshot_drift_detection == old(options).snapshot_drift_detection,
        final(options).execution_profile == old(options).execution_profile,
        final(options).ignore_debug == old(options).ignore_debug,
        final(options).language_debug == old(options).language_debug,
        final(options).sql_trace == old(options).sql_trace,
{
    match request.execution_profile {
        Some(ExecutionProfile::Batch) => {
            options.error_mode = ErrorMode::FailFast;
            options.execution_budget_ms = get_or_insert_u64(options.execution_budget_ms, 60_000);
            options.semantic_budget_ms = get_or_insert_u64(options.semantic_budget_ms, 5_000);
        },
        Some(ExecutionProfile::Agent) => {
            options.error_mode = ErrorMode::SkipErrors;
            options.execution_budget_ms = get_or_insert_u64(options.execution_budget_ms, 15_000);
            options.semantic_budget_ms = get_or_insert_u64(options.semantic_budget_ms, 1_500);
            options.max_semantic_matches_per_file = match options.max_semantic_matches_per_file {
                Some(v) => Some(v),
                None => Some(25),
            };
        },
        _ => {},
    }
}

/// Maps a structured request to search options, then applies the request's
/// execution profile.
pub fn search_options_from_request(request: &SearchRequest) -> (o: SearchOptions)
    ensures
        request_options_base(*request, o),
        request_options_profiled(*request, o),
{
    let root = match &request.root {
        Some(r) => r.clone(),
        None => owned("."),
    };
    let sql_dialect: Option<SqlDialect> = match request.sql_dialect {
        Some(d) => Some(SqlDialect::from(d)),
        None => None,
    };
    let mut options = SearchOptions {
        root,
        presets: clone_strings(&request.presets),
        no_ignore: request.no_ignore,
        hidden: request.hidden,
        max_depth: request.max_depth,
        sql_dialect,
        sql_strict: request.sql_strict,
        error_mode: request.error_mode,
        execution_budget_ms: request.execution_budget_ms,
        semantic_budget_ms: request.semantic_budget_ms,
        max_semantic_matches_per_file: request.max_semantic_matches_per_file,
        language_override: crate::content::clone_opt(&request.language_override),
        semantic_match_mode: request.semantic_match_mode,
        snippet_mode: request.snippet_mode,
        semantic_strict: request.semantic_strict,
        strict_path_resolution: request.strict_path_resolution,
        snapshot_drift_detection: request.snapshot_drift_detection,
        execution_profile: request.execution_profile,
        ignore_debug: request.ignore_debug,
        language_debug: request.language_debug,
        sql_trace: request.sql_trace,
    };
    apply_execution_profile(request, &mut options);
    options
}

/// The documentation link attached to every remediation.
pub open spec fn runtime_docs_uri() -> Seq<char> {
    "rdump://docs/runtime"@
}

/// A structured error with a remediation pointing to the runtime docs.
pub fn contract_error(
    code: ErrorCode,
    message: String,
    field: Option<String>,
    retryable: bool,
    suggested_action: Option<String>,
) -> (e: ContractError)
    ensures
        e.code == code,
        e.message@ == message@,
        opt_view(e.field) == opt_view(field),
        e.remediation.retryable == retryable,
        opt_view(e.remediation.suggested_action) == opt_view(suggested_action),
        opt_view(e.remediation.docs_uri) == Some(runtime_docs_uri()),
{
    ContractError {
        code,
        message,
        field,
        remediation: ErrorRemediation {
            retryable,
            suggested_action,
            docs_uri: Some(owned("rdump://docs/runtime")),
        },
    }
}

/// An error with the schema version and a status.
pub fn error_envelope(error: ContractError, status: SearchStatus) -> (e: ErrorEnvelope)
    ensures
        e.schema_version@ == SCHEMA_VERSION@,
        e.status == status,
        e.error == error,
{
    ErrorEnvelope { schema_version: owned(SCHEMA_VERSION), status, error }
}

/// The error code for a message, decided on its ASCII-lowercased text:
/// query, predicate or syntax problems first, then exhausted time budgets,
/// then cancellations, else a search execution failure.
pub open spec fn error_code_for_message(message: Seq<char>) -> ErrorCode {
    let lower = ascii_lower_seq(message);
    if has_substring(lower, "query"@) || has_substring(lower, "predicate"@) || has_substring(lower, "syntax"@) {
        ErrorCode::QueryValidation
    } else if has_substring(lower, "time budget"@) {
        ErrorCode::SearchBudgetExceeded
    } else if has_substring(lower, "cancel"@) {
        ErrorCode::SearchCancelled
    } else {
        ErrorCode::SearchExecution
    }
}

/// The suggested action for a classified error code.
pub open spec fn suggested_action_for(code: ErrorCode) -> Seq<char> {
    match code {
        ErrorCode::QueryValidation => "Run `rdump query explain` or `validate_query` to inspect the query."@,
        ErrorCode::SearchBudgetExceeded => "Increase execution_budget_ms or narrow the query with ext:/preset filters."@,
        ErrorCode::SearchCancelled => "Retry the search or increase the host timeout."@,
        _ => "Review diagnostics and try --fail-fast for the first failing file."@,
    }
}

/// Classifies an error message into a structured error. Budget and
/// cancellation errors are retryable; the others are not.
pub fn classify_error_message(message: &str) -> (e: ContractError)
    ensures
        e.code == error_code_for_message(message@),
        e.message@ == message@,
        e.field is None,
        e.remediation.retryable == (e.code == ErrorCode::SearchBudgetExceeded || e.code
            == ErrorCode::SearchCancelled),
        opt_view(e.remediation.suggested_action) == Some(suggested_action_for(e.code)),
        opt_view(e.remediation.docs_uri) == Some(runtime_docs_uri()),
{
    let lower = to_ascii_lower(message);
    let l = lower.as_str();
    if str_contains(l, "query") || str_contains(l, "predicate") || str_contains(l, "syntax") {
        return contract_error(
            ErrorCode::QueryValidation,
            owned(message),
            None,
            false,
            Some(owned("Run `rdump query explain` or `validate_query` to inspect the query.")),
        );
    }
    if str_contains(l, "time budget") {
        return contract_error(
            ErrorCode::SearchBudgetExceeded,
            owned(message),
            None,
            true,
            Some(owned("Increase execution_budget_ms or narrow the query with ext:/preset filters.")),
        );
    }
    if str_contains(l, "cancel") {
        return contract_error(
            ErrorCode::SearchCancelled,
            owned(message),
            None,
            true,
            Some(owned("Retry the search or increase the host timeout.")),
        );
    }
    contract_error(
        ErrorCode::SearchExecution,
        owned(message),
        None,
        false,
        Some(owned("Review diagnostics and try --fail-fast for the first failing file.")),
    )
}

/// The content-state label of an item, if it carries one.
pub open spec fn item_content_state(item: SearchItem) -> Option<String> {
    match item {
        SearchItem::Path { .. } => None,
        SearchItem::Summary { content_state, .. } => content_state,
        SearchItem::Matches { content_state, .. } => content_state,
        SearchItem::Snippets { content_state, .. } => content_state,
        SearchItem::Full { content_state, .. } => content_state,
    }
}

/// An item whose content was withheld by policy.
pub open spec fn item_suppressed_spec(item: SearchItem) -> bool {
    match item_content_state(item) {
        Some(s) => starts_with_spec(s@, "skipped:"@),
        None => false,
    }
}

/// The content-state label of an item.
fn item_content_state_ref(item: &SearchItem) -> (r: &Option<String>)
    requires
        !(item is Path),
    ensures
        *r == item_content_state(*item),
{
    match item {
        SearchItem::Summary { content_state, .. } => content_state,
        SearchItem::Matches { content_state, .. } => content_state,
        SearchItem::Snippets { content_state, .. } => content_state,
        SearchItem::Full { content_state, .. } => content_state,
        SearchItem::Path { .. } => {
            assert(false);
            content_state_none()
        },
    }
}

/// A reference to an absent label.
fn content_state_none() -> (r: &'static Option<String>)
    ensures
        *r is None,
{
    &None
}

/// True when the item's content state starts with `skipped:`.
pub fn item_is_policy_suppressed(item: &SearchItem) -> (b: bool)
    ensures
        b == item_suppressed_spec(*item),
{
    if let SearchItem::Path { .. } = item {
        return false;
    }
    match item_content_state_ref(item) {
        Some(s) => str_starts_with(s.as_str(), "skipped:"),
        None => false,
    }
}

/// The status of a response page: truncated first, then partial when
/// errors were kept, then policy-suppressed when every item's content was
/// withheld, else full success.
pub open spec fn derive_status_spec(results: Seq<SearchItem>, errors_len: nat, truncated: bool) -> SearchStatus {
    if truncated {
        SearchStatus::TruncatedSuccess
    } else if errors_len > 0 {
        SearchStatus::PartialSuccess
    } else if results.len() > 0 && forall|i: int| 0 <= i < results.len() ==> item_suppressed_spec(#[trigger] results[i]) {
        SearchStatus::PolicySuppressed
    } else {
        SearchStatus::FullSuccess
    }
}

/// An item's content was withheld: its content state is `skipped:...`.
pub open spec fn content_withheld(item: SearchItem) -> bool {
    item_content_state(item) matches Some(st) && starts_with_spec(st@, "skipped:"@)
}

/// The status of a page: truncated pages are `TruncatedSuccess`; otherwise
/// pages with errors are `PartialSuccess`; otherwise a page is
/// `PolicySuppressed` exactly when it holds items and every one of them
/// had its content withheld, and `FullSuccess` when it is empty or one item
/// was shown.
pub proof fn law_page_status(results: Seq<SearchItem>, errors_len: nat, truncated: bool, s: SearchStatus)
    requires
        s == derive_status_spec(results, errors_len, truncated),
    ensures
        s == SearchStatus::TruncatedSuccess <==> truncated,
        !truncated && errors_len > 0 ==> s == SearchStatus::PartialSuccess,
        s == SearchStatus::PartialSuccess ==> !truncated && errors_len > 0,
        s == SearchStatus::PolicySuppressed ==> results.len() > 0 && forall|i: int|
            0 <= i < results.len() ==> content_withheld(#[trigger] results[i]),
        !truncated && errors_len == 0 && results.len() > 0 && (forall|i: int|
            0 <= i < results.len() ==> content_withheld(#[trigger] results[i])) ==> s == SearchStatus::PolicySuppressed,
        !truncated && errors_len == 0 && (exists|i: int| 0 <= i < results.len() && !content_withheld(#[trigger] results[i]))
            ==> s == SearchStatus::FullSuccess,
        !truncated && errors_len == 0 && results.len() == 0 ==> s == SearchStatus::FullSuccess,
        s != SearchStatus::InvalidQuery,
{
    assert forall|i: int| 0 <= i < results.len() implies content_withheld(#[trigger] results[i]) == item_suppressed_spec(
        results[i],
    ) by {}
}

/// Derives the status of a response page.
pub fn derive_status(results: &[SearchItem], errors: &[ContractError], truncated: bool) -> (s: SearchStatus)
    ensures
        s == derive_status_spec(results@, errors@.len(), truncated),
{
    if truncated {
        return SearchStatus::TruncatedSuccess;
    }
    if errors.len() > 0 {
        return SearchStatus::PartialSuccess;
    }
    if results.len() == 0 {
        return SearchStatus::FullSuccess;
    }
    let mut i: usize = 0;
    while i < results.len()
        invariant
            i <= results.len(),
            !truncated,
            errors@.len() == 0,
            results@.len() > 0,
            forall|j: int| 0 <= j < i ==> item_suppressed_spec(#[trigger] results@[j]),
        decreases results.len() - i,
    {
        if !item_is_policy_suppressed(&results[i]) {
            assert(!item_suppressed_spec(results@[i as int]));
            assert(!(forall|j: int| 0 <= j < results@.len() ==> item_suppressed_spec(#[trigger] results@[j])));
            return SearchStatus::FullSuccess;
        }
        i = i + 1;
    }
    SearchStatus::PolicySuppressed
}

/// The label of a content state: `loaded`, `loaded_lossy`, or `skipped:`
/// and the reason.
pub open spec fn content_state_label_spec(state: ContentState) -> Seq<char> {
    match state {
        ContentState::Loaded => "loaded"@,
        ContentState::LoadedLossy => "loaded_lossy"@,
        ContentState::Skipped { reason } => "skipped:"@ + skip_reason_label(reason),
    }
}

/// Renders the label of a content state.
pub fn content_state_label(state: &ContentState) -> (s: String)
    ensures
        s@ == content_state_label_spec(*state),
{
    match state {
        ContentState::Loaded => owned("loaded"),
        ContentState::LoadedLossy => owned("loaded_lossy"),
        ContentState::Skipped { reason } => {
            let mut out: Vec<char> = Vec::new();
            push_str(&mut out, "skipped:");
            push_str(&mut out, reason.as_str());
            string_from_chars(&out)
        },
    }
}

/// The label of an output mode.
pub open spec fn output_mode_label_spec(mode: OutputMode) -> Seq<char> {
    match mode {
        OutputMode::Paths => "paths"@,
        OutputMode::Matches => "matches"@,
        OutputMode::Snippets => "snippets"@,
        OutputMode::Full => "full"@,
        OutputMode::Summary => "summary"@,
    }
}

/// The lowercase label of an output mode.
pub fn output_mode_label(mode: OutputMode) -> (s: &'static str)
    ensures
        s@ == output_mode_label_spec(mode),
{
    match mode {
        OutputMode::Paths => "paths",
        OutputMode::Matches => "matches",
        OutputMode::Snippets => "snippets",
        OutputMode::Full => "full",
        OutputMode::Summary => "summary",
    }
}

/// The rendered path of an item.
pub open spec fn item_path_spec(item: SearchItem) -> String {
    match item {
        SearchItem::Path { path, .. } => path,
        SearchItem::Summary { path, .. } => path,
        SearchItem::Matches { path, .. } => path,
        SearchItem::Snippets { path, .. } => path,
        SearchItem::Full { path, .. } => path,
    }
}

/// The rendered path of an item.
pub fn item_path(item: &SearchItem) -> (p: &str)
    ensures
        p@ == item_path_spec(*item)@,
{
    match item {
        SearchItem::Path { path, .. } => path.as_str(),
        SearchItem::Summary { path, .. } => path.as_str(),
        SearchItem::Matches { path, .. } => path.as_str(),
        SearchItem::Snippets { path, .. } => path.as_str(),
        SearchItem::Full { path, .. } => path.as_str(),
    }
}

/// Whether an item counts as a whole-file result in page statistics.
pub open spec fn item_whole_file_spec(item: SearchItem) -> bool {
    match item {
        SearchItem::Path { .. } => true,
        SearchItem::Summary { whole_file_match, .. } => whole_file_match,
        SearchItem::Matches { whole_file_match, .. } => whole_file_match,
        SearchItem::Snippets { whole_file_match, .. } => whole_file_match,
        SearchItem::Full { result_kind, .. } => result_kind == ResultKind::WholeFile,
    }
}

/// The item's content state equals `label`.
pub open spec fn item_state_is(item: SearchItem, label: Seq<char>) -> bool {
    match item_content_state(item) {
        Some(s) => s@ == label,
        None => false,
    }
}

/// Number of items of `s` satisfying `p`.
pub open spec fn count_items(s: Seq<SearchItem>, p: spec_fn(SearchItem) -> bool) -> nat
    decreases s.len(),
{
    if s.len() == 0 {
        0
    } else {
        count_items(s.drop_last(), p) + if p(s.last()) {
            1nat
        } else {
            0nat
        }
    }
}

/// Per-page counts: whole-file and ranged results, and results withheld as
/// too large, binary, or secret-like.
pub open spec fn summarize_spec(results: Seq<SearchItem>) -> (nat, nat, nat, nat, nat) {
    (
        count_items(results, |i: SearchItem| item_whole_file_spec(i)),
        count_items(results, |i: SearchItem| !item_whole_file_spec(i)),
        count_items(results, |i: SearchItem| item_state_is(i, "skipped:too_large"@)),
        count_items(results, |i: SearchItem| item_state_is(i, "skipped:binary"@)),
        count_items(results, |i: SearchItem| item_state_is(i, "skipped:secret_like"@)),
    )
}

/// A count never exceeds the number of items.
pub proof fn lemma_count_items_bound(s: Seq<SearchItem>, p: spec_fn(SearchItem) -> bool)
    ensures
        count_items(s, p) <= s.len(),
    decreases s.len(),
{
    if s.len() > 0 {
        lemma_count_items_bound(s.drop_last(), p);
    }
}

/// Every result is counted as exactly one of whole-file or ranged.
pub proof fn lemma_whole_plus_ranged(results: Seq<SearchItem>)
    ensures
        summarize_spec(results).0 + summarize_spec(results).1 == results.len(),
    decreases results.len(),
{
    if results.len() > 0 {
        lemma_whole_plus_ranged(results.drop_last());
    }
}

/// Whether the content-state label of an item equals `label`.
fn item_state_equals(item: &SearchItem, label: &str) -> (b: bool)
    ensures
        b == item_state_is(*item, label@),
{
    if let SearchItem::Path { .. } = item {
        return false;
    }
    match item_content_state_ref(item) {
        Some(s) => str_eq(s.as_str(), label),
        None => false,
    }
}

/// Whether an item counts as a whole-file result.
fn item_whole_file(item: &SearchItem) -> (b: bool)
    ensures
        b == item_whole_file_spec(*item),
{
    match item {
        SearchItem::Path { .. } => true,
        SearchItem::Summary { whole_file_match, .. } => *whole_file_match,
        SearchItem::Matches { whole_file_match, .. } => *whole_file_match,
        SearchItem::Snippets { whole_file_match, .. } => *whole_file_match,
        SearchItem::Full { result_kind, .. } => *result_kind == ResultKind::WholeFile,
    }
}

/// Counts whole-file and ranged results and policy-withheld results of a
/// page.
pub fn summarize_results_for_stats(results: &[SearchItem]) -> (r: (usize, usize, usize, usize, usize))
    ensures
        r.0 == summarize_spec(results@).0,
        r.1 == summarize_spec(results@).1,
        r.2 == summarize_spec(results@).2,
        r.3 == summarize_spec(results@).3,
        r.4 == summarize_spec(results@).4,
{
    let mut whole: usize = 0;
    let mut ranged: usize = 0;
    let mut too_large: usize = 0;
    let mut binary: usize = 0;
    let mut secret: usize = 0;
    let mut i: usize = 0;
    while i < results.len()
        invariant
            i <= results.len(),
            whole == summarize_spec(results@.take(i as int)).0,
            ranged == summarize_spec(results@.take(i as int)).1,
            too_large == summarize_spec(results@.take(i as int)).2,
            binary == summarize_spec(results@.take(i as int)).3,
            secret == summarize_spec(results@.take(i as int)).4,
        decreases results.len() - i,
    {
        let ghost prefix = results@.take(i as int);
        let ghost next = results@.take(i + 1);
        proof {
            assert(next.drop_last() =~= prefix);
            assert(next.last() == results@[i as int]);
            lemma_whole_plus_ranged(prefix);
            lemma_count_items_bound(prefix, |x: SearchItem| item_state_is(x, "skipped:too_large"@));
            lemma_count_items_bound(prefix, |x: SearchItem| item_state_is(x, "skipped:binary"@));
            lemma_count_items_bound(prefix, |x: SearchItem| item_state_is(x, "skipped:secret_like"@));
        }
        let item = &results[i];
        if item_whole_file(item) {
            whole = whole + 1;
        } else {
            ranged = ranged + 1;
        }
        if item_state_equals(item, "skipped:too_large") {
            too_large = too_large + 1;
        }
        if item_state_equals(item, "skipped:binary") {
            binary = binary + 1;
        }
        if item_state_equals(item, "skipped:secret_like") {
            secret = secret + 1;
        }
        i = i + 1;
    }
    assert(results@.take(i as int) =~= results@);
    (whole, ranged, too_large, binary, secret)
}


// ---------------------------------------------------------------------------
// Mapping library values to contract values
// ---------------------------------------------------------------------------

/// The contract form of a path resolution.
pub open spec fn map_resolution_spec(r: crate::model::PathResolution) -> crate::contracts::PathResolution {
    match r {
        crate::model::PathResolution::Canonical => crate::contracts::PathResolution::Canonical,
        crate::model::PathResolution::Fallback => crate::contracts::PathResolution::Fallback,
    }
}

/// Maps a library path identity to its contract form.
pub fn map_file_identity(identity: &crate::model::FileIdentity) -> (f: crate::contracts::FileIdentity)
    ensures
        f.display_path@ == identity.display_path@,
        f.resolved_path@ == identity.resolved_path@,
        opt_view(f.root_relative_path) == opt_view(identity.root_relative_path),
        f.resolution == map_resolution_spec(identity.resolution),
{
    crate::contracts::FileIdentity {
        display_path: identity.display_path.clone(),
        resolved_path: identity.resolved_path.clone(),
        root_relative_path: crate::content::clone_opt(&identity.root_relative_path),
        resolution: match identity.resolution {
            crate::model::PathResolution::Canonical => crate::contracts::PathResolution::Canonical,
            crate::model::PathResolution::Fallback => crate::contracts::PathResolution::Fallback,
        },
    }
}

/// The contract form of a result kind.
pub open spec fn map_result_kind_spec(k: crate::model::ResultKind) -> ResultKind {
    match k {
        crate::model::ResultKind::WholeFile => ResultKind::WholeFile,
        crate::model::ResultKind::Ranged => ResultKind::Ranged,
    }
}

/// Maps a library result kind to its contract form.
pub fn map_result_kind(kind: crate::model::ResultKind) -> (k: ResultKind)
    ensures
        k == map_result_kind_spec(kind),
{
    match kind {
        crate::model::ResultKind::WholeFile => ResultKind::WholeFile,
        crate::model::ResultKind::Ranged => ResultKind::Ranged,
    }
}

/// The contract form of a semantic skip reason.
pub open spec fn map_skip_reason_spec(r: crate::model::SemanticSkipReason) -> SemanticSkipReason {
    match r {
        crate::model::SemanticSkipReason::UnsupportedLanguage => SemanticSkipReason::UnsupportedLanguage,
        crate::model::SemanticSkipReason::ParseFailed => SemanticSkipReason::ParseFailed,
        crate::model::SemanticSkipReason::ContentUnavailable => SemanticSkipReason::ContentUnavailable,
        crate::model::SemanticSkipReason::BudgetExhausted => SemanticSkipReason::BudgetExhausted,
    }
}

/// Maps a library semantic skip reason to its contract form.
pub fn map_semantic_skip_reason(reason: crate::model::SemanticSkipReason) -> (r: SemanticSkipReason)
    ensures
        r == map_skip_reason_spec(reason),
{
    match reason {
        crate::model::SemanticSkipReason::UnsupportedLanguage => SemanticSkipReason::UnsupportedLanguage,
        crate::model::SemanticSkipReason::ParseFailed => SemanticSkipReason::ParseFailed,
        crate::model::SemanticSkipReason::ContentUnavailable => SemanticSkipReason::ContentUnavailable,
        crate::model::SemanticSkipReason::BudgetExhausted => SemanticSkipReason::BudgetExhausted,
    }
}

/// Maps every skip reason of a result.
fn map_skip_reasons(reasons: &[crate::model::SemanticSkipReason]) -> (r: Vec<SemanticSkipReason>)
    ensures
        r@ == reasons@.map_values(|x: crate::model::SemanticSkipReason| map_skip_reason_spec(x)),
{
    let mut r: Vec<SemanticSkipReason> = Vec::new();
    let mut i: usize = 0;
    while i < reasons.len()
        invariant
            i <= reasons.len(),
            r@ == reasons@.take(i as int).map_values(|x: crate::model::SemanticSkipReason| map_skip_reason_spec(x)),
        decreases reasons.len() - i,
    {
        r.push(map_semantic_skip_reason(reasons[i]));
        i = i + 1;
        assert(r@ =~= reasons@.take(i as int).map_values(
            |x: crate::model::SemanticSkipReason| map_skip_reason_spec(x),
        ));
    }
    assert(reasons@.take(i as int) =~= reasons@);
    r
}

/// The contract form of a library diagnostic's level.
pub open spec fn level_label(level: DiagnosticLevel) -> Seq<char> {
    match level {
        DiagnosticLevel::Info => "info"@,
        DiagnosticLevel::Warn => "warn"@,
        DiagnosticLevel::Error => "error"@,
    }
}

/// The contract form of a library diagnostic's kind: the variant name in
/// lowercase, without separators.
pub open spec fn kind_label(kind: DiagnosticKind) -> Seq<char> {
    match kind {
        DiagnosticKind::ContentSkipped => "contentskipped"@,
        DiagnosticKind::ContentDecodedLossy => "contentdecodedlossy"@,
        DiagnosticKind::WalkWarning => "walkwarning"@,
        DiagnosticKind::IgnoreExcluded => "ignoreexcluded"@,
        DiagnosticKind::RootBoundaryExcluded => "rootboundaryexcluded"@,
        DiagnosticKind::PathResolutionFallback => "pathresolutionfallback"@,
        DiagnosticKind::SemanticSkip => "semanticskip"@,
        DiagnosticKind::LanguageSelection => "languageselection"@,
        DiagnosticKind::SqlDialectTrace => "sqldialecttrace"@,
        DiagnosticKind::DeprecatedQueryAlias => "deprecatedqueryalias"@,
        DiagnosticKind::SnapshotDrift => "snapshotdrift"@,
        DiagnosticKind::FormatResolution => "formatresolution"@,
        DiagnosticKind::QueueOverload => "queueoverload"@,
    }
}

/// The lowercase label of a diagnostic level.
pub(crate) fn level_text(level: DiagnosticLevel) -> (s: &'static str)
    ensures
        s@ == level_label(level),
{
    match level {
        DiagnosticLevel::Info => "info",
        DiagnosticLevel::Warn => "warn",
        DiagnosticLevel::Error => "error",
    }
}

/// The lowercase label of a diagnostic kind.
pub(crate) fn kind_text(kind: DiagnosticKind) -> (s: &'static str)
    ensures
        s@ == kind_label(kind),
{
    match kind {
        DiagnosticKind::ContentSkipped => "contentskipped",
        DiagnosticKind::ContentDecodedLossy => "contentdecodedlossy",
        DiagnosticKind::WalkWarning => "walkwarning",
        DiagnosticKind::IgnoreExcluded => "ignoreexcluded",
        DiagnosticKind::RootBoundaryExcluded => "rootboundaryexcluded",
        DiagnosticKind::PathResolutionFallback => "pathresolutionfallback",
        DiagnosticKind::SemanticSkip => "semanticskip",
        DiagnosticKind::LanguageSelection => "languageselection",
        DiagnosticKind::SqlDialectTrace => "sqldialecttrace",
        DiagnosticKind::DeprecatedQueryAlias => "deprecatedqueryalias",
        DiagnosticKind::SnapshotDrift => "snapshotdrift",
        DiagnosticKind::FormatResolution => "formatresolution",
        DiagnosticKind::QueueOverload => "queueoverload",
    }
}

/// Maps a library diagnostic to its contract form.
pub fn map_diagnostic(d: &crate::content::SearchDiagnostic) -> (c: crate::contracts::SearchDiagnostic)
    ensures
        c.level@ == level_label(d.level),
        c.kind@ == kind_label(d.kind),
        c.message@ == d.message@,
        opt_view(c.path) == opt_view(d.path),
{
    crate::contracts::SearchDiagnostic {
        level: owned(level_text(d.level)),
        kind: owned(kind_text(d.kind)),
        message: d.message.clone(),
        path: crate::content::clone_opt(&d.path),
    }
}

/// The path rendered for a result under a display mode (relative when
/// unset; root-relative falls back to the display path).
pub open spec fn render_path_spec(identity: crate::model::FileIdentity, mode: Option<PathDisplayMode>) -> Seq<char> {
    match mode {
        Some(PathDisplayMode::Absolute) => identity.resolved_path@,
        Some(PathDisplayMode::RootRelative) => match identity.root_relative_path {
            Some(p) => p@,
            None => identity.display_path@,
        },
        _ => identity.display_path@,
    }
}

/// Renders the path of a result under a display mode.
pub fn render_contract_path(identity: &crate::model::FileIdentity, path_display: Option<PathDisplayMode>) -> (s: String)
    ensures
        s@ == render_path_spec(*identity, path_display),
{
    match path_display {
        Some(PathDisplayMode::Absolute) => identity.resolved_path.clone(),
        Some(PathDisplayMode::RootRelative) => match &identity.root_relative_path {
            Some(p) => p.clone(),
            None => identity.display_path.clone(),
        },
        _ => identity.display_path.clone(),
    }
}

/// The line-ending label of a text: `crlf` when it holds `\r\n`, else `lf`
/// when it holds `\n`, else `cr` when it holds `\r`, else `none`.
pub open spec fn line_ending_spec(text: Seq<char>) -> Seq<char> {
    if has_substring(text, seq!['\r', '\n']) {
        "crlf"@
    } else if text.contains('\n') {
        "lf"@
    } else if text.contains('\r') {
        "cr"@
    } else {
        "none"@
    }
}

/// Detects the line-ending style of a text.
pub fn detect_line_ending(text: &str) -> (s: String)
    ensures
        s@ == line_ending_spec(text@),
{
    let mut crlf: Vec<char> = Vec::new();
    crlf.push('\r');
    crlf.push('\n');
    let t = crate::text::chars_of(text);
    if crate::text::contains_chars(&t, &crlf) {
        assert(crlf@ =~= seq!['\r', '\n']);
        owned("crlf")
    } else if crate::text::str_has_char(text, '\n') {
        assert(crlf@ =~= seq!['\r', '\n']);
        owned("lf")
    } else if crate::text::str_has_char(text, '\r') {
        assert(crlf@ =~= seq!['\r', '\n']);
        owned("cr")
    } else {
        assert(crlf@ =~= seq!['\r', '\n']);
        owned("none")
    }
}

/// A text with its line endings kept or rewritten to `\n`.
pub open spec fn line_endings_spec(text: Seq<char>, mode: LineEndingMode) -> Seq<char> {
    match mode {
        LineEndingMode::Preserve => text,
        LineEndingMode::Normalize => crate::text::normalize_newlines_spec(text),
    }
}

/// Applies a line-ending policy to a text.
pub fn apply_line_endings(text: &str, mode: LineEndingMode) -> (s: String)
    ensures
        s@ == line_endings_spec(text@, mode),
{
    match mode {
        LineEndingMode::Preserve => owned(text),
        LineEndingMode::Normalize => crate::text::normalize_newlines(text),
    }
}

// ---------------------------------------------------------------------------
// Matches and snippets
// ---------------------------------------------------------------------------

/// `a - b`, or 0 when `b > a`.
pub open spec fn sat_sub(a: int, b: int) -> int {
    if a >= b {
        a - b
    } else {
        0
    }
}

/// First line index (0-based, inclusive) of the snippet around a match.
pub open spec fn snippet_start(m: crate::model::Match, context: usize) -> int {
    sat_sub(sat_sub(m.start_line as int, 1), context as int)
}

/// Line index (0-based, exclusive) where the snippet around a match ends.
pub open spec fn snippet_end(m: crate::model::Match, total_lines: usize, context: usize) -> int {
    let last = sat_sub(m.end_line as int, 1) + context;
    let cap = sat_sub(total_lines as int, 1);
    (if last <= cap {
        last
    } else {
        cap
    }) + 1
}

/// The snippet around a match spans `context` lines before the match's
/// first line (fewer only where the file begins) and `context` lines after
/// its last line (fewer only where the file ends), as 0-based line indexes
/// from `start` up to, not including, `end`.
pub proof fn law_snippet_lines(m: crate::model::Match, total_lines: usize, context: usize, start: int, end: int)
    requires
        start == snippet_start(m, context),
        end == snippet_end(m, total_lines, context),
    ensures
        m.start_line >= 1 && m.start_line - 1 >= context ==> start == m.start_line - 1 - context,
        m.start_line >= 1 && m.start_line - 1 < context ==> start == 0,
        m.start_line == 0 ==> start == 0,
        total_lines >= 1 && m.end_line >= 1 && m.end_line - 1 + context <= total_lines - 1 ==> end == m.end_line + context,
        total_lines >= 1 && m.end_line >= 1 && m.end_line - 1 + context > total_lines - 1 ==> end == total_lines,
        total_lines >= 1 ==> end <= total_lines,
{
}

/// The line range of the snippet around a match: `context` lines on each
/// side, clamped to the file.
pub fn snippet_range(matched: &crate::model::Match, total_lines: usize, context_lines: usize) -> (r: std::ops::Range<
    usize,
>)
    requires
        sat_sub(matched.end_line as int, 1) + context_lines <= usize::MAX,
    ensures
        r.start == snippet_start(*matched, context_lines),
        r.end == snippet_end(*matched, total_lines, context_lines),
{
    let start_line = matched.start_line.saturating_sub(1);
    let end_line = matched.end_line.saturating_sub(1);
    let context_start = start_line.saturating_sub(context_lines);
    let last = end_line + context_lines;
    let cap = total_lines.saturating_sub(1);
    let context_end = if last <= cap {
        last
    } else {
        cap
    };
    std::ops::Range { start: context_start, end: context_end + 1 }
}

/// The match info reported for one match.
pub open spec fn match_info_spec(
    info: crate::contracts::MatchInfo,
    m: crate::model::Match,
    limits: ResolvedLimits,
    include_match_text: bool,
) -> bool {
    &&& info.start_line == m.start_line
    &&& info.end_line == m.end_line
    &&& info.start_column == m.start_column
    &&& info.end_column == m.end_column
    &&& info.byte_range@ == seq![m.byte_range.start, m.byte_range.end]
    &&& opt_view(info.text) == (if !include_match_text || m.text@.len() == 0 {
        None
    } else {
        Some(crate::text::truncate_spec(m.text@, limits.max_match_bytes as nat))
    })
    &&& info.text_truncated == (crate::text::byte_len(m.text@) > limits.max_match_bytes)
}

/// Number of matches reported for a result.
pub open spec fn reported_count(n: nat, limits: ResolvedLimits) -> nat {
    if n <= limits.max_matches_per_file {
        n
    } else {
        limits.max_matches_per_file as nat
    }
}

/// Shapes one match for a response.
fn shape_match(m: &crate::model::Match, limits: &ResolvedLimits, include_match_text: bool) -> (info:
    crate::contracts::MatchInfo)
    ensures
        match_info_spec(info, *m, *limits, include_match_text),
{
    let len = crate::text::utf8_byte_len(m.text.as_str());
    let text_truncated = len > limits.max_match_bytes;
    let text = if !include_match_text || m.text.as_str().is_empty() {
        None
    } else {
        Some(crate::text::truncate_string(m.text.as_str(), limits.max_match_bytes))
    };
    let info = crate::contracts::MatchInfo {
        start_line: m.start_line,
        end_line: m.end_line,
        start_column: m.start_column,
        end_column: m.end_column,
        byte_range: [m.byte_range.start, m.byte_range.end],
        text,
        text_truncated,
    };
    assert(info.byte_range@ =~= seq![m.byte_range.start, m.byte_range.end]);
    info
}

/// The first `max_matches_per_file` matches of a result, shaped for a
/// response.
pub fn shape_matches(result: &crate::model::SearchResult, limits: &ResolvedLimits, include_match_text: bool) -> (r:
    Vec<crate::contracts::MatchInfo>)
    ensures
        r@.len() == reported_count(result.matches@.len(), *limits),
        forall|i: int|
            0 <= i < r@.len() ==> match_info_spec(#[trigger] r@[i], result.matches@[i], *limits, include_match_text),
{
    let mut r: Vec<crate::contracts::MatchInfo> = Vec::new();
    let mut i: usize = 0;
    while i < result.matches.len() && i < limits.max_matches_per_file
        invariant
            i <= result.matches.len(),
            i <= limits.max_matches_per_file,
            r@.len() == i,
            forall|k: int|
                0 <= k < i ==> match_info_spec(#[trigger] r@[k], result.matches@[k], *limits, include_match_text),
        decreases result.matches.len() - i,
    {
        let info = shape_match(&result.matches[i], limits, include_match_text);
        r.push(info);
        i = i + 1;
    }
    r
}

/// The text of the lines `[start, end)` of a content.
pub open spec fn snippet_raw_text(content: Seq<char>, start: int, end: int) -> Seq<char> {
    crate::text::lines_with_endings(content).subrange(start, end).flatten()
}

/// A snippet's text after the snippet mode and the line-ending policy.
pub open spec fn snippet_shaped_text(raw: Seq<char>, mode: crate::contracts::SnippetMode, le: LineEndingMode) -> Seq<
    char,
> {
    let shaped = match mode {
        crate::contracts::SnippetMode::Normalized => crate::text::normalize_newlines_spec(raw),
        crate::contracts::SnippetMode::PreserveLineEndings => raw,
    };
    line_endings_spec(shaped, le)
}

/// The snippet reported for one match of a content.
pub open spec fn snippet_spec(
    sn: crate::contracts::Snippet,
    content: Seq<char>,
    m: crate::model::Match,
    context: usize,
    mode: crate::contracts::SnippetMode,
    limits: ResolvedLimits,
    le: LineEndingMode,
) -> bool {
    let total = crate::text::lines_with_endings(content).len();
    let start = snippet_start(m, context);
    let end = snippet_end(m, total as usize, context);
    let raw = snippet_raw_text(content, start, end);
    &&& sn.start_line == start + 1
    &&& sn.end_line == end
    &&& sn.match_start_line == m.start_line
    &&& sn.match_end_line == m.end_line
    &&& sn.text_truncated == (crate::text::byte_len(raw) > limits.max_snippet_bytes)
    &&& sn.line_ending@ == line_ending_spec(raw)
    &&& sn.text@ == (if content.len() == 0 {
        Seq::<char>::empty()
    } else {
        crate::text::truncate_spec(snippet_shaped_text(raw, mode, le), limits.max_snippet_bytes as nat)
    })
}

/// The snippet of a match lies within the lines of the content.
pub open spec fn snippet_in_bounds(m: crate::model::Match, total_lines: nat, context: usize) -> bool {
    &&& sat_sub(m.end_line as int, 1) + context <= usize::MAX
    &&& snippet_start(m, context) <= snippet_end(m, total_lines as usize, context) <= total_lines
}

/// Concatenates `lines[start..end]`.
fn concat_lines(lines: &Vec<String>, start: usize, end: usize) -> (s: String)
    requires
        start <= end <= lines.len(),
    ensures
        s@ == views(lines@).subrange(start as int, end as int).flatten(),
{
    let mut out: Vec<char> = Vec::new();
    let mut i: usize = start;
    assert(views(lines@).subrange(start as int, start as int) =~= Seq::<Seq<char>>::empty());
    while i < end
        invariant
            start <= i <= end <= lines.len(),
            out@ == views(lines@).subrange(start as int, i as int).flatten(),
        decreases end - i,
    {
        let ghost before = views(lines@).subrange(start as int, i as int);
        push_str(&mut out, lines[i].as_str());
        i = i + 1;
        proof {
            assert(views(lines@).subrange(start as int, i as int) =~= before.push(lines@[i - 1]@));
            before.lemma_flatten_push(lines@[i - 1]@);
        }
    }
    string_from_chars(&out)
}

/// Shapes one snippet.
fn shape_snippet(
    content: &str,
    lines: &Vec<String>,
    m: &crate::model::Match,
    context_lines: usize,
    snippet_mode: crate::contracts::SnippetMode,
    limits: &ResolvedLimits,
    line_endings: LineEndingMode,
) -> (sn: crate::contracts::Snippet)
    requires
        views(lines@) == crate::text::lines_with_endings(content@),
        snippet_in_bounds(*m, lines@.len(), context_lines),
    ensures
        snippet_spec(sn, content@, *m, context_lines, snippet_mode, *limits, line_endings),
{
    let range = snippet_range(m, lines.len(), context_lines);
    let raw = concat_lines(lines, range.start, range.end);
    let line_ending = detect_line_ending(raw.as_str());
    let raw_len = crate::text::utf8_byte_len(raw.as_str());
    let text_truncated = raw_len > limits.max_snippet_bytes;
    let text = if content.is_empty() {
        String::new()
    } else {
        let shaped = match snippet_mode {
            crate::contracts::SnippetMode::Normalized => crate::text::normalize_newlines(raw.as_str()),
            crate::contracts::SnippetMode::PreserveLineEndings => raw.clone(),
        };
        let le = apply_line_endings(shaped.as_str(), line_endings);
        crate::text::truncate_string(le.as_str(), limits.max_snippet_bytes)
    };
    crate::contracts::Snippet {
        start_line: range.start + 1,
        end_line: range.end,
        match_start_line: m.start_line,
        match_end_line: m.end_line,
        text,
        text_truncated,
        line_ending,
    }
}

/// The snippets of a result: none when its content is withheld or it has
/// no ranged matches, else one per reported match.
pub fn shape_snippets(
    result: &crate::model::SearchResult,
    context_lines: usize,
    snippet_mode: crate::contracts::SnippetMode,
    limits: &ResolvedLimits,
    line_endings: LineEndingMode,
) -> (r: Vec<crate::contracts::Snippet>)
    requires
        snippets_fit(*result, context_lines, *limits),
    ensures
        !state_is_loaded(result.content_state) || result.matches@.len() == 0 ==> r@.len() == 0,
        state_is_loaded(result.content_state) && result.matches@.len() > 0 ==> {
            &&& r@.len() == reported_count(result.matches@.len(), *limits)
            &&& forall|i: int|
                0 <= i < r@.len() ==> snippet_spec(
                    #[trigger] r@[i],
                    result.content@,
                    result.matches@[i],
                    context_lines,
                    snippet_mode,
                    *limits,
                    line_endings,
                )
        },
{
    if !result.content_available() || result.matches.len() == 0 {
        return Vec::new();
    }
    let lines = crate::text::split_lines_with_endings(result.content.as_str());
    let mut r: Vec<crate::contracts::Snippet> = Vec::new();
    let mut i: usize = 0;
    while i < result.matches.len() && i < limits.max_matches_per_file
        invariant
            i <= result.matches.len(),
            i <= limits.max_matches_per_file,
            r@.len() == i,
            views(lines@) == crate::text::lines_with_endings(result.content@),
            forall|k: int|
                0 <= k < reported_count(result.matches@.len(), *limits) ==> snippet_in_bounds(
                    #[trigger] result.matches@[k],
                    crate::text::lines_with_endings(result.content@).len(),
                    context_lines,
                ),
            forall|k: int|
                0 <= k < i ==> snippet_spec(
                    #[trigger] r@[k],
                    result.content@,
                    result.matches@[k],
                    context_lines,
                    snippet_mode,
                    *limits,
                    line_endings,
                ),
        decreases result.matches.len() - i,
    {
        proof {
            assert(views(lines@).len() == lines@.len());
            assert(snippet_in_bounds(result.matches@[i as int], lines@.len(), context_lines));
        }
        let sn = shape_snippet(
            result.content.as_str(),
            &lines,
            &result.matches[i],
            context_lines,
            snippet_mode,
            limits,
            line_endings,
        );
        r.push(sn);
        i = i + 1;
    }
    r
}


// ---------------------------------------------------------------------------
// Size estimate of response items
// ---------------------------------------------------------------------------

/// Estimated bytes of a string field: its bytes plus quotes.
pub open spec fn str_cost(s: Seq<char>) -> int {
    crate::text::byte_len(s) + 2
}

/// Estimated bytes of an optional string field (1 when absent).
pub open spec fn opt_str_cost(o: Option<String>) -> int {
    match o {
        Some(s) => str_cost(s@),
        None => 1,
    }
}

/// Estimated bytes of a path identity.
pub open spec fn file_identity_cost(f: crate::contracts::FileIdentity) -> int {
    str_cost(f.display_path@) + str_cost(f.resolved_path@) + opt_str_cost(f.root_relative_path) + 8
}

/// Estimated bytes of path metadata.
pub open spec fn path_metadata_cost(m: crate::contracts::PathMetadata) -> int {
    str_cost(m.permissions_display@) + (if m.modified_unix_millis is Some {
        8int
    } else {
        1int
    }) + 24
}

/// Estimated bytes of one match.
pub open spec fn match_info_cost(m: crate::contracts::MatchInfo) -> int {
    opt_str_cost(m.text) + 56
}

/// Estimated bytes of one snippet.
pub open spec fn snippet_cost(s: crate::contracts::Snippet) -> int {
    str_cost(s.text@) + str_cost(s.line_ending@) + 32
}

/// Estimated bytes of a list of matches.
pub open spec fn matches_cost(s: Seq<crate::contracts::MatchInfo>) -> int
    decreases s.len(),
{
    if s.len() == 0 {
        0
    } else {
        matches_cost(s.drop_last()) + match_info_cost(s.last())
    }
}

/// Estimated bytes of a list of snippets.
pub open spec fn snippets_cost(s: Seq<crate::contracts::Snippet>) -> int
    decreases s.len(),
{
    if s.len() == 0 {
        0
    } else {
        snippets_cost(s.drop_last()) + snippet_cost(s.last())
    }
}

/// Estimated serialized size of a response item, used for page budgets.
pub open spec fn item_cost(item: SearchItem) -> int {
    match item {
        SearchItem::Path { path, file, fingerprint, metadata, .. } => str_cost(path@) + file_identity_cost(file)
            + str_cost(fingerprint@) + path_metadata_cost(metadata) + 32,
        SearchItem::Summary { path, file, fingerprint, content_state, semantic_skip_reasons, .. } => str_cost(path@)
            + file_identity_cost(file) + str_cost(fingerprint@) + opt_str_cost(content_state)
            + semantic_skip_reasons@.len() * 8 + 64,
        SearchItem::Matches { path, file, fingerprint, matches, content_state, semantic_skip_reasons, .. } =>
            str_cost(path@) + file_identity_cost(file) + str_cost(fingerprint@) + matches_cost(matches@)
            + opt_str_cost(content_state) + semantic_skip_reasons@.len() * 8 + 64,
        SearchItem::Snippets { path, file, fingerprint, snippets, content_state, semantic_skip_reasons, .. } =>
            str_cost(path@) + file_identity_cost(file) + str_cost(fingerprint@) + snippets_cost(snippets@)
            + opt_str_cost(content_state) + semantic_skip_reasons@.len() * 8 + 64,
        SearchItem::Full { path, file, fingerprint, content, matches, content_state, semantic_skip_reasons, .. } =>
            str_cost(path@) + file_identity_cost(file) + str_cost(fingerprint@) + str_cost(content@) + matches_cost(
            matches@,
        ) + opt_str_cost(content_state) + semantic_skip_reasons@.len() * 8 + 80,
    }
}

/// Every cost is positive.
pub proof fn lemma_costs_nonneg(m: crate::contracts::MatchInfo, s: crate::contracts::Snippet)
    ensures
        match_info_cost(m) > 0,
        snippet_cost(s) > 0,
{
}

/// The cost of a prefix of matches is at most the cost of all of them.
pub proof fn lemma_matches_cost_prefix(s: Seq<crate::contracts::MatchInfo>, i: int)
    requires
        0 <= i <= s.len(),
    ensures
        0 <= matches_cost(s.take(i)) <= matches_cost(s),
    decreases s.len(),
{
    if s.len() > 0 {
        if i == s.len() {
            assert(s.take(i) =~= s);
            lemma_matches_cost_prefix(s.drop_last(), i - 1);
            assert(s.drop_last().take(i - 1) =~= s.drop_last());
        } else {
            lemma_matches_cost_prefix(s.drop_last(), i);
            assert(s.drop_last().take(i) =~= s.take(i));
        }
    } else {
        assert(s.take(i) =~= s);
    }
}

/// The cost of a prefix of snippets is at most the cost of all of them.
pub proof fn lemma_snippets_cost_prefix(s: Seq<crate::contracts::Snippet>, i: int)
    requires
        0 <= i <= s.len(),
    ensures
        0 <= snippets_cost(s.take(i)) <= snippets_cost(s),
    decreases s.len(),
{
    if s.len() > 0 {
        if i == s.len() {
            assert(s.take(i) =~= s);
            lemma_snippets_cost_prefix(s.drop_last(), i - 1);
            assert(s.drop_last().take(i - 1) =~= s.drop_last());
        } else {
            lemma_snippets_cost_prefix(s.drop_last(), i);
            assert(s.drop_last().take(i) =~= s.take(i));
        }
    } else {
        assert(s.take(i) =~= s);
    }
}

/// `a + b` capped at `usize::MAX`.
fn sat_add_usize(a: usize, b: usize) -> (r: usize)
    ensures
        r == cap_usize(a + b),
{
    a.saturating_add(b)
}

/// Capping each of two non-negative parts before adding them, and capping
/// the sum, caps the sum.
proof fn lemma_cap_add(a: int, b: int)
    requires
        a >= 0,
        b >= 0,
    ensures
        cap_usize(cap_usize(a) + cap_usize(b)) == cap_usize(a + b),
{
}

/// Estimated bytes of a string field (saturating).
fn string_bytes(s: &str) -> (n: usize)
    ensures
        n == cap_usize(str_cost(s@)),
{
    sat_add_usize(crate::text::utf8_byte_len(s), 2)
}

/// Estimated bytes of an optional string field (saturating).
fn option_string_bytes(o: &Option<String>) -> (n: usize)
    ensures
        n == cap_usize(opt_str_cost(*o)),
{
    match o {
        Some(s) => string_bytes(s.as_str()),
        None => 1,
    }
}

/// Estimated bytes of a path identity (saturating).
fn file_identity_bytes(f: &crate::contracts::FileIdentity) -> (n: usize)
    ensures
        n == cap_usize(file_identity_cost(*f)),
{
    let a = string_bytes(f.display_path.as_str());
    let b = string_bytes(f.resolved_path.as_str());
    let c = option_string_bytes(&f.root_relative_path);
    proof {
        let x = str_cost(f.display_path@);
        let y = str_cost(f.resolved_path@);
        let z = opt_str_cost(f.root_relative_path);
        lemma_cap_add(x, y);
        lemma_cap_add(x + y, z);
        lemma_cap_add(x + y + z, 8);
    }
    sat_add_usize(sat_add_usize(sat_add_usize(a, b), c), 8)
}

/// Estimated bytes of a list of matches (saturating).
fn matches_bytes(ms: &Vec<crate::contracts::MatchInfo>) -> (n: usize)
    ensures
        n == cap_usize(matches_cost(ms@)),
{
    let mut total: usize = 0;
    let mut i: usize = 0;
    while i < ms.len()
        invariant
            i <= ms.len(),
            total == cap_usize(matches_cost(ms@.take(i as int))),
        decreases ms.len() - i,
    {
        proof {
            lemma_matches_cost_prefix(ms@, i as int);
            assert(ms@.take(i + 1).drop_last() =~= ms@.take(i as int));
            lemma_costs_nonneg(ms@[i as int], arbitrary());
            lemma_cap_add(opt_str_cost(ms@[i as int].text), 56);
            lemma_cap_add(matches_cost(ms@.take(i as int)), match_info_cost(ms@[i as int]));
        }
        let c = sat_add_usize(option_string_bytes(&ms[i].text), 56);
        total = sat_add_usize(total, c);
        i = i + 1;
    }
    assert(ms@.take(i as int) =~= ms@);
    total
}

/// Estimated bytes of a list of snippets (saturating).
fn snippets_bytes(ss: &Vec<crate::contracts::Snippet>) -> (n: usize)
    ensures
        n == cap_usize(snippets_cost(ss@)),
{
    let mut total: usize = 0;
    let mut i: usize = 0;
    while i < ss.len()
        invariant
            i <= ss.len(),
            total == cap_usize(snippets_cost(ss@.take(i as int))),
        decreases ss.len() - i,
    {
        proof {
            lemma_snippets_cost_prefix(ss@, i as int);
            assert(ss@.take(i + 1).drop_last() =~= ss@.take(i as int));
            let x = str_cost(ss@[i as int].text@);
            let y = str_cost(ss@[i as int].line_ending@);
            lemma_cap_add(x, y);
            lemma_cap_add(x + y, 32);
            lemma_cap_add(snippets_cost(ss@.take(i as int)), snippet_cost(ss@[i as int]));
        }
        let a = string_bytes(ss[i].text.as_str());
        let b = string_bytes(ss[i].line_ending.as_str());
        let c = sat_add_usize(sat_add_usize(a, b), 32);
        total = sat_add_usize(total, c);
        i = i + 1;
    }
    assert(ss@.take(i as int) =~= ss@);
    total
}

/// The list costs inside an item are non-negative.
proof fn lemma_item_parts_nonneg(item: SearchItem)
    ensures
        match item {
            SearchItem::Matches { matches, .. } => matches_cost(matches@) >= 0,
            SearchItem::Snippets { snippets, .. } => snippets_cost(snippets@) >= 0,
            SearchItem::Full { matches, .. } => matches_cost(matches@) >= 0,
            _ => true,
        },
{
    match item {
        SearchItem::Matches { matches, .. } => lemma_matches_cost_prefix(matches@, 0),
        SearchItem::Snippets { snippets, .. } => lemma_snippets_cost_prefix(snippets@, 0),
        SearchItem::Full { matches, .. } => lemma_matches_cost_prefix(matches@, 0),
        _ => {},
    }
}

/// `8 * n` capped at `usize::MAX`.
fn reasons_bytes(n: usize) -> (r: usize)
    ensures
        r == cap_usize(n * 8),
{
    if n > usize::MAX / 8 {
        usize::MAX
    } else {
        n * 8
    }
}

/// The capped sum of the capped costs of an item's fields: path,
/// identity, fingerprint, then `d` and `e` (the parts that differ between
/// item kinds) and the constant `k`.
fn sum_item_parts(a: usize, b: usize, c: usize, d: usize, e: usize, k: usize, Ghost(x): Ghost<(int, int, int, int, int)>) -> (n: usize)
    requires
        x.0 >= 0 && x.1 >= 0 && x.2 >= 0 && x.3 >= 0 && x.4 >= 0,
        a == cap_usize(x.0),
        b == cap_usize(x.1),
        c == cap_usize(x.2),
        d == cap_usize(x.3),
        e == cap_usize(x.4),
    ensures
        n == cap_usize(x.0 + x.1 + x.2 + x.3 + x.4 + k),
{
    proof {
        lemma_cap_add(x.0, x.1);
        lemma_cap_add(x.0 + x.1, x.2);
        lemma_cap_add(x.0 + x.1 + x.2, x.3);
        lemma_cap_add(x.0 + x.1 + x.2 + x.3, x.4);
        lemma_cap_add(x.0 + x.1 + x.2 + x.3 + x.4, k as int);
    }
    sat_add_usize(sat_add_usize(sat_add_usize(sat_add_usize(sat_add_usize(a, b), c), d), e), k)
}

/// Estimates the serialized size of a response item (saturating at
/// `usize::MAX`).
pub fn estimate_search_item_bytes(item: &SearchItem) -> (n: usize)
    ensures
        n == cap_usize(item_cost(*item)),
{
    proof {
        lemma_item_parts_nonneg(*item);
    }
    match item {
        SearchItem::Path { path, file, fingerprint, metadata, .. } => {
            let d = string_bytes(metadata.permissions_display.as_str());
            let e: usize = if metadata.modified_unix_millis.is_some() { 8 } else { 1 };
            sum_item_parts(
                string_bytes(path.as_str()),
                file_identity_bytes(file),
                string_bytes(fingerprint.as_str()),
                d,
                e,
                56,
                Ghost((str_cost(path@), file_identity_cost(*file), str_cost(fingerprint@), str_cost(metadata.permissions_display@), e as int)),
            )
        },
        SearchItem::Summary { path, file, fingerprint, content_state, semantic_skip_reasons, .. } => {
            let d = option_string_bytes(content_state);
            let e = reasons_bytes(semantic_skip_reasons.len());
            sum_item_parts(
                string_bytes(path.as_str()),
                file_identity_bytes(file),
                string_bytes(fingerprint.as_str()),
                d,
                e,
                64,
                Ghost((str_cost(path@), file_identity_cost(*file), str_cost(fingerprint@), opt_str_cost(*content_state), (semantic_skip_reasons@.len() * 8) as int)),
            )
        },
        SearchItem::Matches { path, file, fingerprint, matches, content_state, semantic_skip_reasons, .. } => {
            let m = matches_bytes(matches);
            let o = option_string_bytes(content_state);
            let r = reasons_bytes(semantic_skip_reasons.len());
            proof {
                lemma_cap_add(matches_cost(matches@), opt_str_cost(*content_state));
                lemma_cap_add(matches_cost(matches@) + opt_str_cost(*content_state), (semantic_skip_reasons@.len() * 8) as int);
            }
            let d = sat_add_usize(sat_add_usize(m, o), r);
            sum_item_parts(
                string_bytes(path.as_str()),
                file_identity_bytes(file),
                string_bytes(fingerprint.as_str()),
                d,
                0,
                64,
                Ghost((str_cost(path@), file_identity_cost(*file), str_cost(fingerprint@), matches_cost(matches@) + opt_str_cost(*content_state) + semantic_skip_reasons@.len() * 8, 0)),
            )
        },
        SearchItem::Snippets { path, file, fingerprint, snippets, content_state, semantic_skip_reasons, .. } => {
            let m = snippets_bytes(snippets);
            let o = option_string_bytes(content_state);
            let r = reasons_bytes(semantic_skip_reasons.len());
            proof {
                lemma_cap_add(snippets_cost(snippets@), opt_str_cost(*content_state));
                lemma_cap_add(snippets_cost(snippets@) + opt_str_cost(*content_state), (semantic_skip_reasons@.len() * 8) as int);
            }
            let d = sat_add_usize(sat_add_usize(m, o), r);
            sum_item_parts(
                string_bytes(path.as_str()),
                file_identity_bytes(file),
                string_bytes(fingerprint.as_str()),
                d,
                0,
                64,
                Ghost((str_cost(path@), file_identity_cost(*file), str_cost(fingerprint@), snippets_cost(snippets@) + opt_str_cost(*content_state) + semantic_skip_reasons@.len() * 8, 0)),
            )
        },
        SearchItem::Full {
            path,
            file,
            fingerprint,
            content,
            matches,
            content_state,
            semantic_skip_reasons,
            ..
        } => {
            let c = string_bytes(content.as_str());
            let m = matches_bytes(matches);
            let o = option_string_bytes(content_state);
            let r = reasons_bytes(semantic_skip_reasons.len());
            proof {
                lemma_cap_add(matches_cost(matches@), opt_str_cost(*content_state));
                lemma_cap_add(matches_cost(matches@) + opt_str_cost(*content_state), (semantic_skip_reasons@.len() * 8) as int);
            }
            let d = sat_add_usize(sat_add_usize(m, o), r);
            sum_item_parts(
                string_bytes(path.as_str()),
                file_identity_bytes(file),
                string_bytes(fingerprint.as_str()),
                c,
                d,
                80,
                Ghost((str_cost(path@), file_identity_cost(*file), str_cost(fingerprint@), str_cost(content@), matches_cost(matches@) + opt_str_cost(*content_state) + (semantic_skip_reasons@.len() * 8) as int)),
            )
        },
    }
}

// ---------------------------------------------------------------------------
// Per-file errors
// ---------------------------------------------------------------------------

/// The suggestion attached to a skipped per-file error.
pub open spec fn skip_error_suggestion() -> Seq<char> {
    "Retry with fail-fast to stop on the first per-file error."@
}

/// Handles a per-file error: fail-fast propagates it; skip-errors keeps it
/// as a search-execution error while fewer than `max_errors` are kept, and
/// drops it otherwise.
pub fn handle_error(errors: &mut Vec<ContractError>, limits: &ResolvedLimits, error_mode: ErrorMode, err: String) -> (r:
    Result<(), String>)
    ensures
        error_mode == ErrorMode::FailFast ==> (r matches Err(e) && e@ == err@) && final(errors)@ == old(errors)@,
        error_mode == ErrorMode::SkipErrors ==> r is Ok,
        error_mode == ErrorMode::SkipErrors && old(errors)@.len() >= limits.max_errors ==> final(errors)@ == old(
            errors,
        )@,
        error_mode == ErrorMode::SkipErrors && old(errors)@.len() < limits.max_errors ==> {
            &&& final(errors)@.len() == old(errors)@.len() + 1
            &&& final(errors)@.drop_last() == old(errors)@
            &&& final(errors)@.last().code == ErrorCode::SearchExecution
            &&& final(errors)@.last().message@ == err@
            &&& final(errors)@.last().field is None
            &&& !final(errors)@.last().remediation.retryable
            &&& opt_view(final(errors)@.last().remediation.suggested_action) == Some(skip_error_suggestion())
            &&& opt_view(final(errors)@.last().remediation.docs_uri) == Some(runtime_docs_uri())
        },
{
    match error_mode {
        ErrorMode::SkipErrors => {
            if errors.len() < limits.max_errors {
                let e = contract_error(
                    ErrorCode::SearchExecution,
                    err,
                    None,
                    false,
                    Some(owned("Retry with fail-fast to stop on the first per-file error.")),
                );
                errors.push(e);
                assert(errors@.drop_last() =~= old(errors)@);
            }
            Ok(())
        },
        ErrorMode::FailFast => Err(err),
    }
}


// ---------------------------------------------------------------------------
// Response items
// ---------------------------------------------------------------------------

/// `f` is the contract form of `id`.
pub open spec fn identity_mapped(f: crate::contracts::FileIdentity, id: crate::model::FileIdentity) -> bool {
    &&& f.display_path@ == id.display_path@
    &&& f.resolved_path@ == id.resolved_path@
    &&& opt_view(f.root_relative_path) == opt_view(id.root_relative_path)
    &&& f.resolution == map_resolution_spec(id.resolution)
}

/// `m` is the path metadata recorded in a snapshot.
pub open spec fn metadata_from_snapshot(m: crate::contracts::PathMetadata, s: crate::model::FileSnapshot) -> bool {
    &&& m.size_bytes == s.len
    &&& m.modified_unix_millis == s.modified_unix_millis
    &&& m.readonly == s.readonly
    &&& m.permissions_display@ == s.permissions_display@
}

/// The response item built for a result in an output mode, with the number
/// of matches it reports.
pub open spec fn build_item_spec(
    item: SearchItem,
    count: usize,
    output: OutputMode,
    result: crate::model::SearchResult,
    context_lines: usize,
    snippet_mode: crate::contracts::SnippetMode,
    limits: ResolvedLimits,
    path_display: Option<PathDisplayMode>,
    line_endings: LineEndingMode,
    include_match_text: bool,
) -> bool {
    let rpath = render_path_spec(result.metadata.file, path_display);
    let n = result.matches@.len();
    let over = n > limits.max_matches_per_file;
    let state = Some(content_state_label_spec(result.content_state));
    let reasons = result.metadata.semantic_skip_reasons@.map_values(
        |x: crate::model::SemanticSkipReason| map_skip_reason_spec(x),
    );
    let kind = map_result_kind_spec(result.metadata.result_kind);
    let common = |p: String, f: crate::contracts::FileIdentity, fp: String|
        p@ == rpath && identity_mapped(f, result.metadata.file) && fp@ == result.metadata.fingerprint@;
    match item {
        SearchItem::Summary {
            path,
            file,
            fingerprint,
            matches: m,
            whole_file_match,
            result_kind,
            matches_truncated,
            content_state,
            diagnostic_count,
            semantic_skip_reasons,
            item_truncated,
        } => {
            &&& output == OutputMode::Summary
            &&& common(path, file, fingerprint)
            &&& m == n && count == n
            &&& whole_file_match == (n == 0)
            &&& result_kind == kind
            &&& matches_truncated == over
            &&& opt_view(content_state) == state
            &&& diagnostic_count == result.diagnostics@.len()
            &&& semantic_skip_reasons@ == reasons
            &&& !item_truncated
        },
        SearchItem::Matches {
            path,
            file,
            fingerprint,
            matches: ms,
            whole_file_match,
            result_kind,
            matches_truncated,
            content_state,
            diagnostic_count,
            semantic_skip_reasons,
            item_truncated,
        } => {
            &&& output == OutputMode::Matches
            &&& common(path, file, fingerprint)
            &&& ms@.len() == reported_count(n, limits) && count == ms@.len()
            &&& forall|i: int|
                0 <= i < ms@.len() ==> match_info_spec(#[trigger] ms@[i], result.matches@[i], limits, include_match_text)
            &&& whole_file_match == (n == 0)
            &&& result_kind == kind
            &&& matches_truncated == over
            &&& opt_view(content_state) == state
            &&& diagnostic_count == result.diagnostics@.len()
            &&& semantic_skip_reasons@ == reasons
            &&& item_truncated == over
        },
        SearchItem::Snippets {
            path,
            file,
            fingerprint,
            snippets,
            whole_file_match,
            result_kind,
            matches_truncated,
            content_state,
            diagnostic_count,
            semantic_skip_reasons,
            item_truncated,
        } => {
            &&& output == OutputMode::Snippets
            &&& common(path, file, fingerprint)
            &&& count == snippets@.len()
            &&& (!state_is_loaded(result.content_state) || n == 0 ==> snippets@.len() == 0)
            &&& (state_is_loaded(result.content_state) && n > 0 ==> {
                &&& snippets@.len() == reported_count(n, limits)
                &&& forall|i: int|
                    0 <= i < snippets@.len() ==> snippet_spec(
                        #[trigger] snippets@[i],
                        result.content@,
                        result.matches@[i],
                        context_lines,
                        snippet_mode,
                        limits,
                        line_endings,
                    )
            })
            &&& whole_file_match == (n == 0)
            &&& result_kind == kind
            &&& matches_truncated == over
            &&& opt_view(content_state) == state
            &&& diagnostic_count == result.diagnostics@.len()
            &&& semantic_skip_reasons@ == reasons
            &&& item_truncated == over
        },
        SearchItem::Full {
            path,
            file,
            fingerprint,
            content,
            matches: ms,
            content_truncated,
            matches_truncated,
            result_kind,
            content_state,
            diagnostic_count,
            semantic_skip_reasons,
            item_truncated,
        } => {
            let rendered = line_endings_spec(result.content@, line_endings);
            &&& output == OutputMode::Full
            &&& common(path, file, fingerprint)
            &&& content@ == crate::text::truncate_spec(rendered, limits.max_bytes_per_file as nat)
            &&& content_truncated == (crate::text::byte_len(rendered) > limits.max_bytes_per_file)
            &&& ms@.len() == reported_count(n, limits) && count == ms@.len()
            &&& forall|i: int|
                0 <= i < ms@.len() ==> match_info_spec(#[trigger] ms@[i], result.matches@[i], limits, include_match_text)
            &&& matches_truncated == over
            &&& result_kind == kind
            &&& opt_view(content_state) == state
            &&& diagnostic_count == result.diagnostics@.len()
            &&& semantic_skip_reasons@ == reasons
            &&& item_truncated == (content_truncated || over)
        },
        SearchItem::Path { path, file, fingerprint, metadata, result_kind, item_truncated } => {
            &&& output == OutputMode::Paths
            &&& common(path, file, fingerprint)
            &&& count == 0
            &&& result_kind == kind
            &&& !item_truncated
            &&& (result.metadata.snapshot matches Some(snap) ==> metadata_from_snapshot(metadata, snap))
        },
    }
}

/// The snippets of a result fit its lines, as snippet shaping needs: each
/// reported match, widened by the context, lies within the loaded content.
/// A result whose content is withheld shows no snippet, so nothing is asked
/// of it.
pub open spec fn snippets_fit(result: crate::model::SearchResult, context_lines: usize, limits: ResolvedLimits) -> bool {
    state_is_loaded(result.content_state) ==> forall|i: int|
        0 <= i < reported_count(result.matches@.len(), limits) ==> snippet_in_bounds(
            #[trigger] result.matches@[i],
            crate::text::lines_with_endings(result.content@).len(),
            context_lines,
        )
}

/// Path metadata as reported from backend metadata.
pub open spec fn metadata_from_backend(m: crate::contracts::PathMetadata, md: crate::backend::BackendMetadata) -> bool {
    &&& m.size_bytes == md.size_bytes
    &&& m.modified_unix_millis == md.modified_unix_millis
    &&& m.readonly == md.readonly
    &&& m.permissions_display@ == md.permissions_display@
}

/// Builds the response item for a result in the requested output mode,
/// with the number of matches it reports. Path items without a recorded
/// snapshot take their metadata from the backend; its error is returned as
/// is.
pub fn build_item<B: crate::backend::SearchBackend>(
    backend: &B,
    output: OutputMode,
    result: &crate::model::SearchResult,
    context_lines: usize,
    snippet_mode: crate::contracts::SnippetMode,
    limits: &ResolvedLimits,
    path_display: Option<PathDisplayMode>,
    line_endings: LineEndingMode,
    include_match_text: bool,
) -> (r: Result<(SearchItem, usize), String>)
    requires
        output == OutputMode::Snippets ==> snippets_fit(*result, context_lines, *limits),
    ensures
        match r {
            Ok((item, count)) => build_item_spec(
                item,
                count,
                output,
                *result,
                context_lines,
                snippet_mode,
                *limits,
                path_display,
                line_endings,
                include_match_text,
            ),
            Err(e) => output == OutputMode::Paths && result.metadata.snapshot is None && backend.stat_outcome(
                result.metadata.file.resolved_path@,
                Err(e),
            ),
        },
        result.metadata.snapshot is None ==> (r matches Ok((SearchItem::Path { metadata, .. }, _)) ==> exists|
            md: crate::backend::BackendMetadata,
        |
            #[trigger] backend.stat_outcome(result.metadata.file.resolved_path@, Ok(md)) && metadata_from_backend(
                metadata,
                md,
            )),
{
    let file = map_file_identity(&result.metadata.file);
    let path = render_contract_path(&result.metadata.file, path_display);
    let fingerprint = result.metadata.fingerprint.clone();
    let result_kind = map_result_kind(result.metadata.result_kind);
    let semantic_skip_reasons = map_skip_reasons(result.metadata.semantic_skip_reasons.as_slice());
    let n = result.matches.len();
    let over = n > limits.max_matches_per_file;
    match output {
        OutputMode::Summary => {
            let item = SearchItem::Summary {
                path,
                file,
                fingerprint,
                matches: n,
                whole_file_match: n == 0,
                result_kind,
                matches_truncated: over,
                content_state: Some(content_state_label(&result.content_state)),
                diagnostic_count: result.diagnostics.len(),
                semantic_skip_reasons,
                item_truncated: false,
            };
            Ok((item, n))
        },
        OutputMode::Matches => {
            let matches = shape_matches(result, limits, include_match_text);
            let count = matches.len();
            let item = SearchItem::Matches {
                path,
                file,
                fingerprint,
                matches,
                whole_file_match: n == 0,
                result_kind,
                matches_truncated: over,
                content_state: Some(content_state_label(&result.content_state)),
                diagnostic_count: result.diagnostics.len(),
                semantic_skip_reasons,
                item_truncated: over,
            };
            Ok((item, count))
        },
        OutputMode::Snippets => {
            let snippets = shape_snippets(result, context_lines, snippet_mode, limits, line_endings);
            let count = snippets.len();
            let item = SearchItem::Snippets {
                path,
                file,
                fingerprint,
                snippets,
                whole_file_match: n == 0,
                result_kind,
                matches_truncated: over,
                content_state: Some(content_state_label(&result.content_state)),
                diagnostic_count: result.diagnostics.len(),
                semantic_skip_reasons,
                item_truncated: over,
            };
            Ok((item, count))
        },
        OutputMode::Full => {
            let matches = shape_matches(result, limits, include_match_text);
            let count = matches.len();
            let rendered = apply_line_endings(result.content.as_str(), line_endings);
            let content_truncated = crate::text::utf8_byte_len(rendered.as_str()) > limits.max_bytes_per_file;
            let content = crate::text::truncate_string(rendered.as_str(), limits.max_bytes_per_file);
            let item = SearchItem::Full {
                path,
                file,
                fingerprint,
                content,
                matches,
                content_truncated,
                matches_truncated: over,
                result_kind,
                content_state: Some(content_state_label(&result.content_state)),
                diagnostic_count: result.diagnostics.len(),
                semantic_skip_reasons,
                item_truncated: content_truncated || over,
            };
            Ok((item, count))
        },
        OutputMode::Paths => {
            let metadata = match &result.metadata.snapshot {
                Some(snapshot) => snapshot.to_path_metadata(),
                None => match backend.stat(result.metadata.file.resolved_path.as_str()) {
                    Ok(m) => m.to_path_metadata(),
                    Err(e) => {
                        return Err(e);
                    },
                },
            };
            let item = SearchItem::Path { path, file, fingerprint, metadata, result_kind, item_truncated: false };
            Ok((item, 0))
        },
    }
}


/// The file identity a matched file carries.
pub open spec fn raw_identity(raw: crate::engine::RawSearchItem) -> crate::model::FileIdentity {
    crate::model::FileIdentity {
        display_path: raw.display_path,
        resolved_path: raw.resolved_path,
        root_relative_path: raw.root_relative_path,
        resolution: raw.resolution,
    }
}

/// The fingerprint of a path item: the file's stable token when it has
/// one, else its size, modification time, read-only flag, device and inode
/// joined by colons (0 for an absent value).
pub open spec fn identity_fingerprint_spec(
    token: Option<String>,
    len: u64,
    modified: Option<i64>,
    readonly: bool,
    device: Option<u64>,
    inode: Option<u64>,
) -> Seq<char> {
    match token {
        Some(t) => t@,
        None => crate::text::decimal(len as nat) + ":"@ + crate::text::signed_decimal(
            match modified {
                Some(m) => m as int,
                None => 0,
            },
        ) + ":"@ + crate::text::bool_spec(readonly) + ":"@ + crate::text::decimal(
            match device {
                Some(d) => d as nat,
                None => 0,
            },
        ) + ":"@ + crate::text::decimal(
            match inode {
                Some(i) => i as nat,
                None => 0,
            },
        ),
    }
}

/// Renders a path item's fingerprint (see `identity_fingerprint_spec`).
fn identity_fingerprint(
    token: &Option<String>,
    len: u64,
    modified: Option<i64>,
    readonly: bool,
    device: Option<u64>,
    inode: Option<u64>,
) -> (s: String)
    ensures
        s@ == identity_fingerprint_spec(*token, len, modified, readonly, device, inode),
{
    match token {
        Some(t) => t.clone(),
        None => {
            let mut out: Vec<char> = Vec::new();
            let a = crate::text::u64_to_string(len);
            push_str(&mut out, a.as_str());
            push_str(&mut out, ":");
            let b = crate::text::i64_to_string(
                match modified {
                    Some(m) => m,
                    None => 0,
                },
            );
            push_str(&mut out, b.as_str());
            push_str(&mut out, ":");
            push_str(&mut out, crate::text::bool_text(readonly));
            push_str(&mut out, ":");
            let c = crate::text::u64_to_string(
                match device {
                    Some(d) => d,
                    None => 0,
                },
            );
            push_str(&mut out, c.as_str());
            push_str(&mut out, ":");
            let d = crate::text::u64_to_string(
                match inode {
                    Some(i) => i,
                    None => 0,
                },
            );
            push_str(&mut out, d.as_str());
            string_from_chars(&out)
        },
    }
}

/// A contract diagnostic is the mapping of a library diagnostic.
pub open spec fn diagnostic_mapped(c: crate::contracts::SearchDiagnostic, d: crate::content::SearchDiagnostic) -> bool {
    &&& c.level@ == level_label(d.level)
    &&& c.kind@ == kind_label(d.kind)
    &&& c.message@ == d.message@
    &&& opt_view(c.path) == opt_view(d.path)
}

/// Each contract diagnostic is the mapping of the library diagnostic at
/// the same place.
pub open spec fn diagnostics_mapped(
    cs: Seq<crate::contracts::SearchDiagnostic>,
    ds: Seq<crate::content::SearchDiagnostic>,
) -> bool {
    &&& cs.len() == ds.len()
    &&& forall|i: int| 0 <= i < ds.len() ==> diagnostic_mapped(#[trigger] cs[i], ds[i])
}

/// Maps library diagnostics to their contract form, in order.
pub fn map_diagnostics(ds: &Vec<crate::content::SearchDiagnostic>) -> (cs: Vec<crate::contracts::SearchDiagnostic>)
    ensures
        diagnostics_mapped(cs@, ds@),
{
    let mut cs: Vec<crate::contracts::SearchDiagnostic> = Vec::new();
    let mut i: usize = 0;
    while i < ds.len()
        invariant
            i <= ds.len(),
            cs@.len() == i,
            forall|k: int| 0 <= k < i ==> diagnostic_mapped(#[trigger] cs@[k], ds@[k]),
        decreases ds.len() - i,
    {
        cs.push(map_diagnostic(&ds[i]));
        i = i + 1;
    }
    cs
}

/// The item shaped for a matched file in path mode: its rendered path,
/// identity, fingerprint and metadata (from the recorded snapshot, else
/// from the backend's metadata `m`), and whether it matched at ranges.
pub open spec fn path_item_holds(
    p: PendingSearchItem,
    raw: crate::engine::RawSearchItem,
    path_display: Option<PathDisplayMode>,
) -> bool {
    match p.item {
        SearchItem::Path { path, file, fingerprint, metadata, result_kind, item_truncated } => {
            &&& path@ == render_path_spec(raw_identity(raw), path_display)
            &&& identity_mapped(file, raw_identity(raw))
            &&& result_kind == (if raw.ranges@.len() == 0 {
                ResultKind::WholeFile
            } else {
                ResultKind::Ranged
            })
            &&& !item_truncated
            &&& match raw.snapshot {
                Some(s) => {
                    &&& fingerprint@ == identity_fingerprint_spec(
                        s.stable_token,
                        s.len,
                        s.modified_unix_millis,
                        s.readonly,
                        s.device_id,
                        s.inode,
                    )
                    &&& metadata_from_snapshot(metadata, s)
                },
                None => exists|m: crate::backend::BackendMetadata|
                    {
                        &&& #[trigger] identity_fingerprint_spec(
                            m.stable_token,
                            m.size_bytes,
                            m.modified_unix_millis,
                            m.readonly,
                            m.device_id,
                            m.inode,
                        ) == fingerprint@
                        &&& metadata.size_bytes == m.size_bytes
                        &&& metadata.modified_unix_millis == m.modified_unix_millis
                        &&& metadata.readonly == m.readonly
                        &&& metadata.permissions_display@ == m.permissions_display@
                    },
            }
            &&& p.path@ == path@
            &&& p.match_count == 0
            &&& p.approx_bytes == cap_usize(item_cost(p.item))
            &&& diagnostics_mapped(p.diagnostics@, raw.diagnostics@)
        },
        _ => false,
    }
}

/// A path item whose fingerprint and metadata come from backend metadata
/// `m`.
pub open spec fn path_item_from_metadata(item: SearchItem, m: crate::backend::BackendMetadata) -> bool {
    match item {
        SearchItem::Path { fingerprint, metadata, .. } => {
            &&& fingerprint@ == identity_fingerprint_spec(
                m.stable_token,
                m.size_bytes,
                m.modified_unix_millis,
                m.readonly,
                m.device_id,
                m.inode,
            )
            &&& metadata_from_backend(metadata, m)
        },
        _ => false,
    }
}

/// Shapes a matched file as a path item. Without a recorded snapshot its
/// metadata comes from the backend (`stat` of the resolved path), whose
/// error is returned as is.
pub fn shape_path_item<B: crate::backend::SearchBackend>(
    backend: &B,
    raw: crate::engine::RawSearchItem,
    path_display: Option<PathDisplayMode>,
) -> (r: Result<PendingSearchItem, String>)
    ensures
        match r {
            Ok(p) => path_item_holds(p, raw, path_display),
            Err(e) => raw.snapshot is None && backend.stat_outcome(raw.resolved_path@, Err(e)),
        },
        raw.snapshot is None ==> (r matches Ok(p) ==> exists|m: crate::backend::BackendMetadata|
            #[trigger] backend.stat_outcome(raw.resolved_path@, Ok(m)) && path_item_from_metadata(p.item, m)),
{
    let ghost raw_copy = raw;
    let ghost mut stat_md: crate::backend::BackendMetadata = vstd::pervasive::arbitrary();
    let identity = crate::model::FileIdentity {
        display_path: raw.display_path,
        resolved_path: raw.resolved_path,
        root_relative_path: raw.root_relative_path,
        resolution: raw.resolution,
    };
    let (fingerprint, metadata) = match &raw.snapshot {
        Some(s) => (
            identity_fingerprint(&s.stable_token, s.len, s.modified_unix_millis, s.readonly, s.device_id, s.inode),
            s.to_path_metadata(),
        ),
        None => match backend.stat(identity.resolved_path.as_str()) {
            Ok(m) => {
                let f = identity_fingerprint(&m.stable_token, m.size_bytes, m.modified_unix_millis, m.readonly, m.device_id, m.inode);
                let md = m.to_path_metadata();
                assert(identity_fingerprint_spec(m.stable_token, m.size_bytes, m.modified_unix_millis, m.readonly, m.device_id, m.inode) == f@);
                proof {
                    stat_md = m;
                }
                (f, md)
            },
            Err(e) => return Err(e),
        },
    };
    let path = render_contract_path(&identity, path_display);
    let file = map_file_identity(&identity);
    let result_kind = if raw.ranges.len() == 0 {
        ResultKind::WholeFile
    } else {
        ResultKind::Ranged
    };
    let item = SearchItem::Path { path: path.clone(), file, fingerprint, metadata, result_kind, item_truncated: false };
    let diagnostics = map_diagnostics(&raw.diagnostics);
    let approx_bytes = estimate_search_item_bytes(&item);
    proof {
        assert(raw_identity(raw_copy) == identity);
    }
    Ok(PendingSearchItem { item, path, diagnostics, match_count: 0, approx_bytes })
}

/// The message of a content read that failed while shaping an item.
pub open spec fn materialization_error_text(e: crate::model::SearchMaterializationError) -> Seq<char> {
    "Failed to materialize "@ + e.path@ + " (ContentReadFailed, snapshot_drift="@ + crate::text::bool_spec(
        e.snapshot_drift,
    ) + "): "@ + e.message@
}

/// Renders the message of a failed content read.
fn materialization_error_message(e: &crate::model::SearchMaterializationError) -> (s: String)
    ensures
        s@ == materialization_error_text(*e),
{
    let mut out: Vec<char> = Vec::new();
    push_str(&mut out, "Failed to materialize ");
    push_str(&mut out, e.path.as_str());
    push_str(&mut out, " (ContentReadFailed, snapshot_drift=");
    push_str(&mut out, crate::text::bool_text(e.snapshot_drift));
    push_str(&mut out, "): ");
    push_str(&mut out, e.message.as_str());
    string_from_chars(&out)
}

/// Whether every reported match of a result lies within its content's
/// lines once widened by the context (see `snippets_fit`).
pub fn snippets_within_content(result: &crate::model::SearchResult, context_lines: usize, limits: &ResolvedLimits) -> (b:
    bool)
    ensures
        b == snippets_fit(*result, context_lines, *limits),
{
    if !result.content_available() {
        return true;
    }
    let lines = crate::text::split_lines_with_endings(result.content.as_str());
    let total = lines.len();
    assert(total == crate::text::lines_with_endings(result.content@).len());
    let mut i: usize = 0;
    while i < result.matches.len() && i < limits.max_matches_per_file
        invariant
            i <= result.matches@.len(),
            i <= reported_count(result.matches@.len(), *limits),
            state_is_loaded(result.content_state),
            total == crate::text::lines_with_endings(result.content@).len(),
            forall|k: int| 0 <= k < i ==> snippet_in_bounds(#[trigger] result.matches@[k], total as nat, context_lines),
        decreases result.matches.len() - i,
    {
        let m = &result.matches[i];
        let end = m.end_line.saturating_sub(1);
        if end > usize::MAX - context_lines {
            return false;
        }
        let r = snippet_range(m, total, context_lines);
        if !(r.start <= r.end && r.end <= total) {
            return false;
        }
        i = i + 1;
    }
    true
}

/// The item shaped for a matched file in an output mode other than paths:
/// the item built for the loaded result `res`.
pub open spec fn content_item_holds(
    p: PendingSearchItem,
    res: crate::model::SearchResult,
    output: OutputMode,
    context_lines: usize,
    snippet_mode: crate::contracts::SnippetMode,
    limits: ResolvedLimits,
    path_display: Option<PathDisplayMode>,
    line_endings: LineEndingMode,
    include_match_text: bool,
) -> bool {
    &&& build_item_spec(
        p.item,
        p.match_count,
        output,
        res,
        context_lines,
        snippet_mode,
        limits,
        path_display,
        line_endings,
        include_match_text,
    )
    &&& p.path@ == res.path@
    &&& p.approx_bytes == cap_usize(item_cost(p.item))
    &&& diagnostics_mapped(p.diagnostics@, res.diagnostics@)
}

/// `res` is a result that materializing `raw` through `backend` can give:
/// built from the content that loading the file gave.
pub open spec fn materialized_from<B: crate::backend::SearchBackend>(
    backend: &B,
    raw: crate::engine::RawSearchItem,
    res: crate::model::SearchResult,
) -> bool {
    &&& crate::engine::materialization_holds(res, raw)
    &&& exists|c: crate::content::LoadedContent|
        #[trigger] crate::backend::backend_load_holds(backend, raw.resolved_path@, raw.display_path@, Ok(c))
            && res.content@ == c.content@ && res.content_state == c.state
}

/// `m` is an error that materializing `raw` through `backend` can give:
/// loading the file failed with a message that `m` reports.
pub open spec fn materialization_failed<B: crate::backend::SearchBackend>(
    backend: &B,
    raw: crate::engine::RawSearchItem,
    m: crate::model::SearchMaterializationError,
) -> bool {
    &&& m.path@ == raw.display_path@
    &&& exists|msg: String|
        crate::backend::backend_load_holds(backend, raw.resolved_path@, raw.display_path@, Err(msg))
            && #[trigger] crate::engine::materialization_message(raw.resolved_path@, msg@, raw.snapshot is Some)
            == m.message@
}

/// The message when a match lies past the end of the content it was
/// loaded with (the file changed since it was evaluated).
pub open spec fn stale_ranges_text(path: Seq<char>) -> Seq<char> {
    "Match ranges of "@ + path + " lie outside its current content"@
}

/// Shapes a matched file for a page in the requested output mode: a path
/// item, or the item built after loading its content. A content read that
/// fails gives its message; so does, outside paths mode, a match whose
/// snippet would lie past the end of the loaded content.
pub fn shape_item<B: crate::backend::SearchBackend>(
    backend: &B,
    output: OutputMode,
    raw: crate::engine::RawSearchItem,
    context_lines: usize,
    snippet_mode: crate::contracts::SnippetMode,
    limits: &ResolvedLimits,
    path_display: Option<PathDisplayMode>,
    line_endings: LineEndingMode,
    include_match_text: bool,
) -> (r: Result<PendingSearchItem, String>)
    requires
        forall|i: int|
            0 <= i < raw.ranges@.len() ==> (#[trigger] raw.ranges@[i]).start_point.row < usize::MAX
                && raw.ranges@[i].end_point.row < usize::MAX,
    ensures
        output == OutputMode::Paths ==> match r {
            Ok(p) => path_item_holds(p, raw, path_display),
            Err(e) => raw.snapshot is None && backend.stat_outcome(raw.resolved_path@, Err(e)),
        },
        output == OutputMode::Paths && raw.snapshot is None ==> (r matches Ok(p) ==> exists|
            m: crate::backend::BackendMetadata,
        | #[trigger] backend.stat_outcome(raw.resolved_path@, Ok(m)) && path_item_from_metadata(p.item, m)),
        output != OutputMode::Paths ==> match r {
            Ok(p) => exists|res: crate::model::SearchResult|
                materialized_from(backend, raw, res) && (output == OutputMode::Snippets ==> snippets_fit(
                    res,
                    context_lines,
                    *limits,
                )) && #[trigger] content_item_holds(
                    p,
                    res,
                    output,
                    context_lines,
                    snippet_mode,
                    *limits,
                    path_display,
                    line_endings,
                    include_match_text,
                ),
            Err(e) => (exists|m: crate::model::SearchMaterializationError|
                #[trigger] materialization_error_text(m) == e@ && materialization_failed(backend, raw, m)) || (output
                == OutputMode::Snippets && e@ == stale_ranges_text(raw.display_path@) && exists|
                res: crate::model::SearchResult,
            | #[trigger] materialized_from(backend, raw, res) && !snippets_fit(res, context_lines, *limits)),
        },
{
    if output == OutputMode::Paths {
        return shape_path_item(backend, raw, path_display);
    }
    let ghost raw_copy = raw;
    let display_path = raw.display_path.clone();
    let result = match crate::engine::materialize_raw_search_item(backend, raw) {
        Ok(res) => res,
        Err(e) => {
            let m = materialization_error_message(&e);
            assert(materialization_error_text(e) == m@);
            assert(materialization_failed(backend, raw_copy, e));
            return Err(m);
        },
    };
    assert(materialized_from(backend, raw_copy, result));
    if output == OutputMode::Snippets && !snippets_within_content(&result, context_lines, limits) {
        let mut out: Vec<char> = Vec::new();
        push_str(&mut out, "Match ranges of ");
        push_str(&mut out, display_path.as_str());
        push_str(&mut out, " lie outside its current content");
        return Err(string_from_chars(&out));
    }
    let built = build_item(
        backend,
        output,
        &result,
        context_lines,
        snippet_mode,
        limits,
        path_display,
        line_endings,
        include_match_text,
    );
    let (item, match_count) = match built {
        Ok(x) => x,
        Err(e) => {
            assert(false);
            return Err(e);
        },
    };
    let diagnostics = map_diagnostics(&result.diagnostics);
    let approx_bytes = estimate_search_item_bytes(&item);
    let path = result.path.clone();
    let p = PendingSearchItem { item, path, diagnostics, match_count, approx_bytes };
    assert(content_item_holds(
        p,
        result,
        output,
        context_lines,
        snippet_mode,
        *limits,
        path_display,
        line_endings,
        include_match_text,
    ));
    Ok(p)
}

// ---------------------------------------------------------------------------
// Page assembly
// ---------------------------------------------------------------------------

/// A shaped item waiting to be placed on a page.
#[derive(Debug)]
pub struct PendingSearchItem {
    pub item: SearchItem,
    pub path: String,
    pub diagnostics: Vec<crate::contracts::SearchDiagnostic>,
    pub match_count: usize,
    pub approx_bytes: usize,
}

/// The state of a page being filled.
#[derive(Debug)]
pub struct PageBuilder {
    pub results: Vec<SearchItem>,
    pub errors: Vec<ContractError>,
    pub diagnostics: Vec<crate::contracts::SearchDiagnostic>,
    pub truncated: bool,
    pub truncation_reason: Option<String>,
    pub returned_matches: usize,
    pub returned_bytes: usize,
}

/// A page respects its limits: at most `max_results` items, and over the
/// byte budget only when it holds a single item.
pub open spec fn page_within_limits(page: PageBuilder, limits: ResolvedLimits) -> bool {
    &&& page.results@.len() <= limits.max_results
    &&& (page.returned_bytes <= limits.max_total_bytes || page.results@.len() <= 1)
}

/// What happened to an offered item.
#[derive(Debug)]
pub enum OfferOutcome {
    /// The item was placed on the page.
    Accepted,
    /// The item would exceed the byte budget; it is handed back to be
    /// offered first on the next page.
    Deferred(PendingSearchItem),
}

/// The fields of a finished page.
#[derive(Debug)]
pub struct PageSummary {
    pub results: Vec<SearchItem>,
    pub errors: Vec<ContractError>,
    pub diagnostics: Vec<crate::contracts::SearchDiagnostic>,
    pub truncated: bool,
    pub truncation_reason: Option<String>,
    pub returned_matches: usize,
    pub returned_bytes: usize,
    pub next_offset: Option<usize>,
    pub continuation_token: Option<String>,
    pub status: SearchStatus,
}

/// The continuation token of an offset.
pub open spec fn continuation_token_spec(offset: usize) -> Seq<char> {
    "offset:"@ + crate::text::decimal(offset as nat)
}

impl PageBuilder {
    /// An empty page.
    pub fn new() -> (p: Self)
        ensures
            p.results@.len() == 0,
            p.errors@.len() == 0,
            p.diagnostics@.len() == 0,
            !p.truncated,
            p.truncation_reason is None,
            p.returned_matches == 0,
            p.returned_bytes == 0,
    {
        PageBuilder {
            results: Vec::new(),
            errors: Vec::new(),
            diagnostics: Vec::new(),
            truncated: false,
            truncation_reason: None,
            returned_matches: 0,
            returned_bytes: 0,
        }
    }

    /// True when the page holds `max_results` items.
    pub fn is_full(&self, limits: &ResolvedLimits) -> (b: bool)
        ensures
            b == (self.results@.len() >= limits.max_results),
    {
        self.results.len() >= limits.max_results
    }

    /// Closes a full page: it is truncated, for `max_results`, unless the
    /// source has nothing more to give.
    pub fn close_full(&mut self, source_finished: bool)
        ensures
            final(self).results == old(self).results,
            final(self).errors == old(self).errors,
            final(self).diagnostics == old(self).diagnostics,
            final(self).returned_matches == old(self).returned_matches,
            final(self).returned_bytes == old(self).returned_bytes,
            final(self).truncated == !source_finished,
            !source_finished ==> opt_view(final(self).truncation_reason) == Some("max_results"@),
            source_finished ==> final(self).truncation_reason == old(self).truncation_reason,
    {
        self.truncated = !source_finished;
        if self.truncated {
            self.truncation_reason = Some(owned("max_results"));
        }
    }

    /// Offers the next shaped item. It is accepted when the page is empty
    /// or its bytes still fit the total budget; otherwise the page is
    /// truncated for `max_total_bytes` and the item is handed back.
    pub fn offer(&mut self, entry: PendingSearchItem, limits: &ResolvedLimits) -> (o: OfferOutcome)
        requires
            old(self).results@.len() < limits.max_results,
            page_within_limits(*old(self), *limits),
            old(self).returned_matches + entry.match_count <= usize::MAX,
        ensures
            page_within_limits(*final(self), *limits),
            final(self).errors == old(self).errors,
            match o {
                OfferOutcome::Accepted => {
                    &&& (old(self).results@.len() == 0 || cap_add(old(self).returned_bytes, entry.approx_bytes)
                        <= limits.max_total_bytes)
                    &&& final(self).results@ == old(self).results@.push(entry.item)
                    &&& final(self).diagnostics@ == old(self).diagnostics@ + entry.diagnostics@
                    &&& final(self).returned_bytes == cap_add(old(self).returned_bytes, entry.approx_bytes)
                    &&& final(self).returned_matches == old(self).returned_matches + entry.match_count
                    &&& final(self).truncated == old(self).truncated
                    &&& final(self).truncation_reason == old(self).truncation_reason
                },
                OfferOutcome::Deferred(back) => {
                    &&& old(self).results@.len() > 0
                    &&& cap_add(old(self).returned_bytes, entry.approx_bytes) > limits.max_total_bytes
                    &&& back == entry
                    &&& final(self).results == old(self).results
                    &&& final(self).diagnostics == old(self).diagnostics
                    &&& final(self).returned_bytes == old(self).returned_bytes
                    &&& final(self).returned_matches == old(self).returned_matches
                    &&& final(self).truncated
                    &&& opt_view(final(self).truncation_reason) == Some("max_total_bytes"@)
                },
            },
    {
        let next_bytes = self.returned_bytes.saturating_add(entry.approx_bytes);
        if self.results.len() > 0 && next_bytes > limits.max_total_bytes {
            self.truncated = true;
            self.truncation_reason = Some(owned("max_total_bytes"));
            return OfferOutcome::Deferred(entry);
        }
        let PendingSearchItem { item, path: _, diagnostics, match_count, approx_bytes: _ } = entry;
        let mut diagnostics = diagnostics;
        self.returned_bytes = next_bytes;
        self.returned_matches = self.returned_matches + match_count;
        let ghost before = self.diagnostics@;
        self.diagnostics.append(&mut diagnostics);
        self.results.push(item);
        OfferOutcome::Accepted
    }

    /// Handles a per-file error while filling the page.
    pub fn record_error(&mut self, limits: &ResolvedLimits, error_mode: ErrorMode, err: String) -> (r: Result<
        (),
        String,
    >)
        ensures
            final(self).results == old(self).results,
            final(self).returned_bytes == old(self).returned_bytes,
            final(self).returned_matches == old(self).returned_matches,
            final(self).diagnostics == old(self).diagnostics,
            final(self).truncated == old(self).truncated,
            final(self).truncation_reason == old(self).truncation_reason,
            error_mode == ErrorMode::FailFast ==> (r matches Err(e) && e@ == err@) && final(self).errors@ == old(self).errors@,
            error_mode == ErrorMode::SkipErrors ==> r is Ok,
            error_mode == ErrorMode::SkipErrors && old(self).errors@.len() >= limits.max_errors ==> final(self).errors@
                == old(self).errors@,
            error_mode == ErrorMode::SkipErrors && old(self).errors@.len() < limits.max_errors ==> {
                &&& final(self).errors@.len() == old(self).errors@.len() + 1
                &&& final(self).errors@.drop_last() == old(self).errors@
                &&& final(self).errors@.last().code == ErrorCode::SearchExecution
                &&& final(self).errors@.last().message@ == err@
                &&& !final(self).errors@.last().remediation.retryable
                &&& opt_view(final(self).errors@.last().remediation.suggested_action) == Some(skip_error_suggestion())
            },
    {
        handle_error(&mut self.errors, limits, error_mode, err)
    }

    /// Finishes the page. A cancelled search truncates it (keeping an
    /// earlier reason); a truncated page that holds items, or whose source
    /// is not exhausted (`source_exhausted`: the engine has run dry and no
    /// item is held back), continues at `current_offset`.
    pub fn finish(self, cancelled: bool, source_exhausted: bool, current_offset: usize) -> (s: PageSummary)
        ensures
            s.results == self.results,
            s.errors == self.errors,
            s.diagnostics == self.diagnostics,
            s.returned_matches == self.returned_matches,
            s.returned_bytes == self.returned_bytes,
            s.truncated == (self.truncated || cancelled),
            cancelled && self.truncation_reason is None ==> opt_view(s.truncation_reason) == Some("cancelled"@),
            !(cancelled && self.truncation_reason is None) ==> s.truncation_reason == self.truncation_reason,
            s.next_offset == (if s.truncated && (!source_exhausted || s.results@.len() > 0) {
                Some(current_offset)
            } else {
                None
            }),
            match s.next_offset {
                Some(o) => opt_view(s.continuation_token) == Some(continuation_token_spec(o)),
                None => s.continuation_token is None,
            },
            s.status == derive_status_spec(s.results@, s.errors@.len(), s.truncated),
    {
        let truncated = self.truncated || cancelled;
        let truncation_reason = if cancelled && self.truncation_reason.is_none() {
            Some(owned("cancelled"))
        } else {
            self.truncation_reason
        };
        let next_offset = if truncated && (!source_exhausted || self.results.len() > 0) {
            Some(current_offset)
        } else {
            None
        };
        let continuation_token = match next_offset {
            Some(o) => {
                let mut out: Vec<char> = Vec::new();
                push_str(&mut out, "offset:");
                let digits = crate::text::u64_to_string(o as u64);
                push_str(&mut out, digits.as_str());
                Some(string_from_chars(&out))
            },
            None => None,
        };
        let status = derive_status(self.results.as_slice(), self.errors.as_slice(), truncated);
        PageSummary {
            results: self.results,
            errors: self.errors,
            diagnostics: self.diagnostics,
            truncated,
            truncation_reason,
            returned_matches: self.returned_matches,
            returned_bytes: self.returned_bytes,
            next_offset,
            continuation_token,
            status,
        }
    }
}

/// `a + b`, capped at `usize::MAX`.
pub open spec fn cap_add(a: usize, b: usize) -> usize {
    if a + b <= usize::MAX {
        (a + b) as usize
    } else {
        usize::MAX
    }
}

/// A page never holds more than `max_results` items, and goes over its byte
/// budget only with a single item, whatever sequence of offers fills it.
pub proof fn lemma_page_limits_kept(page: PageBuilder, limits: ResolvedLimits)
    requires
        page_within_limits(page, limits),
    ensures
        page.results@.len() <= limits.max_results,
        page.results@.len() >= 2 ==> page.returned_bytes <= limits.max_total_bytes,
{
}


// ---------------------------------------------------------------------------
// Text rendering of a response
// ---------------------------------------------------------------------------

/// Decimal text of a count.
pub open spec fn num(n: int) -> Seq<char> {
    crate::text::decimal(n as nat)
}

/// Decimal text of a count.
pub fn usize_text(n: usize) -> (s: String)
    ensures
        s@ == num(n as int),
{
    crate::text::u64_to_string(n as u64)
}

/// The fixed header lines of a response summary.
pub open spec fn search_text_head(r: crate::contracts::SearchResponse) -> Seq<Seq<char>> {
    let st = r.stats;
    seq![
        "Query: "@ + r.query@,
        "Effective query: "@ + r.effective_query@,
        "Root: "@ + r.root@,
        "Output: "@ + output_mode_label_spec(r.output),
        "Results: "@ + num(st.returned_files as int) + " files, "@ + num(st.returned_matches as int) + " matches, "@
            + num(st.returned_bytes as int) + " bytes"@,
        "Engine: "@ + num(st.candidate_files as int) + " candidates, "@ + num(st.prefiltered_files as int)
            + " prefiltered, "@ + num(st.evaluated_files as int) + " evaluated, "@ + num(st.matched_files as int)
            + " matched files"@,
        "Discovery buckets: hidden_skipped="@ + num(st.hidden_skipped as int) + " ignore_skipped="@ + num(
            st.ignore_skipped as int,
        ) + " max_depth_skipped="@ + num(st.max_depth_skipped as int) + " root_boundary_excluded="@ + num(
            st.root_boundary_excluded as int,
        ) + " unreadable_entries="@ + num(st.unreadable_entries as int),
        "Timing: walk="@ + num(st.walk_millis as int) + "ms prefilter="@ + num(st.prefilter_millis as int)
            + "ms evaluate="@ + num(st.evaluate_millis as int) + "ms materialize="@ + num(
            st.materialize_millis as int,
        ) + "ms"@,
    ]
}

/// The line on withheld content, when any was withheld.
pub open spec fn search_text_suppressed(r: crate::contracts::SearchResponse) -> Seq<Seq<char>> {
    let st = r.stats;
    if st.suppressed_too_large > 0 || st.suppressed_binary > 0 || st.suppressed_secret_like > 0 {
        seq![
            "Suppressed content: too_large="@ + num(st.suppressed_too_large as int) + " binary="@ + num(
                st.suppressed_binary as int,
            ) + " secret_like="@ + num(st.suppressed_secret_like as int),
        ]
    } else {
        Seq::empty()
    }
}

/// One hotspot as `path (count)`.
pub open spec fn hotspot_text(h: crate::contracts::DirectoryHotspot) -> Seq<char> {
    h.path@ + " ("@ + num(h.candidate_files as int) + ")"@
}

/// The line listing the first five hotspots, when there are any.
pub open spec fn search_text_hotspots(r: crate::contracts::SearchResponse) -> Seq<Seq<char>> {
    let hs = r.stats.directory_hotspots@;
    if hs.len() > 0 {
        let shown = hs.take(if hs.len() < 5 {
            hs.len() as int
        } else {
            5
        });
        seq![
            "Hotspots: "@ + crate::text::join_spec(
                shown.map_values(|h: crate::contracts::DirectoryHotspot| hotspot_text(h)),
                ", "@,
            ),
        ]
    } else {
        Seq::empty()
    }
}

/// The truncation, error and diagnostic count lines.
pub open spec fn search_text_status(r: crate::contracts::SearchResponse) -> Seq<Seq<char>> {
    (if r.truncated {
        seq![
            "Truncated: true ("@ + (match r.truncation_reason {
                Some(reason) => reason@,
                None => "unknown"@,
            }) + ")"@,
        ]
    } else {
        Seq::empty()
    }) + (if r.errors@.len() > 0 {
        seq!["Errors: "@ + num(r.errors@.len() as int)]
    } else {
        Seq::empty()
    }) + (if r.diagnostics@.len() > 0 {
        seq!["Diagnostics: "@ + num(r.diagnostics@.len() as int)]
    } else {
        Seq::empty()
    })
}

/// The lines listing the first ten result paths.
pub open spec fn search_text_results(r: crate::contracts::SearchResponse) -> Seq<Seq<char>> {
    let rs = r.results@;
    if rs.len() > 0 {
        let shown = rs.take(if rs.len() < 10 {
            rs.len() as int
        } else {
            10
        });
        seq!["Top results:"@] + shown.map_values(|item: SearchItem| "- "@ + item_path_spec(item)@) + (if rs.len()
            > 10 {
            seq!["... and "@ + num(rs.len() - 10) + " more"@]
        } else {
            Seq::empty()
        })
    } else {
        Seq::empty()
    }
}

/// All lines of a response summary.
pub open spec fn search_text_lines(r: crate::contracts::SearchResponse) -> Seq<Seq<char>> {
    search_text_head(r) + search_text_suppressed(r) + search_text_hotspots(r) + search_text_status(r)
        + search_text_results(r)
}

/// Appends `line` to `lines`.
fn push_line(lines: &mut Vec<String>, line: String)
    ensures
        views(final(lines)@) == views(old(lines)@).push(line@),
{
    let ghost before = lines@;
    lines.push(line);
    proof {
        crate::text::lemma_views_push(before, line);
    }
}

/// Appends every line of `more` to `lines`.
fn append_lines(lines: &mut Vec<String>, more: Vec<String>)
    ensures
        views(final(lines)@) == views(old(lines)@) + views(more@),
{
    let mut more = more;
    let ghost m = more@;
    lines.append(&mut more);
    assert(views(lines@) =~= views(old(lines)@) + views(m));
}

/// `a` followed by the decimal text of `n`.
fn with_num(out: &mut Vec<char>, label: &str, n: usize)
    ensures
        final(out)@ == old(out)@ + label@ + num(n as int),
{
    push_str(out, label);
    let t = usize_text(n);
    push_str(out, t.as_str());
}

/// `a` followed by the decimal text of `n`.
fn with_num64(out: &mut Vec<char>, label: &str, n: u64)
    ensures
        final(out)@ == old(out)@ + label@ + num(n as int),
{
    push_str(out, label);
    let t = crate::text::u64_to_string(n);
    push_str(out, t.as_str());
}

/// `label` followed by `value`.
fn labeled(label: &str, value: &str) -> (s: String)
    ensures
        s@ == label@ + value@,
{
    let mut out: Vec<char> = Vec::new();
    push_str(&mut out, label);
    push_str(&mut out, value);
    string_from_chars(&out)
}

/// The counts line of a response.
fn results_line(st: &crate::contracts::SearchStats) -> (s: String)
    ensures
        s@ == "Results: "@ + num(st.returned_files as int) + " files, "@ + num(st.returned_matches as int)
            + " matches, "@ + num(st.returned_bytes as int) + " bytes"@,
{
    let mut out: Vec<char> = Vec::new();
    with_num(&mut out, "Results: ", st.returned_files);
    with_num(&mut out, " files, ", st.returned_matches);
    with_num(&mut out, " matches, ", st.returned_bytes);
    push_str(&mut out, " bytes");
    string_from_chars(&out)
}

/// The engine line of a response.
fn engine_line(st: &crate::contracts::SearchStats) -> (s: String)
    ensures
        s@ == "Engine: "@ + num(st.candidate_files as int) + " candidates, "@ + num(st.prefiltered_files as int)
            + " prefiltered, "@ + num(st.evaluated_files as int) + " evaluated, "@ + num(st.matched_files as int)
            + " matched files"@,
{
    let mut out: Vec<char> = Vec::new();
    with_num(&mut out, "Engine: ", st.candidate_files);
    with_num(&mut out, " candidates, ", st.prefiltered_files);
    with_num(&mut out, " prefiltered, ", st.evaluated_files);
    with_num(&mut out, " evaluated, ", st.matched_files);
    push_str(&mut out, " matched files");
    string_from_chars(&out)
}

/// The discovery line of a response.
fn discovery_line(st: &crate::contracts::SearchStats) -> (s: String)
    ensures
        s@ == "Discovery buckets: hidden_skipped="@ + num(st.hidden_skipped as int) + " ignore_skipped="@ + num(
            st.ignore_skipped as int,
        ) + " max_depth_skipped="@ + num(st.max_depth_skipped as int) + " root_boundary_excluded="@ + num(
            st.root_boundary_excluded as int,
        ) + " unreadable_entries="@ + num(st.unreadable_entries as int),
{
    let mut out: Vec<char> = Vec::new();
    with_num(&mut out, "Discovery buckets: hidden_skipped=", st.hidden_skipped);
    with_num(&mut out, " ignore_skipped=", st.ignore_skipped);
    with_num(&mut out, " max_depth_skipped=", st.max_depth_skipped);
    with_num(&mut out, " root_boundary_excluded=", st.root_boundary_excluded);
    with_num(&mut out, " unreadable_entries=", st.unreadable_entries);
    string_from_chars(&out)
}

/// The timing line of a response.
fn timing_line(st: &crate::contracts::SearchStats) -> (s: String)
    ensures
        s@ == "Timing: walk="@ + num(st.walk_millis as int) + "ms prefilter="@ + num(st.prefilter_millis as int)
            + "ms evaluate="@ + num(st.evaluate_millis as int) + "ms materialize="@ + num(
            st.materialize_millis as int,
        ) + "ms"@,
{
    let mut out: Vec<char> = Vec::new();
    with_num64(&mut out, "Timing: walk=", st.walk_millis);
    with_num64(&mut out, "ms prefilter=", st.prefilter_millis);
    with_num64(&mut out, "ms evaluate=", st.evaluate_millis);
    with_num64(&mut out, "ms materialize=", st.materialize_millis);
    push_str(&mut out, "ms");
    string_from_chars(&out)
}

/// The header lines of a response summary.
fn search_head_lines(r: &crate::contracts::SearchResponse) -> (lines: Vec<String>)
    ensures
        views(lines@) == search_text_head(*r),
{
    let mut lines: Vec<String> = Vec::new();
    push_line(&mut lines, labeled("Query: ", r.query.as_str()));
    push_line(&mut lines, labeled("Effective query: ", r.effective_query.as_str()));
    push_line(&mut lines, labeled("Root: ", r.root.as_str()));
    push_line(&mut lines, labeled("Output: ", output_mode_label(r.output)));
    push_line(&mut lines, results_line(&r.stats));
    push_line(&mut lines, engine_line(&r.stats));
    push_line(&mut lines, discovery_line(&r.stats));
    push_line(&mut lines, timing_line(&r.stats));
    assert(views(lines@) =~= search_text_head(*r));
    lines
}

/// The withheld-content line of a response summary.
fn search_suppressed_lines(r: &crate::contracts::SearchResponse) -> (lines: Vec<String>)
    ensures
        views(lines@) == search_text_suppressed(*r),
{
    let st = &r.stats;
    let mut lines: Vec<String> = Vec::new();
    if st.suppressed_too_large > 0 || st.suppressed_binary > 0 || st.suppressed_secret_like > 0 {
        let mut out: Vec<char> = Vec::new();
        with_num(&mut out, "Suppressed content: too_large=", st.suppressed_too_large);
        with_num(&mut out, " binary=", st.suppressed_binary);
        with_num(&mut out, " secret_like=", st.suppressed_secret_like);
        push_line(&mut lines, string_from_chars(&out));
    }
    assert(views(lines@) =~= search_text_suppressed(*r));
    lines
}

/// The hotspot line of a response summary.
fn search_hotspot_lines(r: &crate::contracts::SearchResponse) -> (lines: Vec<String>)
    ensures
        views(lines@) == search_text_hotspots(*r),
{
    let hs = &r.stats.directory_hotspots;
    let mut lines: Vec<String> = Vec::new();
    if hs.len() > 0 {
        let shown = if hs.len() < 5 {
            hs.len()
        } else {
            5
        };
        let mut entries: Vec<String> = Vec::new();
        let mut k: usize = 0;
        while k < shown
            invariant
                k <= shown <= hs@.len(),
                views(entries@) == hs@.take(k as int).map_values(
                    |h: crate::contracts::DirectoryHotspot| hotspot_text(h),
                ),
            decreases shown - k,
        {
            let mut e: Vec<char> = Vec::new();
            push_str(&mut e, hs[k].path.as_str());
            with_num(&mut e, " (", hs[k].candidate_files);
            push_str(&mut e, ")");
            push_line(&mut entries, string_from_chars(&e));
            k = k + 1;
            assert(views(entries@) =~= hs@.take(k as int).map_values(
                |h: crate::contracts::DirectoryHotspot| hotspot_text(h),
            ));
        }
        let joined = crate::text::join_strings(&entries, ", ");
        push_line(&mut lines, labeled("Hotspots: ", joined.as_str()));
    }
    assert(views(lines@) =~= search_text_hotspots(*r));
    lines
}

/// The status lines of a response summary.
fn search_status_lines(r: &crate::contracts::SearchResponse) -> (lines: Vec<String>)
    ensures
        views(lines@) == search_text_status(*r),
{
    let mut lines: Vec<String> = Vec::new();
    if r.truncated {
        let mut out: Vec<char> = Vec::new();
        push_str(&mut out, "Truncated: true (");
        match &r.truncation_reason {
            Some(reason) => push_str(&mut out, reason.as_str()),
            None => push_str(&mut out, "unknown"),
        }
        push_str(&mut out, ")");
        push_line(&mut lines, string_from_chars(&out));
    }
    let ghost a = views(lines@);
    if r.errors.len() > 0 {
        let mut out: Vec<char> = Vec::new();
        with_num(&mut out, "Errors: ", r.errors.len());
        push_line(&mut lines, string_from_chars(&out));
    }
    let ghost b = views(lines@);
    if r.diagnostics.len() > 0 {
        let mut out: Vec<char> = Vec::new();
        with_num(&mut out, "Diagnostics: ", r.diagnostics.len());
        push_line(&mut lines, string_from_chars(&out));
    }
    assert(views(lines@) =~= search_text_status(*r));
    lines
}

/// The result lines of a response summary.
fn search_result_lines(r: &crate::contracts::SearchResponse) -> (lines: Vec<String>)
    ensures
        views(lines@) == search_text_results(*r),
{
    let mut lines: Vec<String> = Vec::new();
    let rs = &r.results;
    if rs.len() > 0 {
        push_line(&mut lines, owned("Top results:"));
        let shown = if rs.len() < 10 {
            rs.len()
        } else {
            10
        };
        let mut k: usize = 0;
        while k < shown
            invariant
                k <= shown <= rs@.len(),
                views(lines@) == seq!["Top results:"@] + rs@.take(k as int).map_values(
                    |item: SearchItem| "- "@ + item_path_spec(item)@,
                ),
            decreases shown - k,
        {
            push_line(&mut lines, labeled("- ", item_path(&rs[k])));
            k = k + 1;
            assert(views(lines@) =~= seq!["Top results:"@] + rs@.take(k as int).map_values(
                |item: SearchItem| "- "@ + item_path_spec(item)@,
            ));
        }
        if rs.len() > 10 {
            let mut out: Vec<char> = Vec::new();
            with_num(&mut out, "... and ", rs.len() - 10);
            push_str(&mut out, " more");
            push_line(&mut lines, string_from_chars(&out));
        }
    }
    assert(views(lines@) =~= search_text_results(*r));
    lines
}

/// Renders a short human-readable summary of a response.
pub fn format_search_text(response: &crate::contracts::SearchResponse) -> (s: String)
    ensures
        s@ == crate::text::join_spec(search_text_lines(*response), "\n"@),
{
    let mut lines = search_head_lines(response);
    append_lines(&mut lines, search_suppressed_lines(response));
    append_lines(&mut lines, search_hotspot_lines(response));
    append_lines(&mut lines, search_status_lines(response));
    append_lines(&mut lines, search_result_lines(response));
    crate::text::join_strings(&lines, "\n")
}


// ---------------------------------------------------------------------------
// Predicate catalog
// ---------------------------------------------------------------------------

/// The names of all predicates, sorted.
pub open spec fn catalog_names() -> Seq<Seq<char>> {
    seq![
        "call"@,
        "class"@,
        "comment"@,
        "component"@,
        "contains"@,
        "customhook"@,
        "def"@,
        "element"@,
        "enum"@,
        "ext"@,
        "func"@,
        "hook"@,
        "impl"@,
        "import"@,
        "in"@,
        "interface"@,
        "macro"@,
        "matches"@,
        "modified"@,
        "module"@,
        "name"@,
        "object"@,
        "path"@,
        "path_exact"@,
        "prop"@,
        "protocol"@,
        "size"@,
        "str"@,
        "struct"@,
        "trait"@,
        "type"@
    ]
}

/// The category of each predicate of [`catalog_names`], in the same order.
pub open spec fn catalog_categories() -> Seq<Seq<char>> {
    seq![
        "semantic"@,
        "semantic"@,
        "semantic"@,
        "semantic"@,
        "content"@,
        "semantic"@,
        "semantic"@,
        "semantic"@,
        "semantic"@,
        "metadata"@,
        "semantic"@,
        "semantic"@,
        "semantic"@,
        "semantic"@,
        "metadata"@,
        "semantic"@,
        "semantic"@,
        "content"@,
        "metadata"@,
        "semantic"@,
        "metadata"@,
        "semantic"@,
        "metadata"@,
        "metadata"@,
        "semantic"@,
        "semantic"@,
        "metadata"@,
        "semantic"@,
        "semantic"@,
        "semantic"@,
        "semantic"@
    ]
}

/// A catalog entry without aliases.
fn descriptor(name: &str, category: &str) -> (d: crate::contracts::PredicateDescriptor)
    ensures
        d.name@ == name@,
        d.category@ == category@,
        d.aliases@.len() == 0,
        d.deprecated_aliases@.len() == 0,
{
    crate::contracts::PredicateDescriptor {
        name: owned(name),
        category: owned(category),
        aliases: Vec::new(),
        deprecated_aliases: Vec::new(),
    }
}

/// A catalog entry with one alias and possibly one deprecated alias.
fn descriptor_with_aliases(name: &str, category: &str, alias: &str, deprecated: Option<&str>) -> (d:
    crate::contracts::PredicateDescriptor)
    ensures
        d.name@ == name@,
        d.category@ == category@,
        views(d.aliases@) == seq![alias@],
        views(d.deprecated_aliases@) == (match deprecated {
            Some(x) => seq![x@],
            None => Seq::<Seq<char>>::empty(),
        }),
{
    let aliases = vec![owned(alias)];
    let deprecated_aliases = match deprecated {
        Some(x) => vec![owned(x)],
        None => Vec::new(),
    };
    let d = crate::contracts::PredicateDescriptor {
        name: owned(name),
        category: owned(category),
        aliases,
        deprecated_aliases,
    };
    assert(views(d.aliases@) =~= seq![alias@]);
    assert(views(d.deprecated_aliases@) =~= (match deprecated {
        Some(x) => seq![x@],
        None => Seq::<Seq<char>>::empty(),
    }));
    d
}

/// Every predicate with its category and aliases, sorted by name: `contains`
/// (alias `c`, deprecated `content`) and `matches` (alias `m`) are content
/// predicates; `ext`, `name`, `path`, `path_exact`, `in`, `size` and
/// `modified` are metadata predicates; the rest are semantic.
pub fn predicate_catalog() -> (c: crate::contracts::PredicateCatalog)
    ensures
        c.schema_version@ == SCHEMA_VERSION@,
        c.predicates@.len() == catalog_names().len(),
        forall|i: int|
            0 <= i < c.predicates@.len() ==> #[trigger] c.predicates@[i].name@ == catalog_names()[i]
                && c.predicates@[i].category@ == catalog_categories()[i],
        forall|i: int|
            0 <= i < c.predicates@.len() && c.predicates@[i].name@ != "contains"@ && c.predicates@[i].name@
                != "matches"@ ==> #[trigger] c.predicates@[i].aliases@.len() == 0
                && c.predicates@[i].deprecated_aliases@.len() == 0,
        views(c.predicates@[4].aliases@) == seq!["c"@],
        views(c.predicates@[4].deprecated_aliases@) == seq!["content"@],
        views(c.predicates@[17].aliases@) == seq!["m"@],
        c.predicates@[17].deprecated_aliases@.len() == 0,
{
    let mut preds: Vec<crate::contracts::PredicateDescriptor> = Vec::new();
    preds.push(descriptor("call", "semantic"));
    preds.push(descriptor("class", "semantic"));
    preds.push(descriptor("comment", "semantic"));
    preds.push(descriptor("component", "semantic"));
    preds.push(descriptor_with_aliases("contains", "content", "c", Some("content")));
    preds.push(descriptor("customhook", "semantic"));
    preds.push(descriptor("def", "semantic"));
    preds.push(descriptor("element", "semantic"));
    preds.push(descriptor("enum", "semantic"));
    preds.push(descriptor("ext", "metadata"));
    preds.push(descriptor("func", "semantic"));
    preds.push(descriptor("hook", "semantic"));
    preds.push(descriptor("impl", "semantic"));
    preds.push(descriptor("import", "semantic"));
    preds.push(descriptor("in", "metadata"));
    preds.push(descriptor("interface", "semantic"));
    preds.push(descriptor("macro", "semantic"));
    let matches_entry = descriptor_with_aliases("matches", "content", "m", None);
    assert(matches_entry.deprecated_aliases@.len() == views(matches_entry.deprecated_aliases@).len());
    preds.push(matches_entry);
    preds.push(descriptor("modified", "metadata"));
    preds.push(descriptor("module", "semantic"));
    preds.push(descriptor("name", "metadata"));
    preds.push(descriptor("object", "semantic"));
    preds.push(descriptor("path", "metadata"));
    preds.push(descriptor("path_exact", "metadata"));
    preds.push(descriptor("prop", "semantic"));
    preds.push(descriptor("protocol", "semantic"));
    preds.push(descriptor("size", "metadata"));
    preds.push(descriptor("str", "semantic"));
    preds.push(descriptor("struct", "semantic"));
    preds.push(descriptor("trait", "semantic"));
    preds.push(descriptor("type", "semantic"));
    proof {
        reveal_strlit("contains");
        reveal_strlit("matches");
        reveal_strlit("call");
        reveal_strlit("class");
        reveal_strlit("comment");
        reveal_strlit("component");
        reveal_strlit("customhook");
        reveal_strlit("def");
        reveal_strlit("element");
        reveal_strlit("enum");
        reveal_strlit("ext");
        reveal_strlit("func");
        reveal_strlit("hook");
        reveal_strlit("impl");
        reveal_strlit("import");
        reveal_strlit("in");
        reveal_strlit("interface");
        reveal_strlit("macro");
        reveal_strlit("modified");
        reveal_strlit("module");
        reveal_strlit("name");
        reveal_strlit("object");
        reveal_strlit("path");
        reveal_strlit("path_exact");
        reveal_strlit("prop");
        reveal_strlit("protocol");
        reveal_strlit("size");
        reveal_strlit("str");
        reveal_strlit("struct");
        reveal_strlit("trait");
        reveal_strlit("type");
    }
    crate::contracts::PredicateCatalog { schema_version: owned(SCHEMA_VERSION), predicates: preds }
}


/// The query-language names of a profile's predicates.
pub open spec fn query_key_names(qs: Seq<(crate::profiles::PredicateKey, String)>) -> Seq<Seq<char>> {
    qs.map_values(|q: (crate::profiles::PredicateKey, String)| crate::profiles::key_name(q.0))
}

/// The capability entry of one catalog language: its identity, tier,
/// predicates (semantic ones sorted) and caveats.
pub open spec fn language_info_spec(info: crate::contracts::LanguageInfo, e: crate::profiles::CanonicalLanguageProfile) -> bool {
    &&& info.id@ == e.id@
    &&& info.name@ == e.profile.name@
    &&& views(info.extensions@) == views(e.profile.extensions@)
    &&& views(info.aliases@) == views(e.aliases@)
    &&& info.support_tier == crate::profiles::support_tier_spec(e.id@)
    &&& views(info.predicates.metadata@) == crate::docs::listed_metadata_keys()
    &&& views(info.predicates.content@) == crate::predicates::content_keys_spec()
    &&& views(info.predicates.semantic@) == crate::config::sort_unique(query_key_names(e.profile.queries@))
    &&& views(info.semantic_caveats@) == crate::profiles::caveats_spec(e.id@)
}

/// The capability entry of one catalog language.
pub fn language_info(e: &crate::profiles::CanonicalLanguageProfile) -> (info: crate::contracts::LanguageInfo)
    ensures
        language_info_spec(info, *e),
{
    let mut names: Vec<String> = Vec::new();
    let mut i: usize = 0;
    while i < e.profile.queries.len()
        invariant
            i <= e.profile.queries.len(),
            views(names@) == query_key_names(e.profile.queries@.take(i as int)),
        decreases e.profile.queries.len() - i,
    {
        let ghost before = names@;
        names.push(owned(e.profile.queries[i].0.as_str()));
        proof {
            crate::text::lemma_views_push(before, names@.last());
            assert(query_key_names(e.profile.queries@.take(i + 1)) =~= query_key_names(e.profile.queries@.take(i as int)).push(
                crate::profiles::key_name(e.profile.queries@[i as int].0),
            ));
        }
        i = i + 1;
    }
    assert(e.profile.queries@.take(i as int) =~= e.profile.queries@);
    let semantic = crate::config::sort_dedup(&names);
    let metadata = crate::predicates::strings(&vec!["ext", "name", "path", "in", "size", "modified"]);
    let content = crate::predicates::content_predicate_keys();
    proof {
        assert(views(metadata@) =~= crate::docs::listed_metadata_keys());
    }
    crate::contracts::LanguageInfo {
        id: e.id.clone(),
        name: e.profile.name.clone(),
        extensions: clone_strings(&e.profile.extensions),
        aliases: clone_strings(&e.aliases),
        support_tier: crate::profiles::support_tier_for_id(e.id.as_str()),
        predicates: crate::contracts::LanguagePredicates { metadata, content, semantic },
        semantic_caveats: crate::profiles::semantic_caveats_for_id(e.id.as_str()),
    }
}

/// The capability matrix of a catalog: one entry per language, in order.
pub open spec fn matrix_spec(m: crate::contracts::LanguageCapabilityMatrix, catalog: Seq<crate::profiles::CanonicalLanguageProfile>) -> bool {
    &&& m.schema_version@ == SCHEMA_VERSION@
    &&& m.capture_convention@ == "Language-profile queries that emit hunks must expose tree-sitter captures named @match."@
    &&& m.languages@.len() == catalog.len()
    &&& forall|i: int| 0 <= i < catalog.len() ==> language_info_spec(#[trigger] m.languages@[i], catalog[i])
}

/// The capability matrix of a catalog (see `matrix_spec`).
pub fn capability_matrix_for(catalog: &Vec<crate::profiles::CanonicalLanguageProfile>) -> (m: crate::contracts::LanguageCapabilityMatrix)
    ensures
        matrix_spec(m, catalog@),
{
    let mut languages: Vec<crate::contracts::LanguageInfo> = Vec::new();
    let mut i: usize = 0;
    while i < catalog.len()
        invariant
            i <= catalog.len(),
            languages@.len() == i,
            forall|j: int| 0 <= j < i ==> language_info_spec(#[trigger] languages@[j], catalog@[j]),
        decreases catalog.len() - i,
    {
        let info = language_info(&catalog[i]);
        languages.push(info);
        i = i + 1;
    }
    crate::contracts::LanguageCapabilityMatrix {
        schema_version: owned(SCHEMA_VERSION),
        capture_convention: owned("Language-profile queries that emit hunks must expose tree-sitter captures named @match."),
        languages,
    }
}

/// Matrix order: by display name, then by id.
pub open spec fn language_before(a: crate::contracts::LanguageInfo, b: crate::contracts::LanguageInfo) -> bool {
    crate::text::seq_lt(a.name@, b.name@) || (a.name@ == b.name@ && crate::text::seq_lt(a.id@, b.id@))
}

/// Some language of matrix `m` has id `id`.
pub open spec fn matrix_has_id(m: crate::contracts::LanguageCapabilityMatrix, id: Seq<char>) -> bool {
    exists|i: int| 0 <= i < m.languages@.len() && #[trigger] m.languages@[i].id@ == id
}

/// The capability matrix of the canonical language catalog: one entry per
/// built-in language, each id once, in catalog order.
pub fn language_capability_matrix() -> (m: crate::contracts::LanguageCapabilityMatrix)
    ensures
        exists|r: Seq<(String, crate::profiles::LanguageProfile)>, c: Seq<crate::profiles::CanonicalLanguageProfile>|
            #[trigger] crate::profiles::registry_like(r) && #[trigger] crate::profiles::catalog_of(r, c) && matrix_spec(
                m,
                c,
            ),
        forall|j: int|
            0 <= j < crate::profiles::builtin_canonical_ids().len() ==> matrix_has_id(
                m,
                #[trigger] crate::profiles::builtin_canonical_ids()[j].0,
            ),
        forall|i: int, j: int|
            0 <= i < j < m.languages@.len() ==> (#[trigger] m.languages@[i]).id@ != (#[trigger] m.languages@[j]).id@,
        forall|i: int, j: int|
            0 <= i < j < m.languages@.len() ==> language_before(#[trigger] m.languages@[i], #[trigger] m.languages@[j]),
{
    let catalog = crate::profiles::list_canonical_language_profiles();
    let m = capability_matrix_for(&catalog);
    proof {
        let r = choose|r: Seq<(String, crate::profiles::LanguageProfile)>|
            #[trigger] crate::profiles::registry_like(r) && crate::profiles::catalog_of(r, catalog@);
        assert(crate::profiles::registry_like(r) && crate::profiles::catalog_of(r, catalog@) && matrix_spec(m, catalog@));
        crate::profiles::lemma_builtin_catalog_complete(r, catalog@);
        assert forall|j: int| 0 <= j < crate::profiles::builtin_canonical_ids().len() implies matrix_has_id(
            m,
            #[trigger] crate::profiles::builtin_canonical_ids()[j].0,
        ) by {
            let id = crate::profiles::builtin_canonical_ids()[j].0;
            assert(crate::profiles::catalog_has_id(catalog@, id));
            let i = choose|i: int| 0 <= i < catalog@.len() && #[trigger] catalog@[i].id@ == id;
            assert(language_info_spec(m.languages@[i], catalog@[i]));
        }
        assert forall|i: int, j: int| 0 <= i < j < m.languages@.len() implies (#[trigger] m.languages@[i]).id@
            != (#[trigger] m.languages@[j]).id@ by {
            assert(language_info_spec(m.languages@[i], catalog@[i]));
            assert(language_info_spec(m.languages@[j], catalog@[j]));
        }
        assert forall|i: int, j: int| 0 <= i < j < m.languages@.len() implies language_before(
            #[trigger] m.languages@[i],
            #[trigger] m.languages@[j],
        ) by {
            assert(language_info_spec(m.languages@[i], catalog@[i]));
            assert(language_info_spec(m.languages@[j], catalog@[j]));
            assert(crate::profiles::catalog_before(catalog@[i], catalog@[j]));
        }
    }
    m
}

} // verus!

verus! {

/// The statistics of a page: what it returned, with the engine's counters.
pub open spec fn page_stats_holds(
    st: crate::contracts::SearchStats,
    summary: PageSummary,
    engine: crate::model::SearchStats,
    diagnostics_len: nat,
) -> bool {
    let counts = summarize_spec(summary.results@);
    &&& st.returned_files == summary.results@.len()
    &&& st.returned_matches == summary.returned_matches
    &&& st.returned_bytes == summary.returned_bytes
    &&& st.errors == summary.errors@.len()
    &&& st.whole_file_results == counts.0
    &&& st.ranged_results == counts.1
    &&& st.suppressed_too_large == counts.2
    &&& st.suppressed_binary == counts.3
    &&& st.suppressed_secret_like == counts.4
    &&& st.diagnostics == diagnostics_len
    &&& st.candidate_files == engine.candidate_files
    &&& st.prefiltered_files == engine.prefiltered_files
    &&& st.evaluated_files == engine.evaluated_files
    &&& st.matched_files == engine.matched_files
    &&& st.matched_ranges == engine.matched_ranges
    &&& st.hidden_skipped == engine.hidden_skipped
    &&& st.ignore_skipped == engine.ignore_skipped
    &&& st.max_depth_skipped == engine.max_depth_skipped
    &&& st.unreadable_entries == engine.unreadable_entries
    &&& st.root_boundary_excluded == engine.root_boundary_excluded
    &&& st.walk_millis == engine.walk_millis
    &&& st.prefilter_millis == engine.prefilter_millis
    &&& st.evaluate_millis == engine.evaluate_millis
    &&& st.materialize_millis == engine.materialize_millis
    &&& st.semantic_parse_failures == engine.semantic_parse_failures
    &&& st.semantic_budget_exhaustions == engine.semantic_budget_exhaustions
    &&& st.query_cache_hits == engine.query_cache_hits
    &&& st.query_cache_misses == engine.query_cache_misses
    &&& st.tree_cache_hits == engine.tree_cache_hits
    &&& st.tree_cache_misses == engine.tree_cache_misses
    &&& st.semaphore_wait_millis == engine.semaphore_wait_millis
    &&& st.semantic_parse_failures_by_language == engine.semantic_parse_failures_by_language
    &&& st.directory_hotspots == engine.directory_hotspots
}

/// The response for a finished page: the page's items, errors and
/// continuation, the engine's diagnostics not yet reported followed by the
/// page's own, and statistics that join the page's counts with the
/// engine's.
pub fn page_response(
    request: &SearchRequest,
    effective_query: &str,
    root: &str,
    output: OutputMode,
    limits: &ResolvedLimits,
    summary: PageSummary,
    engine_stats: crate::model::SearchStats,
    engine_diagnostics: Vec<crate::contracts::SearchDiagnostic>,
) -> (r: crate::contracts::SearchResponse)
    ensures
        r.schema_version@ == SCHEMA_VERSION@,
        r.schema_reference@ == "rdump://docs/sdk"@,
        r.status == summary.status,
        r.coordinate_semantics.line_numbers@ == "1-indexed lines"@,
        r.coordinate_semantics.columns@ == "0-indexed byte offsets within the line"@,
        r.coordinate_semantics.byte_ranges@ == "0-indexed byte offsets within the file"@,
        r.query@ == request.query@,
        r.effective_query@ == effective_query@,
        r.root@ == root@,
        r.output == output,
        r.error_mode == request.error_mode,
        r.results == summary.results,
        r.errors == summary.errors,
        r.diagnostics@ == engine_diagnostics@ + summary.diagnostics@,
        r.truncated == summary.truncated,
        r.truncation_reason == summary.truncation_reason,
        r.next_offset == summary.next_offset,
        r.continuation_token == summary.continuation_token,
        r.page_size == Some(limits.max_results),
        page_stats_holds(r.stats, summary, engine_stats, r.diagnostics@.len()),
{
    let ghost summary_copy = summary;
    let ghost engine_copy = engine_stats;
    let counts = summarize_results_for_stats(summary.results.as_slice());
    let mut diagnostics = engine_diagnostics;
    let mut page_diagnostics = summary.diagnostics;
    diagnostics.append(&mut page_diagnostics);
    let stats = crate::contracts::SearchStats {
        returned_files: summary.results.len(),
        returned_matches: summary.returned_matches,
        returned_bytes: summary.returned_bytes,
        errors: summary.errors.len(),
        whole_file_results: counts.0,
        ranged_results: counts.1,
        candidate_files: engine_stats.candidate_files,
        prefiltered_files: engine_stats.prefiltered_files,
        evaluated_files: engine_stats.evaluated_files,
        matched_files: engine_stats.matched_files,
        matched_ranges: engine_stats.matched_ranges,
        hidden_skipped: engine_stats.hidden_skipped,
        ignore_skipped: engine_stats.ignore_skipped,
        max_depth_skipped: engine_stats.max_depth_skipped,
        unreadable_entries: engine_stats.unreadable_entries,
        root_boundary_excluded: engine_stats.root_boundary_excluded,
        suppressed_too_large: counts.2,
        suppressed_binary: counts.3,
        suppressed_secret_like: counts.4,
        diagnostics: diagnostics.len(),
        walk_millis: engine_stats.walk_millis,
        prefilter_millis: engine_stats.prefilter_millis,
        evaluate_millis: engine_stats.evaluate_millis,
        materialize_millis: engine_stats.materialize_millis,
        semantic_parse_failures: engine_stats.semantic_parse_failures,
        semantic_budget_exhaustions: engine_stats.semantic_budget_exhaustions,
        query_cache_hits: engine_stats.query_cache_hits,
        query_cache_misses: engine_stats.query_cache_misses,
        tree_cache_hits: engine_stats.tree_cache_hits,
        tree_cache_misses: engine_stats.tree_cache_misses,
        semaphore_wait_millis: engine_stats.semaphore_wait_millis,
        semantic_parse_failures_by_language: engine_stats.semantic_parse_failures_by_language,
        directory_hotspots: engine_stats.directory_hotspots,
    };
    crate::contracts::SearchResponse {
        schema_version: owned(SCHEMA_VERSION),
        schema_reference: owned("rdump://docs/sdk"),
        status: summary.status,
        coordinate_semantics: coordinate_semantics(),
        query: request.query.clone(),
        effective_query: owned(effective_query),
        root: owned(root),
        output,
        error_mode: request.error_mode,
        results: summary.results,
        stats,
        diagnostics,
        errors: summary.errors,
        truncated: summary.truncated,
        truncation_reason: summary.truncation_reason,
        next_offset: summary.next_offset,
        continuation_token: summary.continuation_token,
        page_size: Some(limits.max_results),
    }
}

/// The paging state of a search request between pages: the request's
/// settings, an item held back from the last page, how many items were
/// handed out, how many of the engine's diagnostics were reported, and
/// whether the engine has run dry.
#[derive(Debug)]
pub struct SearchRequestPager {
    pub session_id: String,
    pub request: SearchRequest,
    pub output: OutputMode,
    pub limits: ResolvedLimits,
    pub context_lines: usize,
    pub root: String,
    pub effective_query: String,
    pub line_endings: LineEndingMode,
    pub pending: Option<PendingSearchItem>,
    pub current_offset: usize,
    pub reported_engine_diagnostics: usize,
    pub started: bool,
    pub finished: bool,
}

/// What a pager needs next.
#[derive(Debug)]
pub enum PagerPoll {
    /// The item held back from the last page.
    Pending(PendingSearchItem),
    /// Nothing is held back and the engine may have more: pull its next item.
    PullNext,
    /// The engine has run dry.
    Exhausted,
}

/// The matches counted by the shaped items among `outcomes`.
pub open spec fn outcome_matches(outcomes: Seq<Result<PendingSearchItem, String>>) -> nat
    decreases outcomes.len(),
{
    if outcomes.len() == 0 {
        0
    } else {
        (match outcomes[0] {
            Ok(e) => e.match_count as nat,
            Err(_) => 0,
        }) + outcome_matches(outcomes.drop_first())
    }
}

/// The items of the shaped outcomes among `outcomes`, in order.
pub open spec fn outcome_items(outcomes: Seq<Result<PendingSearchItem, String>>) -> Seq<SearchItem>
    decreases outcomes.len(),
{
    if outcomes.len() == 0 {
        Seq::empty()
    } else {
        outcome_items(outcomes.drop_last()) + match outcomes.last() {
            Ok(e) => seq![e.item],
            Err(_) => Seq::<SearchItem>::empty(),
        }
    }
}

/// The messages of the per-file errors among `outcomes`, in order.
pub open spec fn outcome_errors(outcomes: Seq<Result<PendingSearchItem, String>>) -> Seq<Seq<char>>
    decreases outcomes.len(),
{
    if outcomes.len() == 0 {
        Seq::empty()
    } else {
        outcome_errors(outcomes.drop_last()) + match outcomes.last() {
            Ok(_) => Seq::<Seq<char>>::empty(),
            Err(m) => seq![m@],
        }
    }
}

/// The messages of a list of errors.
pub open spec fn error_messages(errors: Seq<ContractError>) -> Seq<Seq<char>> {
    errors.map_values(|e: ContractError| e.message@)
}

/// The errors of two runs of outcomes are those of the first, then those
/// of the second.
proof fn lemma_outcome_errors_append(a: Seq<Result<PendingSearchItem, String>>, b: Seq<Result<PendingSearchItem, String>>)
    ensures
        outcome_errors(a + b) == outcome_errors(a) + outcome_errors(b),
    decreases b.len(),
{
    if b.len() == 0 {
        assert(a + b =~= a);
        assert(outcome_errors(a) + outcome_errors(b) =~= outcome_errors(a));
    } else {
        lemma_outcome_errors_append(a, b.drop_last());
        assert((a + b).drop_last() =~= a + b.drop_last());
        assert((a + b).last() == b.last());
        assert(outcome_errors(a + b) =~= outcome_errors(a) + outcome_errors(b));
    }
}

/// The item held back, as an outcome to be handed out first.
pub open spec fn pending_outcomes(pending: Option<PendingSearchItem>) -> Seq<Result<PendingSearchItem, String>> {
    match pending {
        Some(e) => seq![Ok(e)],
        None => Seq::empty(),
    }
}

/// The items of two runs of outcomes are those of the first, then those of
/// the second.
proof fn lemma_outcome_items_append(a: Seq<Result<PendingSearchItem, String>>, b: Seq<Result<PendingSearchItem, String>>)
    ensures
        outcome_items(a + b) == outcome_items(a) + outcome_items(b),
    decreases b.len(),
{
    if b.len() == 0 {
        assert(a + b =~= a);
        assert(outcome_items(a) + outcome_items(b) =~= outcome_items(a));
    } else {
        lemma_outcome_items_append(a, b.drop_last());
        assert((a + b).drop_last() =~= a + b.drop_last());
        assert((a + b).last() == b.last());
        assert(outcome_items(a + b) =~= outcome_items(a) + outcome_items(b));
    }
}

/// The matches counted by an item held back, if any.
pub open spec fn pending_matches(pending: Option<PendingSearchItem>) -> nat {
    match pending {
        Some(e) => e.match_count as nat,
        None => 0,
    }
}

impl SearchRequestPager {
    /// The pager of a request, before any item: snippets of two context
    /// lines from `.`, with line endings kept, unless the request says
    /// otherwise.
    pub fn new(request: SearchRequest, session_id: String, effective_query: String) -> (p: Self)
        ensures
            p.session_id == session_id,
            p.request == request,
            p.output == (match request.output {
                Some(o) => o,
                None => OutputMode::Snippets,
            }),
            p.limits == resolved_limits_spec(request.limits),
            p.context_lines == (match request.context_lines {
                Some(c) => c,
                None => DEFAULT_CONTEXT_LINES,
            }),
            p.root@ == (match request.root {
                Some(r) => r@,
                None => "."@,
            }),
            p.effective_query == effective_query,
            p.line_endings == (match request.line_endings {
                Some(l) => l,
                None => LineEndingMode::Preserve,
            }),
            p.pending is None,
            p.current_offset == 0,
            p.reported_engine_diagnostics == 0,
            !p.started,
            !p.finished,
    {
        let root = match &request.root {
            Some(r) => r.clone(),
            None => owned("."),
        };
        let output = match request.output {
            Some(o) => o,
            None => OutputMode::Snippets,
        };
        let limits = resolve_limits(request.limits);
        let context_lines = match request.context_lines {
            Some(c) => c,
            None => DEFAULT_CONTEXT_LINES,
        };
        let line_endings = match request.line_endings {
            Some(l) => l,
            None => LineEndingMode::Preserve,
        };
        SearchRequestPager {
            session_id,
            request,
            output,
            limits,
            context_lines,
            root,
            effective_query,
            line_endings,
            pending: None,
            current_offset: 0,
            reported_engine_diagnostics: 0,
            started: false,
            finished: false,
        }
    }

    /// The number of items handed out so far.
    pub fn current_offset(&self) -> (n: usize)
        ensures
            n == self.current_offset,
    {
        self.current_offset
    }

    /// True once the engine has run dry and no item is held back.
    pub fn is_finished(&self) -> (b: bool)
        ensures
            b == (self.finished && self.pending is None),
    {
        self.finished && self.pending.is_none()
    }

    /// Marks the start of paging; true the first time only (when start
    /// progress is due).
    pub fn begin(&mut self) -> (first: bool)
        ensures
            first == !old(self).started,
            final(self).started,
            final(self).pending == old(self).pending,
            final(self).current_offset == old(self).current_offset,
            final(self).finished == old(self).finished,
            final(self).reported_engine_diagnostics == old(self).reported_engine_diagnostics,
            final(self).request == old(self).request,
            final(self).limits == old(self).limits,
    {
        let first = !self.started;
        self.started = true;
        first
    }

    /// The next step of a poll: the held-back item first, else a pull from
    /// the engine unless it has run dry.
    pub fn poll(&mut self) -> (p: PagerPoll)
        ensures
            old(self).pending matches Some(item) ==> (p matches PagerPoll::Pending(x) && x == item),
            old(self).pending is None && old(self).finished ==> p is Exhausted,
            old(self).pending is None && !old(self).finished ==> p is PullNext,
            final(self).pending is None,
            final(self).current_offset == old(self).current_offset,
            final(self).finished == old(self).finished,
            final(self).started == old(self).started,
            final(self).reported_engine_diagnostics == old(self).reported_engine_diagnostics,
            final(self).request == old(self).request,
            final(self).limits == old(self).limits,
    {
        match self.pending.take() {
            Some(item) => PagerPoll::Pending(item),
            None => if self.finished {
                PagerPoll::Exhausted
            } else {
                PagerPoll::PullNext
            },
        }
    }

    /// Records that the engine has run dry.
    pub fn note_exhausted(&mut self)
        ensures
            final(self).finished,
            final(self).pending == old(self).pending,
            final(self).current_offset == old(self).current_offset,
            final(self).started == old(self).started,
            final(self).reported_engine_diagnostics == old(self).reported_engine_diagnostics,
            final(self).request == old(self).request,
            final(self).limits == old(self).limits,
    {
        self.finished = true;
    }

    /// Counts an item handed out (on a page, or skipped to reach the
    /// requested offset).
    pub fn note_handed_out(&mut self)
        requires
            old(self).current_offset < usize::MAX,
        ensures
            final(self).current_offset == old(self).current_offset + 1,
            final(self).pending == old(self).pending,
            final(self).finished == old(self).finished,
            final(self).started == old(self).started,
            final(self).reported_engine_diagnostics == old(self).reported_engine_diagnostics,
            final(self).request == old(self).request,
            final(self).limits == old(self).limits,
    {
        self.current_offset = self.current_offset + 1;
    }

    /// Holds an item back for the next page.
    pub fn hold_back(&mut self, item: PendingSearchItem)
        ensures
            final(self).pending == Some(item),
            final(self).current_offset == old(self).current_offset,
            final(self).finished == old(self).finished,
            final(self).started == old(self).started,
            final(self).reported_engine_diagnostics == old(self).reported_engine_diagnostics,
            final(self).request == old(self).request,
            final(self).limits == old(self).limits,
    {
        self.pending = Some(item);
    }

    /// The engine's diagnostics not yet reported, in contract form; they
    /// count as reported afterwards.
    pub fn take_engine_diagnostics(&mut self, all: &Vec<crate::content::SearchDiagnostic>) -> (fresh: Vec<
        crate::contracts::SearchDiagnostic,
    >)
        requires
            old(self).reported_engine_diagnostics <= all@.len(),
        ensures
            diagnostics_mapped(fresh@, all@.skip(old(self).reported_engine_diagnostics as int)),
            final(self).reported_engine_diagnostics == all@.len(),
            final(self).pending == old(self).pending,
            final(self).current_offset == old(self).current_offset,
            final(self).finished == old(self).finished,
            final(self).started == old(self).started,
            final(self).request == old(self).request,
            final(self).limits == old(self).limits,
    {
        let mut fresh: Vec<crate::contracts::SearchDiagnostic> = Vec::new();
        let start = self.reported_engine_diagnostics;
        let mut i: usize = start;
        while i < all.len()
            invariant
                start <= i <= all@.len(),
                fresh@.len() == i - start,
                forall|k: int| 0 <= k < i - start ==> diagnostic_mapped(#[trigger] fresh@[k], all@[start + k]),
            decreases all.len() - i,
        {
            fresh.push(map_diagnostic(&all[i]));
            i = i + 1;
        }
        self.reported_engine_diagnostics = all.len();
        fresh
    }

    /// Fills the next page from `source`, the outcomes that the engine
    /// yields next, in order: a shaped item or a per-file error each. The
    /// item held back from the last page comes first; an empty source means
    /// that the engine has run dry. The page closes when it holds
    /// `max_results` items, when the next item would exceed the byte budget
    /// (that item is held back), or when the source runs dry; a cancelled
    /// search truncates it. Under fail-fast the first error ends the page
    /// and is returned.
    ///
    /// Whatever the outcomes, a finished page keeps its bookkeeping: it
    /// holds at most `max_results` items and `max_errors` errors, the offset
    /// advances by the items it returns, it is truncated exactly when it
    /// gives a reason and exactly when its status says so, and it offers a
    /// continuation only when truncated, at the new offset.
    pub fn fill_page(&mut self, source: &mut VecDeque<Result<PendingSearchItem, String>>, cancelled: bool) -> (r: Result<
        PageSummary,
        String,
    >)
        requires
            old(self).current_offset + old(source)@.len() + 1 <= usize::MAX,
            pending_matches(old(self).pending) + outcome_matches(old(source)@) <= usize::MAX,
        ensures
            final(self).request == old(self).request,
            final(self).limits == old(self).limits,
            match r {
                Ok(s) => {
                    &&& s.results@.len() <= old(self).limits.max_results
                    &&& (s.results@.len() >= 2 ==> s.returned_bytes <= old(self).limits.max_total_bytes)
                    &&& s.errors@.len() <= old(self).limits.max_errors
                    &&& final(self).current_offset == old(self).current_offset + s.results@.len()
                    &&& (s.truncated <==> s.truncation_reason is Some)
                    &&& (s.truncated <==> s.status == SearchStatus::TruncatedSuccess)
                    &&& (!s.truncated && s.errors@.len() > 0 ==> s.status == SearchStatus::PartialSuccess)
                    &&& (s.next_offset is Some ==> s.truncated && s.next_offset == Some(final(self).current_offset))
                    &&& (match s.next_offset {
                        Some(o) => opt_view(s.continuation_token) == Some(continuation_token_spec(o)),
                        None => s.continuation_token is None,
                    })
                    &&& (cancelled ==> s.truncated)
                    &&& s.results@ == outcome_items(pending_outcomes(old(self).pending) + old(source)@).take(
                        s.results@.len() as int,
                    )
                    &&& error_messages(s.errors@) == outcome_errors(pending_outcomes(old(self).pending) + old(source)@).take(
                        s.errors@.len() as int,
                    )
                    &&& (forall|i: int| 0 <= i < s.errors@.len() ==> (#[trigger] s.errors@[i]).code == ErrorCode::SearchExecution)
                    &&& (old(self).request.error_mode == ErrorMode::FailFast ==> s.errors@.len() == 0)
                    &&& (!s.truncated ==> final(self).pending is None && final(self).finished && (!old(self).finished
                        ==> final(source)@.len() == 0 && s.results@ == outcome_items(
                        pending_outcomes(old(self).pending) + old(source)@,
                    )))
                    &&& (!cancelled && opt_view(s.truncation_reason) == Some("max_results"@) ==> s.results@.len()
                        == old(self).limits.max_results && (final(self).pending is Some || !final(self).finished))
                    &&& (!cancelled && opt_view(s.truncation_reason) == Some("max_total_bytes"@) ==> (final(self).pending matches Some(e) && s.results@.len() > 0 && cap_add(s.returned_bytes, e.approx_bytes)
                        > old(self).limits.max_total_bytes && outcome_items(
                        pending_outcomes(old(self).pending) + old(source)@,
                    ).take(s.results@.len() + 1int) == s.results@.push(e.item)))
                    &&& (s.truncated ==> opt_view(s.truncation_reason) == Some("max_results"@) || opt_view(
                        s.truncation_reason,
                    ) == Some("max_total_bytes"@) || (cancelled && opt_view(s.truncation_reason) == Some(
                        "cancelled"@,
                    )))
                    &&& s.next_offset == (if s.truncated && (!(final(self).finished && final(self).pending is None)
                        || s.results@.len() > 0) {
                        Some(final(self).current_offset)
                    } else {
                        None
                    })
                },
                Err(_) => old(self).request.error_mode == ErrorMode::FailFast,
            },
    {
        let ghost start_offset = self.current_offset;
        let ghost start_limits = self.limits;
        let ghost start_request = self.request;
        let ghost start_finished = self.finished;
        let ghost all_in = pending_outcomes(self.pending) + source@;
        let ghost mut consumed: Seq<Result<PendingSearchItem, String>> = Seq::empty();
        let mut page = PageBuilder::new();
        assert(all_in =~= consumed + pending_outcomes(self.pending) + source@);
        loop
            invariant_except_break
                !page.truncated,
                page.truncation_reason is None,
                self.current_offset + source@.len() + (if self.pending is Some { 1int } else { 0int }) <= usize::MAX,
                page.returned_matches + pending_matches(self.pending) + outcome_matches(source@) <= usize::MAX,
            invariant
                start_limits == old(self).limits,
                start_request == old(self).request,
                start_finished == old(self).finished,
                self.finished ==> start_finished || source@.len() == 0,
                self.limits == start_limits,
                self.request == start_request,
                page_within_limits(page, self.limits),
                page.errors@.len() <= self.limits.max_errors,
                self.current_offset == start_offset + page.results@.len(),
                all_in == consumed + pending_outcomes(self.pending) + source@,
                page.results@ == outcome_items(consumed),
                page.errors@.len() <= outcome_errors(consumed).len(),
                page.errors@.len() < self.limits.max_errors ==> page.errors@.len() == outcome_errors(consumed).len(),
                error_messages(page.errors@) == outcome_errors(consumed).take(page.errors@.len() as int),
                forall|i: int| 0 <= i < page.errors@.len() ==> (#[trigger] page.errors@[i]).code == ErrorCode::SearchExecution,
                self.request.error_mode == ErrorMode::FailFast ==> page.errors@.len() == 0,
            ensures
                all_in == consumed + pending_outcomes(self.pending) + source@,
                page.results@ == outcome_items(consumed),
                page.errors@.len() <= outcome_errors(consumed).len(),
                error_messages(page.errors@) == outcome_errors(consumed).take(page.errors@.len() as int),
                forall|i: int| 0 <= i < page.errors@.len() ==> (#[trigger] page.errors@[i]).code == ErrorCode::SearchExecution,
                self.request.error_mode == ErrorMode::FailFast ==> page.errors@.len() == 0,
                self.limits == start_limits,
                self.request == start_request,
                page_within_limits(page, self.limits),
                page.truncated <==> page.truncation_reason is Some,
                page.errors@.len() <= self.limits.max_errors,
                self.current_offset == start_offset + page.results@.len(),
                self.finished ==> start_finished || source@.len() == 0,
                !page.truncated ==> self.finished && self.pending is None,
                page.truncated ==> (opt_view(page.truncation_reason) == Some("max_results"@) && page.results@.len()
                    >= self.limits.max_results && !(self.finished && self.pending is None)) || (opt_view(
                    page.truncation_reason,
                ) == Some("max_total_bytes"@) && (self.pending matches Some(e) && page.results@.len() > 0 && cap_add(
                    page.returned_bytes,
                    e.approx_bytes,
                ) > self.limits.max_total_bytes)),
            decreases source@.len() + (if self.pending is Some { 1int } else { 0int }),
        {
            if page.is_full(&self.limits) {
                let finished = self.is_finished();
                page.close_full(finished);
                break;
            }
            let ghost before = source@;
            let ghost held = self.pending;
            let outcome = match self.poll() {
                PagerPoll::Pending(item) => Ok(item),
                PagerPoll::Exhausted => {
                    break;
                },
                PagerPoll::PullNext => match source.pop_front() {
                    Some(o) => {
                        assert(source@ =~= before.drop_first());
                        o
                    },
                    None => {
                        self.note_exhausted();
                        break;
                    },
                },
            };
            proof {
                assert(all_in =~= consumed + seq![outcome] + source@);
            }
            match outcome {
                Err(e) => {
                    let ghost out = Err::<PendingSearchItem, String>(e);
                    let ghost old_errors = page.errors@;
                    let handled = page.record_error(&self.limits, self.request.error_mode, e);
                    if let Err(m) = handled {
                        return Err(m);
                    }
                    proof {
                        assert(all_in =~= consumed.push(out) + pending_outcomes(self.pending) + source@);
                        assert(consumed.push(out).drop_last() =~= consumed);
                        assert(outcome_items(consumed.push(out)) =~= outcome_items(consumed));
                        let oe = outcome_errors(consumed);
                        assert(outcome_errors(consumed.push(out)) =~= oe.push(e@));
                        if page.errors@.len() > old_errors.len() {
                            assert(error_messages(page.errors@) =~= error_messages(old_errors).push(e@));
                            assert(oe.push(e@).take(page.errors@.len() as int) =~= oe.take(old_errors.len() as int).push(e@));
                            assert forall|i: int| 0 <= i < page.errors@.len() implies (#[trigger] page.errors@[i]).code
                                == ErrorCode::SearchExecution by {
                                if i < old_errors.len() {
                                    assert(page.errors@[i] == page.errors@.drop_last()[i]);
                                }
                            }
                        } else {
                            assert(oe.push(e@).take(page.errors@.len() as int) =~= oe.take(page.errors@.len() as int));
                        }
                        consumed = consumed.push(out);
                    }
                },
                Ok(entry) => {
                    let ghost out = Ok::<PendingSearchItem, String>(entry);
                    match page.offer(entry, &self.limits) {
                        OfferOutcome::Deferred(back) => {
                            self.hold_back(back);
                            assert(all_in =~= consumed + pending_outcomes(self.pending) + source@);
                            break;
                        },
                        OfferOutcome::Accepted => {
                            self.note_handed_out();
                            proof {
                                assert(all_in =~= consumed.push(out) + pending_outcomes(self.pending) + source@);
                                assert(consumed.push(out).drop_last() =~= consumed);
                                assert(outcome_items(consumed.push(out)) =~= outcome_items(consumed).push(entry.item));
                                assert(outcome_errors(consumed.push(out)) =~= outcome_errors(consumed));
                                consumed = consumed.push(out);
                            }
                        },
                    }
                },
            }
        }
        proof {
            reveal_strlit("max_results");
            reveal_strlit("max_total_bytes");
            assert("max_results"@ != "max_total_bytes"@) by {
                assert("max_results"@[4] != "max_total_bytes"@[4]);
            }
            if self.pending is Some {
                let e = self.pending->0;
                lemma_outcome_items_append(consumed.push(Ok(e)), source@);
                assert(consumed + pending_outcomes(self.pending) + source@ =~= consumed.push(Ok(e)) + source@);
                assert(consumed.push(Ok::<PendingSearchItem, String>(e)).drop_last() =~= consumed);
                assert(outcome_items(consumed.push(Ok(e))) =~= outcome_items(consumed).push(e.item));
                assert(outcome_items(all_in).take(page.results@.len() + 1int) =~= page.results@.push(e.item));
            }
            if !page.truncated {
                assert(all_in =~= consumed + pending_outcomes(self.pending) + source@);
                if !start_finished {
                    assert(all_in =~= consumed);
                }
            }
            lemma_outcome_items_append(consumed, pending_outcomes(self.pending) + source@);
            assert(all_in =~= consumed + (pending_outcomes(self.pending) + source@));
            assert(outcome_items(all_in).take(page.results@.len() as int) =~= outcome_items(consumed));
            lemma_outcome_errors_append(consumed, pending_outcomes(self.pending) + source@);
            assert(outcome_errors(all_in).take(page.errors@.len() as int) =~= outcome_errors(consumed).take(
                page.errors@.len() as int,
            ));
        }
        if cancelled {
            self.note_exhausted();
        }
        let exhausted = self.is_finished();
        Ok(page.finish(cancelled, exhausted, self.current_offset))
    }
}

/// What skipping to the requested offset does with an item's outcome: an
/// error stops it under fail-fast; otherwise the error is passed over and a
/// shaped item counts toward the offset.
pub fn skip_outcome(pager: &mut SearchRequestPager, outcome: Result<PendingSearchItem, String>) -> (r: Result<(), String>)
    requires
        old(pager).current_offset < usize::MAX,
    ensures
        match outcome {
            Ok(_) => r is Ok && final(pager).current_offset == old(pager).current_offset + 1,
            Err(e) => if old(pager).request.error_mode == ErrorMode::FailFast {
                r matches Err(m) && m == e && final(pager).current_offset == old(pager).current_offset
            } else {
                r is Ok && final(pager).current_offset == old(pager).current_offset
            },
        },
        final(pager).pending == old(pager).pending,
        final(pager).finished == old(pager).finished,
        final(pager).request == old(pager).request,
{
    match outcome {
        Ok(_) => {
            pager.note_handed_out();
            Ok(())
        },
        Err(e) => if pager.request.error_mode == ErrorMode::FailFast {
            Err(e)
        } else {
            Ok(())
        },
    }
}

} // verus!

verus! {

/// A phase of the search, as a progress event.
pub open spec fn phase_event(session_id: Seq<char>, name: Seq<char>, completed: usize, total: usize) -> (Seq<char>, Seq<char>, usize, Option<usize>) {
    (session_id, name, completed, Some(total))
}

/// The view of a phase progress event (none for other events).
pub open spec fn phase_view(e: crate::contracts::ProgressEvent) -> Option<(Seq<char>, Seq<char>, usize, Option<usize>)> {
    match e {
        crate::contracts::ProgressEvent::Phase { session_id, name, completed_items, total_items } => Some(
            (session_id@, name@, completed_items, total_items),
        ),
        _ => None,
    }
}

fn phase(session_id: &str, name: &str, completed_items: usize, total_items: usize) -> (e: crate::contracts::ProgressEvent)
    ensures
        phase_view(e) == Some(phase_event(session_id@, name@, completed_items, total_items)),
{
    crate::contracts::ProgressEvent::Phase {
        session_id: owned(session_id),
        name: owned(name),
        completed_items,
        total_items: Some(total_items),
    }
}

/// The progress of the engine's phases: discovery (all candidates),
/// pre-filter (of the candidates) and evaluation (of the files that passed
/// the pre-filter, or of those evaluated when more).
pub fn engine_phase_events(stats: &crate::model::SearchStats, session_id: &str) -> (v: Vec<crate::contracts::ProgressEvent>)
    ensures
        v@.len() == 3,
        phase_view(v@[0]) == Some(phase_event(session_id@, "discover"@, stats.candidate_files, stats.candidate_files)),
        phase_view(v@[1]) == Some(phase_event(session_id@, "prefilter"@, stats.prefiltered_files, stats.candidate_files)),
        phase_view(v@[2]) == Some(phase_event(
            session_id@,
            "evaluate"@,
            stats.evaluated_files,
            if stats.prefiltered_files >= stats.evaluated_files {
                stats.prefiltered_files
            } else {
                stats.evaluated_files
            },
        )),
{
    let mut v: Vec<crate::contracts::ProgressEvent> = Vec::new();
    v.push(phase(session_id, "discover", stats.candidate_files, stats.candidate_files));
    v.push(phase(session_id, "prefilter", stats.prefiltered_files, stats.candidate_files));
    let total = if stats.prefiltered_files >= stats.evaluated_files {
        stats.prefiltered_files
    } else {
        stats.evaluated_files
    };
    v.push(phase(session_id, "evaluate", stats.evaluated_files, total));
    v
}

/// The event that opens a session's progress.
pub fn start_event(pager: &SearchRequestPager) -> (e: crate::contracts::ProgressEvent)
    ensures
        match e {
            crate::contracts::ProgressEvent::Started { session_id, query, effective_query, root, queue_wait_millis } => {
                &&& session_id@ == pager.session_id@
                &&& query@ == pager.request.query@
                &&& effective_query@ == pager.effective_query@
                &&& root@ == pager.root@
                &&& queue_wait_millis == 0
            },
            _ => false,
        },
{
    crate::contracts::ProgressEvent::Started {
        session_id: owned(pager.session_id.as_str()),
        query: owned(pager.request.query.as_str()),
        effective_query: owned(pager.effective_query.as_str()),
        root: owned(pager.root.as_str()),
        queue_wait_millis: 0,
    }
}

/// Whether diagnostics are logged, from the setting's value: `1` or
/// `true` in any case.
pub fn diagnostic_logging_enabled(value: Option<&str>) -> (b: bool)
    ensures
        b == match value {
            Some(v) => v@ == "1"@ || crate::text::ascii_lower_seq(v@) == "true"@,
            None => false,
        },
{
    match value {
        Some(v) => {
            let one = str_eq(v, "1");
            proof {
                reveal_strlit("true");
                assert(crate::text::ascii_lower_seq("true"@) =~= "true"@);
            }
            one || crate::text::eq_ignore_ascii_case(v, "true")
        },
        None => false,
    }
}

/// The logged line of a diagnostic.
pub open spec fn diagnostic_log_text(level: Seq<char>, kind: Seq<char>, message: Seq<char>, path: Option<Seq<char>>) -> Seq<char> {
    "["@ + level + ":"@ + kind + "] "@ + message + match path {
        Some(p) => " ("@ + p + ")"@,
        None => Seq::empty(),
    }
}

fn log_line(level: &str, kind: &str, message: &str, path: &Option<String>) -> (s: String)
    ensures
        s@ == diagnostic_log_text(level@, kind@, message@, opt_view(*path)),
{
    let mut out: Vec<char> = Vec::new();
    push_str(&mut out, "[");
    push_str(&mut out, level);
    push_str(&mut out, ":");
    push_str(&mut out, kind);
    push_str(&mut out, "] ");
    push_str(&mut out, message);
    if let Some(p) = path {
        push_str(&mut out, " (");
        push_str(&mut out, p.as_str());
        push_str(&mut out, ")");
    }
    string_from_chars(&out)
}

/// The logged line of a library diagnostic: its level and kind in lower
/// case, its message, and its path in parentheses when it has one.
pub fn diagnostic_log_line(d: &crate::content::SearchDiagnostic) -> (s: String)
    ensures
        s@ == diagnostic_log_text(level_label(d.level), kind_label(d.kind), d.message@, opt_view(d.path)),
{
    log_line(level_text(d.level), kind_text(d.kind), d.message.as_str(), &d.path)
}

/// The logged line of a response diagnostic.
pub fn contract_diagnostic_log_line(d: &crate::contracts::SearchDiagnostic) -> (s: String)
    ensures
        s@ == diagnostic_log_text(d.level@, d.kind@, d.message@, opt_view(d.path)),
{
    log_line(d.level.as_str(), d.kind.as_str(), d.message.as_str(), &d.path)
}

} // verus!

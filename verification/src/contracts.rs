//! Machine-facing contract types shared by the SDK, the CLI and the MCP
//! server: requests, responses, limits, errors and reference documents.

use std::collections::BTreeMap;
use vstd::prelude::*;

verus! {

/// Version tag carried by every structured payload.
pub const SCHEMA_VERSION: &'static str = "rdump.v1";

/// The schema version tag as a string.
pub fn schema_version_string() -> (s: String)
    ensures
        s@ == "rdump.v1"@,
{
    SCHEMA_VERSION.to_owned()
}

/// Overall outcome of a search request.
#[derive(Debug, Clone, Copy, PartialEq, Eq, Structural)]
pub enum SearchStatus {
    FullSuccess,
    PartialSuccess,
    TruncatedSuccess,
    InvalidQuery,
    PolicySuppressed,
}

/// Semver stability promise of one public surface.
#[derive(Debug, Clone, Copy, PartialEq, Eq, Structural)]
pub enum StabilityTier {
    Stable,
    Provisional,
    Deprecated,
}

/// Stability record for one surface (cli, sdk, mcp).
#[derive(Debug, Clone, PartialEq, Eq)]
pub struct SurfaceStability {
    pub surface: String,
    pub tier: StabilityTier,
    pub semver_notes: String,
}

/// How complete the semantic support for a language is.
#[derive(Debug, Clone, Copy, PartialEq, Eq, Structural)]
pub enum LanguageSupportTier {
    Stable,
    Partial,
    Experimental,
}

/// Whether a result matched the whole file or specific ranges.
#[derive(Debug, Clone, Copy, PartialEq, Eq, Structural)]
pub enum ResultKind {
    WholeFile,
    Ranged,
}

/// Whether a path could be rewritten relative to the search root.
#[derive(Debug, Clone, Copy, PartialEq, Eq, Structural)]
pub enum PathResolution {
    Canonical,
    Fallback,
}

/// Path projections of one result file.
#[derive(Debug, Clone, PartialEq, Eq)]
pub struct FileIdentity {
    pub display_path: String,
    pub resolved_path: String,
    pub root_relative_path: Option<String>,
    pub resolution: PathResolution,
}

/// File metadata reported for path-only results.
#[derive(Debug, Clone, PartialEq, Eq)]
pub struct PathMetadata {
    pub size_bytes: u64,
    pub modified_unix_millis: Option<i64>,
    pub readonly: bool,
    pub permissions_display: String,
}

/// Why semantic evaluation was skipped for a file.
#[derive(Debug, Clone, Copy, PartialEq, Eq, Structural)]
pub enum SemanticSkipReason {
    UnsupportedLanguage,
    ParseFailed,
    ContentUnavailable,
    BudgetExhausted,
}

/// Documentation of the coordinate conventions used by match positions.
#[derive(Debug, Clone, PartialEq, Eq)]
pub struct MatchCoordinateSemantics {
    pub line_numbers: String,
    pub columns: String,
    pub byte_ranges: String,
}

/// Bundled operational defaults.
#[derive(Debug, Clone, Copy, PartialEq, Eq, Structural)]
pub enum ExecutionProfile {
    Interactive,
    Batch,
    Agent,
}

/// Shape of the items in a search response.
#[derive(Debug, Clone, Copy, PartialEq, Eq, Structural)]
pub enum OutputMode {
    Paths,
    Matches,
    Snippets,
    Full,
    Summary,
}

/// SQL dialect selection for `.sql` files.
#[derive(Debug, Clone, Copy, PartialEq, Eq, Structural)]
pub enum SqlDialectOption {
    Generic,
    Postgres,
    Mysql,
    Sqlite,
}

/// How per-file failures are handled.
#[derive(Debug, Clone, Copy, PartialEq, Eq, Structural)]
pub enum ErrorMode {
    SkipErrors,
    FailFast,
}

impl Default for ErrorMode {
    fn default() -> (r: Self)
        ensures
            r == ErrorMode::SkipErrors,
    {
        ErrorMode::SkipErrors
    }
}

/// Line-ending policy for snippets.
#[derive(Debug, Clone, Copy, PartialEq, Eq, Structural)]
pub enum SnippetMode {
    Normalized,
    PreserveLineEndings,
}

impl Default for SnippetMode {
    fn default() -> (r: Self)
        ensures
            r == SnippetMode::PreserveLineEndings,
    {
        SnippetMode::PreserveLineEndings
    }
}

/// Matching behavior for identifier-like semantic predicates.
#[derive(Debug, Clone, Copy, PartialEq, Eq, Structural)]
pub enum SemanticMatchMode {
    Exact,
    CaseInsensitive,
    Prefix,
    Regex,
    Wildcard,
}

impl Default for SemanticMatchMode {
    fn default() -> (r: Self)
        ensures
            r == SemanticMatchMode::Exact,
    {
        SemanticMatchMode::Exact
    }
}

/// One limit: left to the default, explicitly unlimited, or a value.
#[derive(Debug, Clone, Copy, PartialEq, Eq, Structural)]
pub enum LimitValue {
    Unset,
    Unlimited,
    Value(usize),
}

impl Default for LimitValue {
    fn default() -> (r: Self)
        ensures
            r == LimitValue::Unset,
    {
        LimitValue::Unset
    }
}

/// Caller-supplied output limits.
#[derive(Debug, Clone, Copy, PartialEq, Eq, Structural)]
pub struct Limits {
    pub max_results: LimitValue,
    pub max_matches_per_file: LimitValue,
    pub max_bytes_per_file: LimitValue,
    pub max_total_bytes: LimitValue,
    pub max_match_bytes: LimitValue,
    pub max_snippet_bytes: LimitValue,
    pub max_errors: LimitValue,
}

impl Default for Limits {
    fn default() -> (r: Self)
        ensures
            r.max_results == LimitValue::Unset,
            r.max_matches_per_file == LimitValue::Unset,
            r.max_bytes_per_file == LimitValue::Unset,
            r.max_total_bytes == LimitValue::Unset,
            r.max_match_bytes == LimitValue::Unset,
            r.max_snippet_bytes == LimitValue::Unset,
            r.max_errors == LimitValue::Unset,
    {
        Limits {
            max_results: LimitValue::Unset,
            max_matches_per_file: LimitValue::Unset,
            max_bytes_per_file: LimitValue::Unset,
            max_total_bytes: LimitValue::Unset,
            max_match_bytes: LimitValue::Unset,
            max_snippet_bytes: LimitValue::Unset,
            max_errors: LimitValue::Unset,
        }
    }
}

/// Which path projection is rendered for results.
#[derive(Debug, Clone, Copy, PartialEq, Eq, Structural)]
pub enum PathDisplayMode {
    Relative,
    Absolute,
    RootRelative,
}

/// Whether line endings in text are preserved or normalized to `\n`.
#[derive(Debug, Clone, Copy, PartialEq, Eq, Structural)]
pub enum LineEndingMode {
    Preserve,
    Normalize,
}

/// A structured search request.
#[derive(Debug, Clone, PartialEq, Eq)]
pub struct SearchRequest {
    pub query: String,
    pub root: Option<String>,
    pub presets: Vec<String>,
    pub no_ignore: bool,
    pub hidden: bool,
    pub max_depth: Option<usize>,
    pub sql_dialect: Option<SqlDialectOption>,
    pub sql_strict: bool,
    pub output: Option<OutputMode>,
    pub limits: Option<Limits>,
    pub context_lines: Option<usize>,
    pub error_mode: ErrorMode,
    pub execution_budget_ms: Option<u64>,
    pub semantic_budget_ms: Option<u64>,
    pub max_semantic_matches_per_file: Option<usize>,
    pub language_override: Option<String>,
    pub semantic_match_mode: SemanticMatchMode,
    pub snippet_mode: SnippetMode,
    pub semantic_strict: bool,
    pub strict_path_resolution: bool,
    pub execution_profile: Option<ExecutionProfile>,
    pub offset: usize,
    pub continuation_token: Option<String>,
    pub snapshot_drift_detection: bool,
    pub ignore_debug: bool,
    pub language_debug: bool,
    pub sql_trace: bool,
    pub path_display: Option<PathDisplayMode>,
    pub line_endings: Option<LineEndingMode>,
    pub include_match_text: bool,
}

impl Default for SearchRequest {
    fn default() -> (r: Self)
        ensures
            r.query@ == Seq::<char>::empty(),
            r.root is None,
            r.presets@.len() == 0,
            !r.no_ignore,
            !r.hidden,
            r.max_depth is None,
            r.sql_dialect is None,
            !r.sql_strict,
            r.output is None,
            r.limits is None,
            r.context_lines is None,
            r.error_mode == ErrorMode::SkipErrors,
            r.execution_budget_ms is None,
            r.semantic_budget_ms is None,
            r.max_semantic_matches_per_file is None,
            r.language_override is None,
            r.semantic_match_mode == SemanticMatchMode::Exact,
            r.snippet_mode == SnippetMode::PreserveLineEndings,
            !r.semantic_strict,
            !r.strict_path_resolution,
            r.execution_profile is None,
            r.offset == 0,
            r.continuation_token is None,
            !r.snapshot_drift_detection,
            !r.ignore_debug,
            !r.language_debug,
            !r.sql_trace,
            r.path_display is None,
            r.line_endings is None,
            !r.include_match_text,
    {
        SearchRequest {
            query: String::new(),
            root: None,
            presets: Vec::new(),
            no_ignore: false,
            hidden: false,
            max_depth: None,
            sql_dialect: None,
            sql_strict: false,
            output: None,
            limits: None,
            context_lines: None,
            error_mode: ErrorMode::SkipErrors,
            execution_budget_ms: None,
            semantic_budget_ms: None,
            max_semantic_matches_per_file: None,
            language_override: None,
            semantic_match_mode: SemanticMatchMode::Exact,
            snippet_mode: SnippetMode::PreserveLineEndings,
            semantic_strict: false,
            strict_path_resolution: false,
            execution_profile: None,
            offset: 0,
            continuation_token: None,
            snapshot_drift_detection: false,
            ignore_debug: false,
            language_debug: false,
            sql_trace: false,
            path_display: None,
            line_endings: None,
            include_match_text: false,
        }
    }
}

/// Machine-readable error category.
#[derive(Debug, Clone, Copy, PartialEq, Eq, Structural)]
pub enum ErrorCode {
    InvalidRequest,
    QuerySyntax,
    QueryValidation,
    Config,
    SearchExecution,
    SearchBudgetExceeded,
    SearchCancelled,
    AsyncJoin,
    UnsupportedLanguage,
    Internal,
}

/// Hints for recovering from an error.
#[derive(Debug, Clone, PartialEq, Eq)]
pub struct ErrorRemediation {
    pub retryable: bool,
    pub suggested_action: Option<String>,
    pub docs_uri: Option<String>,
}

/// A structured error.
#[derive(Debug, Clone, PartialEq, Eq)]
pub struct ContractError {
    pub code: ErrorCode,
    pub message: String,
    pub field: Option<String>,
    pub remediation: ErrorRemediation,
}

/// Number of candidate files under one top-level directory.
#[derive(Debug, Clone, PartialEq, Eq)]
pub struct DirectoryHotspot {
    pub path: String,
    pub candidate_files: usize,
}

/// Statistics of one response page.
#[derive(Debug, Clone, PartialEq, Eq)]
pub struct SearchStats {
    pub returned_files: usize,
    pub returned_matches: usize,
    pub returned_bytes: usize,
    pub errors: usize,
    pub whole_file_results: usize,
    pub ranged_results: usize,
    pub candidate_files: usize,
    pub prefiltered_files: usize,
    pub evaluated_files: usize,
    pub matched_files: usize,
    pub matched_ranges: usize,
    pub hidden_skipped: usize,
    pub ignore_skipped: usize,
    pub max_depth_skipped: usize,
    pub unreadable_entries: usize,
    pub root_boundary_excluded: usize,
    pub suppressed_too_large: usize,
    pub suppressed_binary: usize,
    pub suppressed_secret_like: usize,
    pub diagnostics: usize,
    pub walk_millis: u64,
    pub prefilter_millis: u64,
    pub evaluate_millis: u64,
    pub materialize_millis: u64,
    pub semantic_parse_failures: usize,
    pub semantic_budget_exhaustions: usize,
    pub query_cache_hits: usize,
    pub query_cache_misses: usize,
    pub tree_cache_hits: usize,
    pub tree_cache_misses: usize,
    pub semaphore_wait_millis: u64,
    pub semantic_parse_failures_by_language: BTreeMap<String, usize>,
    pub directory_hotspots: Vec<DirectoryHotspot>,
}

/// A diagnostic in a response.
#[derive(Debug, Clone, PartialEq, Eq)]
pub struct SearchDiagnostic {
    pub level: String,
    pub kind: String,
    pub message: String,
    pub path: Option<String>,
}

/// One page of search results.
#[derive(Debug, Clone, PartialEq, Eq)]
pub struct SearchResponse {
    pub schema_version: String,
    pub schema_reference: String,
    pub status: SearchStatus,
    pub coordinate_semantics: MatchCoordinateSemantics,
    pub query: String,
    pub effective_query: String,
    pub root: String,
    pub output: OutputMode,
    pub error_mode: ErrorMode,
    pub results: Vec<SearchItem>,
    pub stats: SearchStats,
    pub diagnostics: Vec<SearchDiagnostic>,
    pub errors: Vec<ContractError>,
    pub truncated: bool,
    pub truncation_reason: Option<String>,
    pub next_offset: Option<usize>,
    pub continuation_token: Option<String>,
    pub page_size: Option<usize>,
}

/// One result item, shaped by the requested output mode.
#[derive(Debug, Clone, PartialEq, Eq)]
pub enum SearchItem {
    Path {
        path: String,
        file: FileIdentity,
        fingerprint: String,
        metadata: PathMetadata,
        result_kind: ResultKind,
        item_truncated: bool,
    },
    Summary {
        path: String,
        file: FileIdentity,
        fingerprint: String,
        matches: usize,
        whole_file_match: bool,
        result_kind: ResultKind,
        matches_truncated: bool,
        content_state: Option<String>,
        diagnostic_count: usize,
        semantic_skip_reasons: Vec<SemanticSkipReason>,
        item_truncated: bool,
    },
    Matches {
        path: String,
        file: FileIdentity,
        fingerprint: String,
        matches: Vec<MatchInfo>,
        whole_file_match: bool,
        result_kind: ResultKind,
        matches_truncated: bool,
        content_state: Option<String>,
        diagnostic_count: usize,
        semantic_skip_reasons: Vec<SemanticSkipReason>,
        item_truncated: bool,
    },
    Snippets {
        path: String,
        file: FileIdentity,
        fingerprint: String,
        snippets: Vec<Snippet>,
        whole_file_match: bool,
        result_kind: ResultKind,
        matches_truncated: bool,
        content_state: Option<String>,
        diagnostic_count: usize,
        semantic_skip_reasons: Vec<SemanticSkipReason>,
        item_truncated: bool,
    },
    Full {
        path: String,
        file: FileIdentity,
        fingerprint: String,
        content: String,
        matches: Vec<MatchInfo>,
        content_truncated: bool,
        matches_truncated: bool,
        result_kind: ResultKind,
        content_state: Option<String>,
        diagnostic_count: usize,
        semantic_skip_reasons: Vec<SemanticSkipReason>,
        item_truncated: bool,
    },
}

/// One match in a response.
#[derive(Debug, Clone, PartialEq, Eq)]
pub struct MatchInfo {
    pub start_line: usize,
    pub end_line: usize,
    pub start_column: usize,
    pub end_column: usize,
    pub byte_range: [usize; 2],
    pub text: Option<String>,
    pub text_truncated: bool,
}

/// One context snippet in a response.
#[derive(Debug, Clone, PartialEq, Eq)]
pub struct Snippet {
    pub start_line: usize,
    pub end_line: usize,
    pub match_start_line: usize,
    pub match_end_line: usize,
    pub text: String,
    pub text_truncated: bool,
    pub line_ending: String,
}

/// Predicates available for one language.
#[derive(Debug, Clone, PartialEq, Eq)]
pub struct LanguagePredicates {
    pub metadata: Vec<String>,
    pub content: Vec<String>,
    pub semantic: Vec<String>,
}

/// Catalog entry for one language.
#[derive(Debug, Clone, PartialEq, Eq)]
pub struct LanguageInfo {
    pub id: String,
    pub name: String,
    pub extensions: Vec<String>,
    pub aliases: Vec<String>,
    pub support_tier: LanguageSupportTier,
    pub predicates: LanguagePredicates,
    pub semantic_caveats: Vec<String>,
}

/// Catalog entry for one predicate.
#[derive(Debug, Clone, PartialEq, Eq)]
pub struct PredicateDescriptor {
    pub name: String,
    pub category: String,
    pub aliases: Vec<String>,
    pub deprecated_aliases: Vec<String>,
}

/// All predicates with their categories and aliases.
#[derive(Debug, Clone, PartialEq, Eq)]
pub struct PredicateCatalog {
    pub schema_version: String,
    pub predicates: Vec<PredicateDescriptor>,
}

/// All languages with their semantic coverage.
#[derive(Debug, Clone, PartialEq, Eq)]
pub struct LanguageCapabilityMatrix {
    pub schema_version: String,
    pub capture_convention: String,
    pub languages: Vec<LanguageInfo>,
}

/// Reference card for the query language.
#[derive(Debug, Clone, PartialEq, Eq)]
pub struct RqlReference {
    pub schema_version: String,
    pub operators: Vec<String>,
    pub notes: Vec<String>,
    pub aliases: Vec<String>,
    pub deprecated_predicates: Vec<String>,
    pub metadata_predicates: Vec<String>,
    pub content_predicates: Vec<String>,
    pub semantic_predicates: Vec<String>,
    pub react_predicates: Vec<String>,
    pub examples: Vec<String>,
}

/// Documentation of one field.
#[derive(Debug, Clone, PartialEq, Eq)]
pub struct FieldDoc {
    pub name: String,
    pub description: String,
    pub default: String,
}

/// Documentation of one SDK function.
#[derive(Debug, Clone, PartialEq, Eq)]
pub struct FunctionDoc {
    pub name: String,
    pub signature: String,
    pub description: String,
}

/// Documentation of one SDK type.
#[derive(Debug, Clone, PartialEq, Eq)]
pub struct TypeDoc {
    pub name: String,
    pub description: String,
    pub fields: Vec<FieldDoc>,
}

/// Reference card for the SDK.
#[derive(Debug, Clone, PartialEq, Eq)]
pub struct SdkReference {
    pub schema_version: String,
    pub functions: Vec<FunctionDoc>,
    pub types: Vec<TypeDoc>,
    pub notes: Vec<String>,
}

/// Result of validating a query.
#[derive(Debug, Clone, PartialEq, Eq)]
pub struct ValidateQueryResponse {
    pub schema_version: String,
    pub valid: bool,
    pub normalized_query: Option<String>,
    pub warnings: Vec<String>,
    pub errors: Vec<ContractError>,
}

/// What the service supports and its defaults.
#[derive(Debug, Clone, PartialEq, Eq)]
pub struct CapabilityMetadata {
    pub schema_version: String,
    pub supported_outputs: Vec<OutputMode>,
    pub default_context_lines: usize,
    pub stability: Vec<SurfaceStability>,
    pub default_limits: Limits,
    pub coordinate_semantics: MatchCoordinateSemantics,
    pub execution_profiles: Vec<ExecutionProfile>,
}

/// An error with its schema version and status.
#[derive(Debug, Clone, PartialEq, Eq)]
pub struct ErrorEnvelope {
    pub schema_version: String,
    pub status: SearchStatus,
    pub error: ContractError,
}

/// Progress notification emitted while a page is produced.
#[derive(Debug, Clone, PartialEq, Eq)]
pub enum ProgressEvent {
    Started {
        session_id: String,
        query: String,
        effective_query: String,
        root: String,
        queue_wait_millis: u64,
    },
    Phase {
        session_id: String,
        name: String,
        completed_items: usize,
        total_items: Option<usize>,
    },
    Result {
        session_id: String,
        path: String,
        emitted_results: usize,
    },
    Finished {
        session_id: String,
        returned_files: usize,
        returned_matches: usize,
        truncated: bool,
    },
}

} // verus!

//! Library-facing search types: options and their builder, results, matches,
//! snapshots and reports.

use crate::content::{state_is_loaded, ContentState, DiagnosticKind, SearchDiagnostic};
use crate::contracts::{
    ErrorMode, ExecutionProfile, PathMetadata, SearchStatus, SemanticMatchMode, SnippetMode, SqlDialectOption,
};
use crate::text::{bool_text, chars_of, newline_index, owned, push_str, string_from_chars};
use std::collections::BTreeMap;
use std::ops::Range;
use vstd::prelude::*;

verus! {

/// SQL dialect used for `.sql` files.
#[derive(Debug, Clone, Copy, PartialEq, Eq, Structural)]
pub enum SqlDialect {
    Generic,
    Postgres,
    Mysql,
    Sqlite,
}

/// The profile key of a dialect.
pub open spec fn dialect_key(d: SqlDialect) -> Seq<char> {
    match d {
        SqlDialect::Generic => "sqlgeneric"@,
        SqlDialect::Postgres => "sqlpostgres"@,
        SqlDialect::Mysql => "sqlmysql"@,
        SqlDialect::Sqlite => "sqlsqlite"@,
    }
}

impl SqlDialect {
    /// The language-profile key of this dialect.
    pub fn key(&self) -> (k: &'static str)
        ensures
            k@ == dialect_key(*self),
    {
        match self {
            SqlDialect::Generic => "sqlgeneric",
            SqlDialect::Postgres => "sqlpostgres",
            SqlDialect::Mysql => "sqlmysql",
            SqlDialect::Sqlite => "sqlsqlite",
        }
    }
}

/// The dialect named by a contract option.
pub open spec fn dialect_of_option(v: SqlDialectOption) -> SqlDialect {
    match v {
        SqlDialectOption::Generic => SqlDialect::Generic,
        SqlDialectOption::Postgres => SqlDialect::Postgres,
        SqlDialectOption::Mysql => SqlDialect::Mysql,
        SqlDialectOption::Sqlite => SqlDialect::Sqlite,
    }
}

impl From<SqlDialectOption> for SqlDialect {
    fn from(value: SqlDialectOption) -> (r: Self) {
        match value {
            SqlDialectOption::Generic => SqlDialect::Generic,
            SqlDialectOption::Postgres => SqlDialect::Postgres,
            SqlDialectOption::Mysql => SqlDialect::Mysql,
            SqlDialectOption::Sqlite => SqlDialect::Sqlite,
        }
    }
}

impl vstd::std_specs::convert::FromSpecImpl<SqlDialectOption> for SqlDialect {
    open spec fn obeys_from_spec() -> bool {
        true
    }

    open spec fn from_spec(v: SqlDialectOption) -> Self {
        dialect_of_option(v)
    }
}

/// Options for one search.
#[derive(Debug, Clone)]
pub struct SearchOptions {
    /// Root directory to search from.
    pub root: String,
    /// Named presets to apply.
    pub presets: Vec<String>,
    /// If true, ignore files are not honored.
    pub no_ignore: bool,
    /// If true, hidden files and directories are searched.
    pub hidden: bool,
    /// Maximum directory depth.
    pub max_depth: Option<usize>,
    /// SQL dialect override for `.sql` files.
    pub sql_dialect: Option<SqlDialect>,
    /// Fail instead of falling back to generic SQL.
    pub sql_strict: bool,
    /// How per-file failures are handled.
    pub error_mode: ErrorMode,
    /// End-to-end time budget in milliseconds.
    pub execution_budget_ms: Option<u64>,
    /// Per-file semantic budget in milliseconds.
    pub semantic_budget_ms: Option<u64>,
    /// Maximum semantic captures kept per file.
    pub max_semantic_matches_per_file: Option<usize>,
    /// Language override for ambiguous files.
    pub language_override: Option<String>,
    /// Matching behavior of semantic predicates.
    pub semantic_match_mode: SemanticMatchMode,
    /// Snippet line-ending policy.
    pub snippet_mode: SnippetMode,
    /// Semantic parse failures become errors.
    pub semantic_strict: bool,
    /// Path canonicalization fallback becomes an error.
    pub strict_path_resolution: bool,
    /// Record snapshots and report drift.
    pub snapshot_drift_detection: bool,
    /// Bundled operational defaults.
    pub execution_profile: Option<ExecutionProfile>,
    /// Emit ignore diagnostics.
    pub ignore_debug: bool,
    /// Emit language-selection diagnostics.
    pub language_debug: bool,
    /// Emit SQL dialect traces.
    pub sql_trace: bool,
}

/// The default options: root `.`, ignore files honored, hidden files
/// skipped, snapshot drift detection on, everything else off or unset.
pub open spec fn default_options_spec(o: SearchOptions) -> bool {
    &&& o.root@ == "."@
    &&& o.presets@.len() == 0
    &&& !o.no_ignore
    &&& !o.hidden
    &&& o.max_depth is None
    &&& o.sql_dialect is None
    &&& !o.sql_strict
    &&& o.error_mode == ErrorMode::SkipErrors
    &&& o.execution_budget_ms is None
    &&& o.semantic_budget_ms is None
    &&& o.max_semantic_matches_per_file is None
    &&& o.language_override is None
    &&& o.semantic_match_mode == SemanticMatchMode::Exact
    &&& o.snippet_mode == SnippetMode::PreserveLineEndings
    &&& !o.semantic_strict
    &&& !o.strict_path_resolution
    &&& o.snapshot_drift_detection
    &&& o.execution_profile is None
    &&& !o.ignore_debug
    &&& !o.language_debug
    &&& !o.sql_trace
}

impl Default for SearchOptions {
    fn default() -> (o: Self)
        ensures
            default_options_spec(o),
    {
        SearchOptions {
            root: owned("."),
            presets: Vec::new(),
            no_ignore: false,
            hidden: false,
            max_depth: None,
            sql_dialect: None,
            sql_strict: false,
            error_mode: ErrorMode::SkipErrors,
            execution_budget_ms: None,
            semantic_budget_ms: None,
            max_semantic_matches_per_file: None,
            language_override: None,
            semantic_match_mode: SemanticMatchMode::Exact,
            snippet_mode: SnippetMode::PreserveLineEndings,
            semantic_strict: false,
            strict_path_resolution: false,
            snapshot_drift_detection: true,
            execution_profile: None,
            ignore_debug: false,
            language_debug: false,
            sql_trace: false,
        }
    }
}

/// Builder for [`SearchOptions`], starting from the defaults.
#[derive(Debug, Clone)]
pub struct SearchOptionsBuilder {
    pub options: SearchOptions,
}

impl SearchOptions {
    /// A builder holding the default options.
    pub fn builder() -> (b: SearchOptionsBuilder)
        ensures
            default_options_spec(b.options),
    {
        SearchOptionsBuilder { options: SearchOptions::default() }
    }
}

impl SearchOptionsBuilder {
    /// Sets the root directory.
    pub fn root(self, root: String) -> (r: Self)
        ensures
            r.options == (SearchOptions { root, ..self.options }),
    {
        let mut s = self;
        s.options.root = root;
        s
    }

    /// Sets the presets.
    pub fn presets(self, presets: Vec<String>) -> (r: Self)
        ensures
            r.options == (SearchOptions { presets, ..self.options }),
    {
        let mut s = self;
        s.options.presets = presets;
        s
    }

    /// Sets whether ignore files are disregarded.
    pub fn no_ignore(self, no_ignore: bool) -> (r: Self)
        ensures
            r.options == (SearchOptions { no_ignore, ..self.options }),
    {
        let mut s = self;
        s.options.no_ignore = no_ignore;
        s
    }

    /// Sets whether hidden files are searched.
    pub fn hidden(self, hidden: bool) -> (r: Self)
        ensures
            r.options == (SearchOptions { hidden, ..self.options }),
    {
        let mut s = self;
        s.options.hidden = hidden;
        s
    }

    /// Sets the maximum depth.
    pub fn max_depth(self, max_depth: Option<usize>) -> (r: Self)
        ensures
            r.options == (SearchOptions { max_depth, ..self.options }),
    {
        let mut s = self;
        s.options.max_depth = max_depth;
        s
    }

    /// Sets the SQL dialect override.
    pub fn sql_dialect(self, sql_dialect: Option<SqlDialect>) -> (r: Self)
        ensures
            r.options == (SearchOptions { sql_dialect, ..self.options }),
    {
        let mut s = self;
        s.options.sql_dialect = sql_dialect;
        s
    }

    /// Sets strict SQL mode.
    pub fn sql_strict(self, sql_strict: bool) -> (r: Self)
        ensures
            r.options == (SearchOptions { sql_strict, ..self.options }),
    {
        let mut s = self;
        s.options.sql_strict = sql_strict;
        s
    }

    /// Sets the error mode.
    pub fn error_mode(self, error_mode: ErrorMode) -> (r: Self)
        ensures
            r.options == (SearchOptions { error_mode, ..self.options }),
    {
        let mut s = self;
        s.options.error_mode = error_mode;
        s
    }

    /// Sets the execution budget.
    pub fn execution_budget_ms(self, execution_budget_ms: Option<u64>) -> (r: Self)
        ensures
            r.options == (SearchOptions { execution_budget_ms, ..self.options }),
    {
        let mut s = self;
        s.options.execution_budget_ms = execution_budget_ms;
        s
    }

    /// Sets the semantic budget.
    pub fn semantic_budget_ms(self, semantic_budget_ms: Option<u64>) -> (r: Self)
        ensures
            r.options == (SearchOptions { semantic_budget_ms, ..self.options }),
    {
        let mut s = self;
        s.options.semantic_budget_ms = semantic_budget_ms;
        s
    }

    /// Sets the per-file semantic match cap.
    pub fn max_semantic_matches_per_file(self, max_semantic_matches_per_file: Option<usize>) -> (r: Self)
        ensures
            r.options == (SearchOptions { max_semantic_matches_per_file, ..self.options }),
    {
        let mut s = self;
        s.options.max_semantic_matches_per_file = max_semantic_matches_per_file;
        s
    }

    /// Sets the language override.
    pub fn language_override(self, language_override: Option<String>) -> (r: Self)
        ensures
            r.options == (SearchOptions { language_override, ..self.options }),
    {
        let mut s = self;
        s.options.language_override = language_override;
        s
    }

    /// Sets the semantic match mode.
    pub fn semantic_match_mode(self, semantic_match_mode: SemanticMatchMode) -> (r: Self)
        ensures
            r.options == (SearchOptions { semantic_match_mode, ..self.options }),
    {
        let mut s = self;
        s.options.semantic_match_mode = semantic_match_mode;
        s
    }

    /// Sets the snippet mode.
    pub fn snippet_mode(self, snippet_mode: SnippetMode) -> (r: Self)
        ensures
            r.options == (SearchOptions { snippet_mode, ..self.options }),
    {
        let mut s = self;
        s.options.snippet_mode = snippet_mode;
        s
    }

    /// Sets strict semantic mode.
    pub fn semantic_strict(self, semantic_strict: bool) -> (r: Self)
        ensures
            r.options == (SearchOptions { semantic_strict, ..self.options }),
    {
        let mut s = self;
        s.options.semantic_strict = semantic_strict;
        s
    }

    /// Sets strict path resolution.
    pub fn strict_path_resolution(self, strict_path_resolution: bool) -> (r: Self)
        ensures
            r.options == (SearchOptions { strict_path_resolution, ..self.options }),
    {
        let mut s = self;
        s.options.strict_path_resolution = strict_path_resolution;
        s
    }

    /// Sets snapshot drift detection.
    pub fn snapshot_drift_detection(self, snapshot_drift_detection: bool) -> (r: Self)
        ensures
            r.options == (SearchOptions { snapshot_drift_detection, ..self.options }),
    {
        let mut s = self;
        s.options.snapshot_drift_detection = snapshot_drift_detection;
        s
    }

    /// Sets the execution profile.
    pub fn execution_profile(self, execution_profile: Option<ExecutionProfile>) -> (r: Self)
        ensures
            r.options == (SearchOptions { execution_profile, ..self.options }),
    {
        let mut s = self;
        s.options.execution_profile = execution_profile;
        s
    }

    /// Sets ignore diagnostics.
    pub fn ignore_debug(self, ignore_debug: bool) -> (r: Self)
        ensures
            r.options == (SearchOptions { ignore_debug, ..self.options }),
    {
        let mut s = self;
        s.options.ignore_debug = ignore_debug;
        s
    }

    /// Sets language diagnostics.
    pub fn language_debug(self, language_debug: bool) -> (r: Self)
        ensures
            r.options == (SearchOptions { language_debug, ..self.options }),
    {
        let mut s = self;
        s.options.language_debug = language_debug;
        s
    }

    /// Sets SQL traces.
    pub fn sql_trace(self, sql_trace: bool) -> (r: Self)
        ensures
            r.options == (SearchOptions { sql_trace, ..self.options }),
    {
        let mut s = self;
        s.options.sql_trace = sql_trace;
        s
    }

    /// The built options.
    pub fn build(self) -> (o: SearchOptions)
        ensures
            o == self.options,
    {
        self.options
    }
}

/// Whether a result matched the whole file or ranges in it.
#[derive(Debug, Clone, Copy, PartialEq, Eq, Structural, Hash)]
pub enum ResultKind {
    WholeFile,
    Ranged,
}

impl Default for ResultKind {
    fn default() -> (r: Self)
        ensures
            r == ResultKind::WholeFile,
    {
        ResultKind::WholeFile
    }
}

/// Whether a path could be rewritten relative to the root.
#[derive(Debug, Clone, Copy, PartialEq, Eq, Structural)]
pub enum PathResolution {
    Canonical,
    Fallback,
}

impl Default for PathResolution {
    fn default() -> (r: Self)
        ensures
            r == PathResolution::Canonical,
    {
        PathResolution::Canonical
    }
}

/// Path projections of a result.
#[derive(Debug, Clone, PartialEq, Eq)]
pub struct FileIdentity {
    pub display_path: String,
    pub resolved_path: String,
    pub root_relative_path: Option<String>,
    pub resolution: PathResolution,
}

impl Default for FileIdentity {
    fn default() -> (r: Self)
        ensures
            r.display_path@ == Seq::<char>::empty(),
            r.resolved_path@ == Seq::<char>::empty(),
            r.root_relative_path is None,
            r.resolution == PathResolution::Canonical,
    {
        FileIdentity {
            display_path: String::new(),
            resolved_path: String::new(),
            root_relative_path: None,
            resolution: PathResolution::Canonical,
        }
    }
}

/// Why semantic evaluation was skipped.
#[derive(Debug, Clone, Copy, PartialEq, Eq, Structural, Hash)]
pub enum SemanticSkipReason {
    UnsupportedLanguage,
    ParseFailed,
    ContentUnavailable,
    BudgetExhausted,
}

/// File metadata recorded during evaluation.
#[derive(Debug, Clone, PartialEq, Eq)]
pub struct FileSnapshot {
    pub len: u64,
    pub modified_unix_millis: Option<i64>,
    pub readonly: bool,
    pub permissions_display: String,
    pub stable_token: Option<String>,
    pub device_id: Option<u64>,
    pub inode: Option<u64>,
}

impl Default for FileSnapshot {
    fn default() -> (r: Self)
        ensures
            r.len == 0,
            r.modified_unix_millis is None,
            !r.readonly,
            r.permissions_display@ == Seq::<char>::empty(),
            r.stable_token is None,
            r.device_id is None,
            r.inode is None,
    {
        FileSnapshot {
            len: 0,
            modified_unix_millis: None,
            readonly: false,
            permissions_display: String::new(),
            stable_token: None,
            device_id: None,
            inode: None,
        }
    }
}

impl FileSnapshot {
    /// The snapshot of a file's metadata as a backend reported it.
    pub fn from_backend_metadata(metadata: &crate::backend::BackendMetadata) -> (s: FileSnapshot)
        ensures
            s.len == metadata.size_bytes,
            s.modified_unix_millis == metadata.modified_unix_millis,
            s.readonly == metadata.readonly,
            s.permissions_display@ == metadata.permissions_display@,
            crate::content::opt_view(s.stable_token) == crate::content::opt_view(metadata.stable_token),
            s.device_id == metadata.device_id,
            s.inode == metadata.inode,
    {
        let stable_token = match &metadata.stable_token {
            Some(t) => Some(t.clone()),
            None => None,
        };
        FileSnapshot {
            len: metadata.size_bytes,
            modified_unix_millis: metadata.modified_unix_millis,
            readonly: metadata.readonly,
            permissions_display: metadata.permissions_display.clone(),
            stable_token,
            device_id: metadata.device_id,
            inode: metadata.inode,
        }
    }

    /// The path metadata recorded in this snapshot.
    pub fn to_path_metadata(&self) -> (m: PathMetadata)
        ensures
            m.size_bytes == self.len,
            m.modified_unix_millis == self.modified_unix_millis,
            m.readonly == self.readonly,
            m.permissions_display@ == self.permissions_display@,
    {
        PathMetadata {
            size_bytes: self.len,
            modified_unix_millis: self.modified_unix_millis,
            readonly: self.readonly,
            permissions_display: self.permissions_display.clone(),
        }
    }
}

/// Machine-facing metadata of a result.
#[derive(Debug, Clone, PartialEq, Eq)]
pub struct SearchResultMetadata {
    pub file: FileIdentity,
    pub fingerprint: String,
    pub result_kind: ResultKind,
    pub semantic_skip_reasons: Vec<SemanticSkipReason>,
    pub snapshot: Option<FileSnapshot>,
    pub snapshot_drift: bool,
}

impl Default for SearchResultMetadata {
    fn default() -> (r: Self)
        ensures
            r.file.display_path@ == Seq::<char>::empty(),
            r.file.resolved_path@ == Seq::<char>::empty(),
            r.file.root_relative_path is None,
            r.file.resolution == PathResolution::Canonical,
            r.fingerprint@ == Seq::<char>::empty(),
            r.result_kind == ResultKind::WholeFile,
            r.semantic_skip_reasons@.len() == 0,
            r.snapshot is None,
            !r.snapshot_drift,
    {
        SearchResultMetadata {
            file: FileIdentity::default(),
            fingerprint: String::new(),
            result_kind: ResultKind::WholeFile,
            semantic_skip_reasons: Vec::new(),
            snapshot: None,
            snapshot_drift: false,
        }
    }
}

/// Why materializing a result failed.
#[derive(Debug, Clone, Copy, PartialEq, Eq, Structural)]
pub enum SearchMaterializationFailureKind {
    ContentReadFailed,
}

/// A per-file failure while loading a result's content.
#[derive(Debug, Clone, PartialEq, Eq)]
pub struct SearchMaterializationError {
    pub path: String,
    pub kind: SearchMaterializationFailureKind,
    pub snapshot_drift: bool,
    pub message: String,
}

impl SearchMaterializationError {
    /// The human-readable message of this error.
    pub fn to_message(&self) -> (s: String)
        ensures
            s@ == "Failed to materialize "@ + self.path@ + " (ContentReadFailed, snapshot_drift="@
                + crate::text::bool_spec(self.snapshot_drift) + "): "@ + self.message@,
    {
        let mut out: Vec<char> = Vec::new();
        push_str(&mut out, "Failed to materialize ");
        push_str(&mut out, self.path.as_str());
        push_str(&mut out, " (ContentReadFailed, snapshot_drift=");
        push_str(&mut out, bool_text(self.snapshot_drift));
        push_str(&mut out, "): ");
        push_str(&mut out, self.message.as_str());
        string_from_chars(&out)
    }
}

/// A single match within a file. Lines are 1-indexed; columns and byte
/// ranges are 0-indexed byte offsets.
#[derive(Debug, PartialEq, Eq)]
pub struct Match {
    pub start_line: usize,
    pub end_line: usize,
    pub start_column: usize,
    pub end_column: usize,
    pub byte_range: Range<usize>,
    pub text: String,
}

/// The first line of a text, without its line ending (what
/// `str::lines().next()` yields, or empty).
pub open spec fn first_line_spec(s: Seq<char>) -> Seq<char> {
    let k = newline_index(s, 0);
    if k < s.len() && k > 0 && s[k - 1] == '\r' {
        s.take(k - 1)
    } else {
        s.take(k)
    }
}

impl Clone for Match {
    fn clone(&self) -> (r: Self)
        ensures
            r.start_line == self.start_line,
            r.end_line == self.end_line,
            r.start_column == self.start_column,
            r.end_column == self.end_column,
            r.byte_range == self.byte_range,
            r.text@ == self.text@,
    {
        Match {
            start_line: self.start_line,
            end_line: self.end_line,
            start_column: self.start_column,
            end_column: self.end_column,
            byte_range: Range { start: self.byte_range.start, end: self.byte_range.end },
            text: self.text.clone(),
        }
    }
}

impl Match {
    /// Number of lines spanned, inclusive.
    pub fn line_count(&self) -> (n: usize)
        requires
            self.end_line - self.start_line < usize::MAX,
        ensures
            n == (if self.end_line >= self.start_line { self.end_line - self.start_line } else { 0 }) + 1,
    {
        let span = if self.end_line >= self.start_line {
            self.end_line - self.start_line
        } else {
            0
        };
        span + 1
    }

    /// True when the match spans more than one line.
    pub fn is_multiline(&self) -> (b: bool)
        ensures
            b == (self.start_line != self.end_line),
    {
        self.start_line != self.end_line
    }

    /// Length in bytes of the byte range.
    pub fn byte_len(&self) -> (n: usize)
        ensures
            n == (if self.byte_range.end >= self.byte_range.start {
                self.byte_range.end - self.byte_range.start
            } else {
                0
            }),
    {
        if self.byte_range.end >= self.byte_range.start {
            self.byte_range.end - self.byte_range.start
        } else {
            0
        }
    }

    /// The first line of the matched text, or empty.
    pub fn first_line(&self) -> (s: String)
        ensures
            s@ == first_line_spec(self.text@),
    {
        first_line_text(self.text.as_str())
    }
}

/// The first line of a text, without its line ending, or empty.
pub fn first_line_text(text: &str) -> (s: String)
    ensures
        s@ == first_line_spec(text@),
{
    let cs = chars_of(text);
    let mut k: usize = 0;
    while k < cs.len() && cs[k] != '\n'
        invariant
            k <= cs.len(),
            cs@ == text@,
            forall|j: int| 0 <= j < k ==> cs@[j] != '\n',
        decreases cs.len() - k,
    {
        k = k + 1;
    }
    proof {
        crate::text::lemma_newline_index(cs@, 0, k as int);
    }
    let end = if k < cs.len() && k > 0 && cs[k - 1] == '\r' {
        k - 1
    } else {
        k
    };
    crate::text::slice_chars(&cs, 0, end)
}

/// A file that matched a query.
#[derive(Debug, Clone)]
pub struct SearchResult {
    /// Path to the matched file.
    pub path: String,
    /// Matches within this file (empty for whole-file matches).
    pub matches: Vec<Match>,
    /// File content.
    pub content: String,
    /// How the content was produced.
    pub content_state: ContentState,
    /// Warnings collected for this file.
    pub diagnostics: Vec<SearchDiagnostic>,
    /// Path identity, match semantics and snapshot context.
    pub metadata: SearchResultMetadata,
}

/// Some match of `matches` covers line `l`.
pub open spec fn line_is_matched(matches: Seq<Match>, l: int) -> bool {
    exists|i: int| #![trigger matches[i]] 0 <= i < matches.len() && matches[i].start_line <= l <= matches[i].end_line
}

/// Strictly increasing sequence.
pub open spec fn strictly_increasing(s: Seq<usize>) -> bool {
    forall|i: int, j: int| 0 <= i < j < s.len() ==> s[i] < s[j]
}

/// Inserts `x` into a strictly increasing vector, keeping it strictly
/// increasing and adding exactly `x` to its elements.
fn insert_sorted_unique(v: &mut Vec<usize>, x: usize)
    requires
        strictly_increasing(old(v)@),
    ensures
        strictly_increasing(final(v)@),
        forall|y: usize| final(v)@.contains(y) <==> (old(v)@.contains(y) || y == x),
{
    let mut i: usize = 0;
    while i < v.len() && v[i] < x
        invariant
            i <= v.len(),
            v@ == old(v)@,
            strictly_increasing(v@),
            forall|j: int| 0 <= j < i ==> v@[j] < x,
        decreases v.len() - i,
    {
        i = i + 1;
    }
    if i < v.len() && v[i] == x {
        assert(old(v)@[i as int] == x);
        return;
    }
    let ghost before = v@;
    v.insert(i, x);
    assert forall|a: int, b: int| 0 <= a < b < v@.len() implies v@[a] < v@[b] by {
        if a < i && b == i {
        } else if a < i && b > i {
            assert(before[a] < before[b - 1]);
        } else if a == i && b > i {
            assert(before[i as int] <= before[b - 1]);
        } else if a > i {
            assert(before[a - 1] < before[b - 1]);
        } else {
            assert(before[a] < before[b]);
        }
    }
    assert forall|y: usize| v@.contains(y) <==> (before.contains(y) || y == x) by {
        if v@.contains(y) {
            let k = choose|k: int| 0 <= k < v@.len() && v@[k] == y;
            if k < i {
                assert(before[k] == y);
            } else if k > i {
                assert(before[k - 1] == y);
            }
        }
        if before.contains(y) {
            let k = choose|k: int| 0 <= k < before.len() && before[k] == y;
            if k < i {
                assert(v@[k] == y);
            } else {
                assert(v@[k + 1] == y);
            }
        }
        if y == x {
            assert(v@[i as int] == x);
        }
    }
}

impl SearchResult {
    /// True when the result has no ranged matches.
    pub fn is_whole_file_match(&self) -> (b: bool)
        ensures
            b == (self.matches@.len() == 0),
    {
        self.matches.len() == 0
    }

    /// All matched line numbers, sorted and without duplicates.
    pub fn matched_lines(&self) -> (lines: Vec<usize>)
        ensures
            strictly_increasing(lines@),
            forall|l: usize| lines@.contains(l) <==> line_is_matched(self.matches@, l as int),
    {
        let mut lines: Vec<usize> = Vec::new();
        let mut i: usize = 0;
        while i < self.matches.len()
            invariant
                i <= self.matches.len(),
                strictly_increasing(lines@),
                forall|l: usize| lines@.contains(l) <==> line_is_matched(self.matches@.take(i as int), l as int),
            decreases self.matches.len() - i,
        {
            let m = &self.matches[i];
            let ghost prev = self.matches@.take(i as int);
            let ghost next = self.matches@.take(i + 1);
            assert(next =~= prev.push(*m));
            if m.start_line <= m.end_line {
                let mut line = m.start_line;
                loop
                    invariant_except_break
                        m.start_line <= line <= m.end_line,
                        forall|l: usize| lines@.contains(l) <==> (line_is_matched(prev, l as int) || (m.start_line
                            <= l < line)),
                    invariant
                        strictly_increasing(lines@),
                    ensures
                        forall|l: usize| lines@.contains(l) <==> (line_is_matched(prev, l as int) || (m.start_line
                            <= l <= m.end_line)),
                    decreases m.end_line - line,
                {
                    insert_sorted_unique(&mut lines, line);
                    if line == m.end_line {
                        break;
                    }
                    line = line + 1;
                }
                assert forall|l: usize| lines@.contains(l) <==> line_is_matched(next, l as int) by {
                    if line_is_matched(next, l as int) {
                        let k = choose|k: int| #![trigger next[k]] 0 <= k < next.len() && next[k].start_line <= l <= next[k].end_line;
                        if k < prev.len() {
                            assert(prev[k] == next[k]);
                        }
                    }
                    if line_is_matched(prev, l as int) {
                        let k = choose|k: int| #![trigger prev[k]] 0 <= k < prev.len() && prev[k].start_line <= l <= prev[k].end_line;
                        assert(next[k] == prev[k]);
                    }
                    if m.start_line <= l <= m.end_line {
                        assert(next[i as int] == *m);
                    }
                }
            } else {
                assert forall|l: usize| lines@.contains(l) <==> line_is_matched(next, l as int) by {
                    if line_is_matched(next, l as int) {
                        let k = choose|k: int| #![trigger next[k]] 0 <= k < next.len() && next[k].start_line <= l <= next[k].end_line;
                        if k < prev.len() {
                            assert(prev[k] == next[k]);
                        }
                    }
                    if line_is_matched(prev, l as int) {
                        let k = choose|k: int| #![trigger prev[k]] 0 <= k < prev.len() && prev[k].start_line <= l <= prev[k].end_line;
                        assert(next[k] == prev[k]);
                    }
                }
            }
            i = i + 1;
        }
        assert(self.matches@.take(i as int) =~= self.matches@);
        lines
    }

    /// Number of matches.
    pub fn match_count(&self) -> (n: usize)
        ensures
            n == self.matches@.len(),
    {
        self.matches.len()
    }

    /// Number of distinct matched lines.
    pub fn total_lines_matched(&self) -> (n: usize)
        ensures
            n == Set::new(|l: usize| line_is_matched(self.matches@, l as int)).len(),
    {
        let lines = self.matched_lines();
        proof {
            lemma_strict_seq_set_len(lines@);
            assert(lines@.to_set() =~= Set::new(|l: usize| line_is_matched(self.matches@, l as int)));
        }
        lines.len()
    }

    /// True when the content holds user-visible text.
    pub fn content_available(&self) -> (b: bool)
        ensures
            b == state_is_loaded(self.content_state),
    {
        self.content_state.is_loaded()
    }

    /// The result kind.
    pub fn result_kind(&self) -> (k: ResultKind)
        ensures
            k == self.metadata.result_kind,
    {
        self.metadata.result_kind
    }

    /// The path identity.
    pub fn file_identity(&self) -> (f: &FileIdentity)
        ensures
            *f == self.metadata.file,
    {
        &self.metadata.file
    }

    /// The semantic skip reasons.
    pub fn semantic_skip_reasons(&self) -> (r: &[SemanticSkipReason])
        ensures
            r@ == self.metadata.semantic_skip_reasons@,
    {
        self.metadata.semantic_skip_reasons.as_slice()
    }
}

/// A strictly increasing sequence has as many elements as its set.
pub proof fn lemma_strict_seq_set_len(s: Seq<usize>)
    requires
        strictly_increasing(s),
    ensures
        s.to_set().len() == s.len(),
        s.to_set().finite(),
{
    assert(s.no_duplicates()) by {
        assert forall|i: int, j: int| 0 <= i < s.len() && 0 <= j < s.len() && i != j implies s[i] != s[j] by {
            if i < j {
                assert(s[i] < s[j]);
            } else {
                assert(s[j] < s[i]);
            }
        }
    }
    s.unique_seq_to_set();
}

/// Engine statistics of a search.
#[derive(Debug, Clone, PartialEq, Eq)]
pub struct SearchStats {
    pub whole_file_results: usize,
    pub ranged_results: usize,
    pub candidate_files: usize,
    pub prefiltered_files: usize,
    pub evaluated_files: usize,
    pub matched_files: usize,
    pub matched_ranges: usize,
    pub hidden_skipped: usize,
    pub ignore_skipped: usize,
    pub max_depth_skipped: usize,
    pub unreadable_entries: usize,
    pub root_boundary_excluded: usize,
    pub suppressed_too_large: usize,
    pub suppressed_binary: usize,
    pub suppressed_secret_like: usize,
    pub diagnostics: usize,
    pub walk_millis: u64,
    pub prefilter_millis: u64,
    pub evaluate_millis: u64,
    pub materialize_millis: u64,
    pub semantic_parse_failures: usize,
    pub semantic_budget_exhaustions: usize,
    pub query_cache_hits: usize,
    pub query_cache_misses: usize,
    pub tree_cache_hits: usize,
    pub tree_cache_misses: usize,
    pub semaphore_wait_millis: u64,
    pub semantic_parse_failures_by_language: BTreeMap<String, usize>,
    pub directory_hotspots: Vec<crate::contracts::DirectoryHotspot>,
}

impl Default for SearchStats {
    fn default() -> (s: Self)
        ensures
            s.whole_file_results == 0 && s.ranged_results == 0 && s.candidate_files == 0,
            s.prefiltered_files == 0 && s.evaluated_files == 0 && s.matched_files == 0,
            s.matched_ranges == 0 && s.hidden_skipped == 0 && s.ignore_skipped == 0,
            s.max_depth_skipped == 0 && s.unreadable_entries == 0 && s.root_boundary_excluded == 0,
            s.suppressed_too_large == 0 && s.suppressed_binary == 0 && s.suppressed_secret_like == 0,
            s.diagnostics == 0 && s.walk_millis == 0 && s.prefilter_millis == 0,
            s.evaluate_millis == 0 && s.materialize_millis == 0 && s.semantic_parse_failures == 0,
            s.semantic_budget_exhaustions == 0 && s.query_cache_hits == 0 && s.query_cache_misses == 0,
            s.tree_cache_hits == 0 && s.tree_cache_misses == 0 && s.semaphore_wait_millis == 0,
            s.directory_hotspots@.len() == 0,
    {
        SearchStats {
            whole_file_results: 0,
            ranged_results: 0,
            candidate_files: 0,
            prefiltered_files: 0,
            evaluated_files: 0,
            matched_files: 0,
            matched_ranges: 0,
            hidden_skipped: 0,
            ignore_skipped: 0,
            max_depth_skipped: 0,
            unreadable_entries: 0,
            root_boundary_excluded: 0,
            suppressed_too_large: 0,
            suppressed_binary: 0,
            suppressed_secret_like: 0,
            diagnostics: 0,
            walk_millis: 0,
            prefilter_millis: 0,
            evaluate_millis: 0,
            materialize_millis: 0,
            semantic_parse_failures: 0,
            semantic_budget_exhaustions: 0,
            query_cache_hits: 0,
            query_cache_misses: 0,
            tree_cache_hits: 0,
            tree_cache_misses: 0,
            semaphore_wait_millis: 0,
            semantic_parse_failures_by_language: BTreeMap::new(),
            directory_hotspots: Vec::new(),
        }
    }
}

/// Collected results with engine statistics and diagnostics.
#[derive(Debug, Clone)]
pub struct SearchReport {
    pub results: Vec<SearchResult>,
    pub stats: SearchStats,
    pub diagnostics: Vec<SearchDiagnostic>,
}

/// The status of a collected report.
pub open spec fn report_status(results: Seq<SearchResult>, diagnostics: Seq<SearchDiagnostic>) -> SearchStatus {
    if results.len() > 0 && forall|i: int| 0 <= i < results.len() ==> !state_is_loaded(#[trigger] results[i].content_state) {
        SearchStatus::PolicySuppressed
    } else if exists|i: int| 0 <= i < diagnostics.len() && #[trigger] diagnostics[i].kind == DiagnosticKind::ContentSkipped {
        SearchStatus::PartialSuccess
    } else {
        SearchStatus::FullSuccess
    }
}

impl SearchReport {
    /// Policy-suppressed when every result's content was withheld, partial
    /// when a content-skip diagnostic was raised, full otherwise.
    pub fn status(&self) -> (s: SearchStatus)
        ensures
            s == report_status(self.results@, self.diagnostics@),
    {
        if self.results.len() > 0 {
            let mut all_suppressed = true;
            let mut i: usize = 0;
            while i < self.results.len()
                invariant
                    i <= self.results.len(),
                    all_suppressed == forall|j: int| 0 <= j < i ==> !state_is_loaded(#[trigger] self.results@[j].content_state),
                decreases self.results.len() - i,
            {
                if self.results[i].content_available() {
                    all_suppressed = false;
                }
                i = i + 1;
            }
            if all_suppressed {
                return SearchStatus::PolicySuppressed;
            }
        }
        let ghost some_loaded = !(self.results@.len() > 0 && forall|j: int|
            0 <= j < self.results@.len() ==> !state_is_loaded(#[trigger] self.results@[j].content_state));
        assert(some_loaded);
        let mut i: usize = 0;
        while i < self.diagnostics.len()
            invariant
                some_loaded,
                some_loaded == !(self.results@.len() > 0 && forall|j: int|
                    0 <= j < self.results@.len() ==> !state_is_loaded(#[trigger] self.results@[j].content_state)),
                i <= self.diagnostics.len(),
                forall|j: int| 0 <= j < i ==> #[trigger] self.diagnostics@[j].kind != DiagnosticKind::ContentSkipped,
            decreases self.diagnostics.len() - i,
        {
            if self.diagnostics[i].kind == DiagnosticKind::ContentSkipped {
                assert(self.diagnostics@[i as int].kind == DiagnosticKind::ContentSkipped);
                return SearchStatus::PartialSuccess;
            }
            i = i + 1;
        }
        SearchStatus::FullSuccess
    }
}


/// A position in a file: 0-based row and byte column.
#[derive(Debug, Clone, Copy, PartialEq, Eq, Structural)]
pub struct TextPoint {
    pub row: usize,
    pub column: usize,
}

/// A span of a file as the parser reports it.
#[derive(Debug, Clone, Copy, PartialEq, Eq, Structural)]
pub struct TextRange {
    pub start_byte: usize,
    pub end_byte: usize,
    pub start_point: TextPoint,
    pub end_point: TextPoint,
}

/// Characters `i..j` of `s` are the bytes `start..end` of its encoding.
pub open spec fn byte_span_at(s: Seq<char>, i: int, j: int, start: int, end: int) -> bool {
    0 <= i <= j <= s.len() && crate::text::utf8_len(s.take(i)) == start && crate::text::utf8_len(s.take(j)) == end
}

/// The text of the bytes `start..end` of `s`, when both fall on character
/// boundaries in order.
pub open spec fn byte_span_text(s: Seq<char>, start: int, end: int) -> Option<Seq<char>> {
    if exists|i: int, j: int| #[trigger] byte_span_at(s, i, j, start, end) {
        let (i, j) = choose|i: int, j: int| #[trigger] byte_span_at(s, i, j, start, end);
        Some(s.subrange(i, j))
    } else {
        None
    }
}

/// The text between two byte offsets with `str::get`; `None` when that
/// would not be a valid slice.
#[verifier::external_body]
fn str_get_range(s: &str, start: usize, end: usize) -> (r: Option<String>)
    ensures
        r is Some <==> exists|i: int, j: int| #[trigger] byte_span_at(s@, i, j, start as int, end as int),
        r matches Some(t) ==> exists|i: int, j: int| #[trigger] byte_span_at(s@, i, j, start as int, end as int) && t@ == s@.subrange(i, j),
{
    s.get(start..end).map(|t| t.to_string())
}

proof fn lemma_utf8_len_step(s: Seq<char>, k: int)
    requires
        0 <= k < s.len(),
    ensures
        crate::text::utf8_len(s.take(k)) < crate::text::utf8_len(s.take(k + 1)),
    decreases k,
{
    crate::text::lemma_utf8_len_first(s.take(k + 1));
    if k == 0 {
        assert(s.take(1).drop_first() =~= Seq::<char>::empty());
        assert(s.take(0) =~= Seq::<char>::empty());
    } else {
        crate::text::lemma_utf8_len_first(s.take(k));
        assert(s.take(k).drop_first() =~= s.drop_first().take(k - 1));
        assert(s.take(k + 1).drop_first() =~= s.drop_first().take(k));
        lemma_utf8_len_step(s.drop_first(), k - 1);
    }
}

proof fn lemma_utf8_len_prefix_strict(s: Seq<char>, i: int, j: int)
    requires
        0 <= i < j <= s.len(),
    ensures
        crate::text::utf8_len(s.take(i)) < crate::text::utf8_len(s.take(j)),
    decreases j - i,
{
    lemma_utf8_len_step(s, j - 1);
    if i < j - 1 {
        lemma_utf8_len_prefix_strict(s, i, j - 1);
    }
}

proof fn lemma_byte_span_unique(s: Seq<char>, i: int, j: int, k: int, l: int, start: int, end: int)
    requires
        byte_span_at(s, i, j, start, end),
        byte_span_at(s, k, l, start, end),
    ensures
        i == k && j == l,
{
    if i < k {
        lemma_utf8_len_prefix_strict(s, i, k);
    } else if k < i {
        lemma_utf8_len_prefix_strict(s, k, i);
    }
    if j < l {
        lemma_utf8_len_prefix_strict(s, j, l);
    } else if l < j {
        lemma_utf8_len_prefix_strict(s, l, j);
    }
}

/// The match a parser range describes in `content`, if the range is a valid
/// slice of it; lines become 1-based.
pub open spec fn range_match(content: Seq<char>, r: TextRange) -> Option<(usize, usize, usize, usize, usize, usize, Seq<char>)> {
    match byte_span_text(content, r.start_byte as int, r.end_byte as int) {
        Some(t) => Some(
            ((r.start_point.row + 1) as usize, (r.end_point.row + 1) as usize, r.start_point.column, r.end_point.column, r.start_byte, r.end_byte, t),
        ),
        None => None,
    }
}

/// The view of a match.
pub open spec fn match_view(m: Match) -> (usize, usize, usize, usize, usize, usize, Seq<char>) {
    (m.start_line, m.end_line, m.start_column, m.end_column, m.byte_range.start, m.byte_range.end, m.text@)
}

/// The matches of the ranges that are valid slices of `content`, in order.
pub open spec fn ranges_matches(content: Seq<char>, ranges: Seq<TextRange>) -> Seq<(usize, usize, usize, usize, usize, usize, Seq<char>)>
    decreases ranges.len(),
{
    if ranges.len() == 0 {
        Seq::empty()
    } else {
        let prev = ranges_matches(content, ranges.drop_last());
        match range_match(content, ranges.last()) {
            Some(m) => prev.push(m),
            None => prev,
        }
    }
}

/// Turns parser ranges into matches: ranges that are not valid slices of the
/// content are dropped, and empty content gives no matches.
pub fn ranges_to_matches(content: &str, ranges: &Vec<TextRange>) -> (v: Vec<Match>)
    requires
        forall|i: int| 0 <= i < ranges@.len() ==> (#[trigger] ranges@[i]).start_point.row < usize::MAX && ranges@[i].end_point.row
            < usize::MAX,
    ensures
        content@.len() == 0 ==> v@.len() == 0,
        content@.len() > 0 ==> v@.map_values(|m: Match| match_view(m)) == ranges_matches(content@, ranges@),
{
    let mut v: Vec<Match> = Vec::new();
    let cs = chars_of(content);
    if cs.len() == 0 {
        return v;
    }
    let mut i: usize = 0;
    while i < ranges.len()
        invariant
            i <= ranges.len(),
            forall|k: int| 0 <= k < ranges@.len() ==> (#[trigger] ranges@[k]).start_point.row < usize::MAX && ranges@[k].end_point.row
                < usize::MAX,
            v@.map_values(|m: Match| match_view(m)) == ranges_matches(content@, ranges@.take(i as int)),
        decreases ranges.len() - i,
    {
        let r = ranges[i];
        proof {
            assert(ranges@.take(i + 1).drop_last() =~= ranges@.take(i as int));
            assert(ranges@.take(i + 1).last() == r);
        }
        match str_get_range(content, r.start_byte, r.end_byte) {
            Some(text) => {
                proof {
                    let (a, b) = choose|a: int, b: int| #[trigger] byte_span_at(content@, a, b, r.start_byte as int, r.end_byte as int) && text@ == content@.subrange(a, b);
                    let (c, d) = choose|c: int, d: int| #[trigger] byte_span_at(content@, c, d, r.start_byte as int, r.end_byte as int);
                    lemma_byte_span_unique(content@, a, b, c, d, r.start_byte as int, r.end_byte as int);
                }
                let ghost before = v@;
                v.push(Match {
                    start_line: r.start_point.row + 1,
                    end_line: r.end_point.row + 1,
                    start_column: r.start_point.column,
                    end_column: r.end_point.column,
                    byte_range: Range { start: r.start_byte, end: r.end_byte },
                    text,
                });
                proof {
                    assert(v@.map_values(|m: Match| match_view(m)) =~= before.map_values(|m: Match| match_view(m)).push(
                        match_view(v@.last()),
                    ));
                }
            },
            None => {},
        }
        i = i + 1;
    }
    assert(ranges@.take(i as int) =~= ranges@);
    v
}

} // verus!

//! Command-line option values and their conversion into request and search
//! settings.

use crate::contracts::{
    ErrorMode, ExecutionProfile, LimitValue, Limits, LineEndingMode, OutputMode, PathDisplayMode, SearchRequest,
    SemanticMatchMode, SnippetMode, SqlDialectOption,
};
use crate::model::SqlDialect;
use crate::text::{owned, views};
use vstd::prelude::*;

verus! {

/// When to colour output.
#[derive(Debug, Clone, Copy, PartialEq, Eq, Structural)]
pub enum ColorChoice {
    Auto,
    Always,
    Never,
}

impl Default for ColorChoice {
    fn default() -> (c: Self)
        ensures
            c == ColorChoice::Auto,
    {
        ColorChoice::Auto
    }
}

/// How modification times are shown.
#[derive(Debug, Clone, Copy, PartialEq, Eq, Structural)]
pub enum TimeFormat {
    Local,
    Utc,
    Iso,
    Unix,
}

impl Default for TimeFormat {
    fn default() -> (t: Self)
        ensures
            t == TimeFormat::Local,
    {
        TimeFormat::Local
    }
}

/// The SQL dialect chosen on the command line.
#[derive(Debug, Clone, Copy, PartialEq, Eq, Structural)]
pub enum SqlDialectFlag {
    Generic,
    Postgres,
    Mysql,
    Sqlite,
}

/// Semantic matching mode chosen on the command line.
#[derive(Debug, Clone, Copy, PartialEq, Eq, Structural)]
pub enum SemanticMatchModeFlag {
    Exact,
    CaseInsensitive,
    Prefix,
    Regex,
    Wildcard,
}

impl Default for SemanticMatchModeFlag {
    fn default() -> (m: Self)
        ensures
            m == SemanticMatchModeFlag::Exact,
    {
        SemanticMatchModeFlag::Exact
    }
}

/// Execution profile chosen on the command line.
#[derive(Debug, Clone, Copy, PartialEq, Eq, Structural)]
pub enum ExecutionProfileFlag {
    Interactive,
    Batch,
    Agent,
}

/// Path display mode chosen on the command line.
#[derive(Debug, Clone, Copy, PartialEq, Eq, Structural)]
pub enum PathDisplayModeFlag {
    Relative,
    Absolute,
    RootRelative,
}

impl Default for PathDisplayModeFlag {
    fn default() -> (m: Self)
        ensures
            m == PathDisplayModeFlag::Relative,
    {
        PathDisplayModeFlag::Relative
    }
}

/// Line-ending mode chosen on the command line.
#[derive(Debug, Clone, Copy, PartialEq, Eq, Structural)]
pub enum LineEndingModeFlag {
    Preserve,
    Normalize,
}

impl Default for LineEndingModeFlag {
    fn default() -> (m: Self)
        ensures
            m == LineEndingModeFlag::Preserve,
    {
        LineEndingModeFlag::Preserve
    }
}

/// Output format of the search command.
#[derive(Debug, Clone, Copy, PartialEq, Eq, Structural)]
pub enum Format {
    /// Matching hunks with file headers.
    Hunks,
    /// One summary line per file.
    Summary,
    /// Per-file diagnostics.
    Diagnostics,
    /// Match coordinates with escaped text.
    Matches,
    /// Context snippets around each match.
    Snippets,
    /// Markdown with file headers.
    Markdown,
    /// Machine-readable JSON.
    Json,
    /// Matching file paths.
    Paths,
    /// Raw concatenated file content.
    Cat,
    /// `ls`-like output with file metadata.
    Find,
}

impl Default for Format {
    fn default() -> (f: Self)
        ensures
            f == Format::Hunks,
    {
        Format::Hunks
    }
}

/// The matching mode named by a flag.
pub open spec fn match_mode_of_flag(v: SemanticMatchModeFlag) -> SemanticMatchMode {
    match v {
        SemanticMatchModeFlag::Exact => SemanticMatchMode::Exact,
        SemanticMatchModeFlag::CaseInsensitive => SemanticMatchMode::CaseInsensitive,
        SemanticMatchModeFlag::Prefix => SemanticMatchMode::Prefix,
        SemanticMatchModeFlag::Regex => SemanticMatchMode::Regex,
        SemanticMatchModeFlag::Wildcard => SemanticMatchMode::Wildcard,
    }
}

impl From<SemanticMatchModeFlag> for SemanticMatchMode {
    fn from(value: SemanticMatchModeFlag) -> (r: Self) {
        match value {
            SemanticMatchModeFlag::Exact => SemanticMatchMode::Exact,
            SemanticMatchModeFlag::CaseInsensitive => SemanticMatchMode::CaseInsensitive,
            SemanticMatchModeFlag::Prefix => SemanticMatchMode::Prefix,
            SemanticMatchModeFlag::Regex => SemanticMatchMode::Regex,
            SemanticMatchModeFlag::Wildcard => SemanticMatchMode::Wildcard,
        }
    }
}

impl vstd::std_specs::convert::FromSpecImpl<SemanticMatchModeFlag> for SemanticMatchMode {
    open spec fn obeys_from_spec() -> bool {
        true
    }

    open spec fn from_spec(v: SemanticMatchModeFlag) -> Self {
        match_mode_of_flag(v)
    }
}

/// The execution profile named by a flag.
pub open spec fn profile_of_flag(v: ExecutionProfileFlag) -> ExecutionProfile {
    match v {
        ExecutionProfileFlag::Interactive => ExecutionProfile::Interactive,
        ExecutionProfileFlag::Batch => ExecutionProfile::Batch,
        ExecutionProfileFlag::Agent => ExecutionProfile::Agent,
    }
}

impl From<ExecutionProfileFlag> for ExecutionProfile {
    fn from(value: ExecutionProfileFlag) -> (r: Self) {
        match value {
            ExecutionProfileFlag::Interactive => ExecutionProfile::Interactive,
            ExecutionProfileFlag::Batch => ExecutionProfile::Batch,
            ExecutionProfileFlag::Agent => ExecutionProfile::Agent,
        }
    }
}

impl vstd::std_specs::convert::FromSpecImpl<ExecutionProfileFlag> for ExecutionProfile {
    open spec fn obeys_from_spec() -> bool {
        true
    }

    open spec fn from_spec(v: ExecutionProfileFlag) -> Self {
        profile_of_flag(v)
    }
}

/// The SQL dialect named by a flag.
pub open spec fn dialect_of_flag(v: SqlDialectFlag) -> SqlDialect {
    match v {
        SqlDialectFlag::Generic => SqlDialect::Generic,
        SqlDialectFlag::Postgres => SqlDialect::Postgres,
        SqlDialectFlag::Mysql => SqlDialect::Mysql,
        SqlDialectFlag::Sqlite => SqlDialect::Sqlite,
    }
}

impl From<SqlDialectFlag> for SqlDialect {
    fn from(value: SqlDialectFlag) -> (r: Self) {
        match value {
            SqlDialectFlag::Generic => SqlDialect::Generic,
            SqlDialectFlag::Postgres => SqlDialect::Postgres,
            SqlDialectFlag::Mysql => SqlDialect::Mysql,
            SqlDialectFlag::Sqlite => SqlDialect::Sqlite,
        }
    }
}

impl vstd::std_specs::convert::FromSpecImpl<SqlDialectFlag> for SqlDialect {
    open spec fn obeys_from_spec() -> bool {
        true
    }

    open spec fn from_spec(v: SqlDialectFlag) -> Self {
        dialect_of_flag(v)
    }
}

/// The contract dialect option named by a flag.
pub open spec fn option_of_flag(v: SqlDialectFlag) -> SqlDialectOption {
    match v {
        SqlDialectFlag::Generic => SqlDialectOption::Generic,
        SqlDialectFlag::Postgres => SqlDialectOption::Postgres,
        SqlDialectFlag::Mysql => SqlDialectOption::Mysql,
        SqlDialectFlag::Sqlite => SqlDialectOption::Sqlite,
    }
}

impl From<SqlDialectFlag> for SqlDialectOption {
    fn from(value: SqlDialectFlag) -> (r: Self) {
        match value {
            SqlDialectFlag::Generic => SqlDialectOption::Generic,
            SqlDialectFlag::Postgres => SqlDialectOption::Postgres,
            SqlDialectFlag::Mysql => SqlDialectOption::Mysql,
            SqlDialectFlag::Sqlite => SqlDialectOption::Sqlite,
        }
    }
}

impl vstd::std_specs::convert::FromSpecImpl<SqlDialectFlag> for SqlDialectOption {
    open spec fn obeys_from_spec() -> bool {
        true
    }

    open spec fn from_spec(v: SqlDialectFlag) -> Self {
        option_of_flag(v)
    }
}

/// The path display mode named by a flag.
pub open spec fn display_mode_of_flag(v: PathDisplayModeFlag) -> PathDisplayMode {
    match v {
        PathDisplayModeFlag::Relative => PathDisplayMode::Relative,
        PathDisplayModeFlag::Absolute => PathDisplayMode::Absolute,
        PathDisplayModeFlag::RootRelative => PathDisplayMode::RootRelative,
    }
}

impl From<PathDisplayModeFlag> for PathDisplayMode {
    fn from(value: PathDisplayModeFlag) -> (r: Self) {
        match value {
            PathDisplayModeFlag::Relative => PathDisplayMode::Relative,
            PathDisplayModeFlag::Absolute => PathDisplayMode::Absolute,
            PathDisplayModeFlag::RootRelative => PathDisplayMode::RootRelative,
        }
    }
}

impl vstd::std_specs::convert::FromSpecImpl<PathDisplayModeFlag> for PathDisplayMode {
    open spec fn obeys_from_spec() -> bool {
        true
    }

    open spec fn from_spec(v: PathDisplayModeFlag) -> Self {
        display_mode_of_flag(v)
    }
}

/// The line-ending mode named by a flag.
pub open spec fn line_ending_of_flag(v: LineEndingModeFlag) -> LineEndingMode {
    match v {
        LineEndingModeFlag::Preserve => LineEndingMode::Preserve,
        LineEndingModeFlag::Normalize => LineEndingMode::Normalize,
    }
}

impl From<LineEndingModeFlag> for LineEndingMode {
    fn from(value: LineEndingModeFlag) -> (r: Self) {
        match value {
            LineEndingModeFlag::Preserve => LineEndingMode::Preserve,
            LineEndingModeFlag::Normalize => LineEndingMode::Normalize,
        }
    }
}

impl vstd::std_specs::convert::FromSpecImpl<LineEndingModeFlag> for LineEndingMode {
    open spec fn obeys_from_spec() -> bool {
        true
    }

    open spec fn from_spec(v: LineEndingModeFlag) -> Self {
        line_ending_of_flag(v)
    }
}


/// The options of the search command.
#[derive(Debug, Clone)]
pub struct SearchArgs {
    pub query: Option<String>,
    pub dialect: Option<SqlDialectFlag>,
    pub sql_strict: bool,
    pub preset: Vec<String>,
    pub root: String,
    pub output: Option<String>,
    pub line_numbers: bool,
    pub no_headers: bool,
    pub format: Format,
    pub no_ignore: bool,
    pub hidden: bool,
    pub color: ColorChoice,
    pub time_format: TimeFormat,
    pub max_depth: Option<usize>,
    pub skip_errors: bool,
    pub fail_fast: bool,
    pub execution_budget_ms: Option<u64>,
    pub semantic_budget_ms: Option<u64>,
    pub max_semantic_matches_per_file: Option<usize>,
    pub language_override: Option<String>,
    pub semantic_match_mode: SemanticMatchModeFlag,
    pub semantic_strict: bool,
    pub strict_path_resolution: bool,
    pub no_snapshot_drift_detection: bool,
    pub ignore_debug: bool,
    pub language_debug: bool,
    pub sql_trace: bool,
    pub execution_profile: Option<ExecutionProfileFlag>,
    pub show_suppressed_placeholders: bool,
    pub path_display: PathDisplayModeFlag,
    pub line_endings: LineEndingModeFlag,
    pub no_match_text: bool,
    pub context: Option<usize>,
    pub find: bool,
}

impl Default for SearchArgs {
    fn default() -> (a: Self)
        ensures
            a.query is None && a.dialect is None && !a.sql_strict && a.preset@.len() == 0,
            a.root@ == Seq::<char>::empty() && a.output is None && !a.line_numbers && !a.no_headers,
            a.format == Format::Hunks && !a.no_ignore && !a.hidden && a.color == ColorChoice::Auto,
            a.time_format == TimeFormat::Local && a.max_depth is None && !a.skip_errors && !a.fail_fast,
            a.execution_budget_ms is None && a.semantic_budget_ms is None,
            a.max_semantic_matches_per_file is None && a.language_override is None,
            a.semantic_match_mode == SemanticMatchModeFlag::Exact && !a.semantic_strict,
            !a.strict_path_resolution && !a.no_snapshot_drift_detection && !a.ignore_debug,
            !a.language_debug && !a.sql_trace && a.execution_profile is None,
            !a.show_suppressed_placeholders && a.path_display == PathDisplayModeFlag::Relative,
            a.line_endings == LineEndingModeFlag::Preserve && !a.no_match_text && a.context is None && !a.find,
    {
        SearchArgs {
            query: None,
            dialect: None,
            sql_strict: false,
            preset: Vec::new(),
            root: String::new(),
            output: None,
            line_numbers: false,
            no_headers: false,
            format: Format::Hunks,
            no_ignore: false,
            hidden: false,
            color: ColorChoice::Auto,
            time_format: TimeFormat::Local,
            max_depth: None,
            skip_errors: false,
            fail_fast: false,
            execution_budget_ms: None,
            semantic_budget_ms: None,
            max_semantic_matches_per_file: None,
            language_override: None,
            semantic_match_mode: SemanticMatchModeFlag::Exact,
            semantic_strict: false,
            strict_path_resolution: false,
            no_snapshot_drift_detection: false,
            ignore_debug: false,
            language_debug: false,
            sql_trace: false,
            execution_profile: None,
            show_suppressed_placeholders: false,
            path_display: PathDisplayModeFlag::Relative,
            line_endings: LineEndingModeFlag::Preserve,
            no_match_text: false,
            context: None,
            find: false,
        }
    }
}

/// Limits that leave every output unbounded.
pub open spec fn unbounded_limits_spec(l: Limits) -> bool {
    &&& l.max_results == LimitValue::Unlimited
    &&& l.max_matches_per_file == LimitValue::Unlimited
    &&& l.max_bytes_per_file == LimitValue::Unlimited
    &&& l.max_total_bytes == LimitValue::Unlimited
    &&& l.max_match_bytes == LimitValue::Unlimited
    &&& l.max_snippet_bytes == LimitValue::Unlimited
    &&& l.max_errors == LimitValue::Unlimited
}

/// The limits of command-line searches: none.
pub fn cli_unbounded_limits() -> (l: Limits)
    ensures
        unbounded_limits_spec(l),
{
    Limits {
        max_results: LimitValue::Unlimited,
        max_matches_per_file: LimitValue::Unlimited,
        max_bytes_per_file: LimitValue::Unlimited,
        max_total_bytes: LimitValue::Unlimited,
        max_match_bytes: LimitValue::Unlimited,
        max_snippet_bytes: LimitValue::Unlimited,
        max_errors: LimitValue::Unlimited,
    }
}

/// The output mode a command-line layout asks of a search: paths for
/// path layouts and `--find`, otherwise the mode the layout shows.
pub open spec fn output_mode_for(format: Format, find: bool) -> OutputMode {
    if find || format == Format::Paths || format == Format::Find {
        OutputMode::Paths
    } else {
        match format {
            Format::Summary | Format::Diagnostics => OutputMode::Summary,
            Format::Matches => OutputMode::Matches,
            Format::Snippets => OutputMode::Snippets,
            _ => OutputMode::Full,
        }
    }
}

/// The search request that command-line options describe.
pub open spec fn request_from_args_spec(r: SearchRequest, a: SearchArgs) -> bool {
    &&& r.query@ == (match a.query {
        Some(q) => q@,
        None => Seq::<char>::empty(),
    })
    &&& crate::content::opt_view(r.root) == Some(a.root@)
    &&& views(r.presets@) == views(a.preset@)
    &&& r.no_ignore == a.no_ignore
    &&& r.hidden == a.hidden
    &&& r.max_depth == a.max_depth
    &&& r.sql_dialect == (match a.dialect {
        Some(d) => Some(option_of_flag(d)),
        None => None,
    })
    &&& r.sql_strict == a.sql_strict
    &&& r.output == Some(output_mode_for(a.format, a.find))
    &&& (r.limits matches Some(l) && unbounded_limits_spec(l))
    &&& r.context_lines == a.context
    &&& r.error_mode == (if a.fail_fast {
        ErrorMode::FailFast
    } else {
        ErrorMode::SkipErrors
    })
    &&& r.execution_budget_ms == a.execution_budget_ms
    &&& r.semantic_budget_ms == a.semantic_budget_ms
    &&& r.max_semantic_matches_per_file == a.max_semantic_matches_per_file
    &&& crate::content::opt_view(r.language_override) == crate::content::opt_view(a.language_override)
    &&& r.semantic_match_mode == match_mode_of_flag(a.semantic_match_mode)
    &&& r.snippet_mode == SnippetMode::PreserveLineEndings
    &&& r.semantic_strict == a.semantic_strict
    &&& r.strict_path_resolution == a.strict_path_resolution
    &&& r.snapshot_drift_detection == !a.no_snapshot_drift_detection
    &&& r.ignore_debug == a.ignore_debug
    &&& r.language_debug == a.language_debug
    &&& r.sql_trace == a.sql_trace
    &&& r.execution_profile == (match a.execution_profile {
        Some(p) => Some(profile_of_flag(p)),
        None => None,
    })
    &&& r.offset == 0
    &&& r.continuation_token is None
    &&& r.path_display == Some(display_mode_of_flag(a.path_display))
    &&& r.line_endings == Some(line_ending_of_flag(a.line_endings))
    &&& r.include_match_text == !a.no_match_text
}

fn output_mode(format: Format, find: bool) -> (m: OutputMode)
    ensures
        m == output_mode_for(format, find),
{
    if find || format == Format::Paths || format == Format::Find {
        OutputMode::Paths
    } else {
        match format {
            Format::Summary | Format::Diagnostics => OutputMode::Summary,
            Format::Matches => OutputMode::Matches,
            Format::Snippets => OutputMode::Snippets,
            _ => OutputMode::Full,
        }
    }
}

fn dialect_option(d: Option<SqlDialectFlag>) -> (o: Option<SqlDialectOption>)
    ensures
        o == (match d {
            Some(f) => Some(option_of_flag(f)),
            None => None,
        }),
{
    match d {
        Some(f) => Some(SqlDialectOption::from(f)),
        None => None,
    }
}

fn profile_option(p: Option<ExecutionProfileFlag>) -> (o: Option<ExecutionProfile>)
    ensures
        o == (match p {
            Some(f) => Some(profile_of_flag(f)),
            None => None,
        }),
{
    match p {
        Some(f) => Some(ExecutionProfile::from(f)),
        None => None,
    }
}

/// Builds the search request of command-line options.
pub fn search_request_from_args(args: &SearchArgs) -> (r: SearchRequest)
    ensures
        request_from_args_spec(r, *args),
{
    let output = output_mode(args.format, args.find);
    let query = match &args.query {
        Some(q) => q.clone(),
        None => String::new(),
    };
    let sql_dialect = dialect_option(args.dialect);
    let execution_profile = profile_option(args.execution_profile);
    let semantic_match_mode = SemanticMatchMode::from(args.semantic_match_mode);
    let path_display = PathDisplayMode::from(args.path_display);
    let line_endings = LineEndingMode::from(args.line_endings);
    let error_mode = if args.fail_fast {
        ErrorMode::FailFast
    } else {
        ErrorMode::SkipErrors
    };
    let limits = cli_unbounded_limits();
    let presets = crate::request::clone_strings(&args.preset);
    let language_override = crate::content::clone_opt(&args.language_override);
    let root = args.root.clone();
    SearchRequest {
        query,
        root: Some(root),
        presets,
        no_ignore: args.no_ignore,
        hidden: args.hidden,
        max_depth: args.max_depth,
        sql_dialect,
        sql_strict: args.sql_strict,
        output: Some(output),
        limits: Some(limits),
        context_lines: args.context,
        error_mode,
        execution_budget_ms: args.execution_budget_ms,
        semantic_budget_ms: args.semantic_budget_ms,
        max_semantic_matches_per_file: args.max_semantic_matches_per_file,
        language_override,
        semantic_match_mode,
        snippet_mode: SnippetMode::PreserveLineEndings,
        semantic_strict: args.semantic_strict,
        strict_path_resolution: args.strict_path_resolution,
        snapshot_drift_detection: !args.no_snapshot_drift_detection,
        ignore_debug: args.ignore_debug,
        language_debug: args.language_debug,
        sql_trace: args.sql_trace,
        execution_profile,
        offset: 0,
        continuation_token: None,
        path_display: Some(path_display),
        line_endings: Some(line_endings),
        include_match_text: !args.no_match_text,
    }
}

/// The layout the search command uses: `--no-headers` means `cat`, and
/// `--find` means `find` unless JSON was asked for.
pub open spec fn effective_format(a: SearchArgs) -> Format {
    let f = if a.no_headers {
        Format::Cat
    } else {
        a.format
    };
    if a.find && f != Format::Json {
        Format::Find
    } else {
        f
    }
}

/// The warnings the search command prints about its options.
pub open spec fn option_warnings(a: SearchArgs) -> Seq<Seq<char>> {
    (if a.no_headers && a.find {
        seq!["Warning: --no-headers has no effect with --find."@]
    } else {
        Seq::empty()
    }) + (if (effective_format(a) == Format::Paths || effective_format(a) == Format::Find) && a.no_headers {
        seq!["Warning: --no-headers only affects content-oriented formats and is ignored here."@]
    } else {
        Seq::empty()
    })
}

/// Settles the layout of the search command and collects its warnings
/// (see `effective_format` and `option_warnings`).
pub fn resolve_search_format(args: &mut SearchArgs) -> (warnings: Vec<String>)
    ensures
        final(args).format == effective_format(*old(args)),
        views(warnings@) == option_warnings(*old(args)),
        final(args).no_headers == old(args).no_headers,
        final(args).find == old(args).find,
{
    let mut warnings: Vec<String> = Vec::new();
    if args.no_headers && args.find {
        warnings.push(owned("Warning: --no-headers has no effect with --find."));
    }
    if args.no_headers {
        args.format = Format::Cat;
    }
    if args.find && args.format != Format::Json {
        args.format = Format::Find;
    }
    if (args.format == Format::Paths || args.format == Format::Find) && args.no_headers {
        warnings.push(owned("Warning: --no-headers only affects content-oriented formats and is ignored here."));
    }
    assert(views(warnings@) =~= option_warnings(*old(args)));
    warnings
}

/// Whether output is coloured: to a file only when asked always; to the
/// terminal as asked, `auto` meaning when standard output is a terminal.
pub open spec fn use_color_spec(writes_to_file: bool, color: ColorChoice, stdout_is_terminal: bool) -> bool {
    if writes_to_file {
        color == ColorChoice::Always
    } else {
        match color {
            ColorChoice::Always => true,
            ColorChoice::Never => false,
            ColorChoice::Auto => stdout_is_terminal,
        }
    }
}

/// Decides whether output is coloured (see `use_color_spec`).
pub fn use_color(writes_to_file: bool, color: ColorChoice, stdout_is_terminal: bool) -> (b: bool)
    ensures
        b == use_color_spec(writes_to_file, color, stdout_is_terminal),
{
    if writes_to_file {
        color == ColorChoice::Always
    } else {
        match color {
            ColorChoice::Always => true,
            ColorChoice::Never => false,
            ColorChoice::Auto => stdout_is_terminal,
        }
    }
}

/// The path a result shows under a display mode.
pub open spec fn display_path_spec(identity: crate::model::FileIdentity, mode: PathDisplayModeFlag) -> Seq<char> {
    match mode {
        PathDisplayModeFlag::Relative => identity.display_path@,
        PathDisplayModeFlag::Absolute => identity.resolved_path@,
        PathDisplayModeFlag::RootRelative => match identity.root_relative_path {
            Some(p) => p@,
            None => identity.display_path@,
        },
    }
}

/// The path a result shows under a display mode.
pub fn apply_cli_path_display(identity: &crate::model::FileIdentity, mode: PathDisplayModeFlag) -> (s: String)
    ensures
        s@ == display_path_spec(*identity, mode),
{
    match mode {
        PathDisplayModeFlag::Relative => identity.display_path.clone(),
        PathDisplayModeFlag::Absolute => identity.resolved_path.clone(),
        PathDisplayModeFlag::RootRelative => match &identity.root_relative_path {
            Some(p) => p.clone(),
            None => identity.display_path.clone(),
        },
    }
}

/// A result as the command line shows it: the chosen path projection, and
/// line endings normalized when asked.
pub open spec fn result_preferences_hold(
    after: crate::model::SearchResult,
    before: crate::model::SearchResult,
    path_display: PathDisplayModeFlag,
    line_endings: LineEndingModeFlag,
) -> bool {
    let normalize = line_endings == LineEndingModeFlag::Normalize;
    &&& after.path@ == display_path_spec(before.metadata.file, path_display)
    &&& after.content@ == (if normalize {
        crate::text::normalize_newlines_spec(before.content@)
    } else {
        before.content@
    })
    &&& after.matches@.len() == before.matches@.len()
    &&& forall|j: int|
        0 <= j < before.matches@.len() ==> {
            &&& (#[trigger] after.matches@[j]).text@ == (if normalize {
                crate::text::normalize_newlines_spec(before.matches@[j].text@)
            } else {
                before.matches@[j].text@
            })
            &&& after.matches@[j].start_line == before.matches@[j].start_line
            &&& after.matches@[j].end_line == before.matches@[j].end_line
            &&& after.matches@[j].start_column == before.matches@[j].start_column
            &&& after.matches@[j].end_column == before.matches@[j].end_column
            &&& after.matches@[j].byte_range == before.matches@[j].byte_range
        }
    &&& after.content_state == before.content_state
    &&& after.diagnostics == before.diagnostics
    &&& after.metadata == before.metadata
}

fn apply_result_preferences(result: &mut crate::model::SearchResult, path_display: PathDisplayModeFlag, line_endings: LineEndingModeFlag)
    ensures
        result_preferences_hold(*final(result), *old(result), path_display, line_endings),
{
    let ghost start = *result;
    result.path = apply_cli_path_display(&result.metadata.file, path_display);
    if line_endings == LineEndingModeFlag::Normalize {
        result.content = crate::text::normalize_newlines(result.content.as_str());
        let ghost mid = *result;
        let mut j: usize = 0;
        while j < result.matches.len()
            invariant
                j <= result.matches@.len(),
                result.matches@.len() == start.matches@.len(),
                result.path == mid.path,
                result.content == mid.content,
                result.content_state == start.content_state,
                result.diagnostics == start.diagnostics,
                result.metadata == start.metadata,
                forall|k: int|
                    0 <= k < start.matches@.len() ==> {
                        &&& (#[trigger] result.matches@[k]).text@ == (if k < j {
                            crate::text::normalize_newlines_spec(start.matches@[k].text@)
                        } else {
                            start.matches@[k].text@
                        })
                        &&& result.matches@[k].start_line == start.matches@[k].start_line
                        &&& result.matches@[k].end_line == start.matches@[k].end_line
                        &&& result.matches@[k].start_column == start.matches@[k].start_column
                        &&& result.matches@[k].end_column == start.matches@[k].end_column
                        &&& result.matches@[k].byte_range == start.matches@[k].byte_range
                    },
            decreases result.matches@.len() - j,
        {
            let mut m = result.matches[j].clone();
            m.text = crate::text::normalize_newlines(m.text.as_str());
            result.matches.set(j, m);
            j = j + 1;
        }
    }
}

/// Applies the command line's path display and line-ending preferences to
/// every result of a report.
pub fn apply_cli_output_preferences(report: crate::model::SearchReport, args: &SearchArgs) -> (r: crate::model::SearchReport)
    ensures
        r.results@.len() == report.results@.len(),
        forall|i: int|
            0 <= i < report.results@.len() ==> result_preferences_hold(
                #[trigger] r.results@[i],
                report.results@[i],
                args.path_display,
                args.line_endings,
            ),
        r.stats == report.stats,
        r.diagnostics == report.diagnostics,
{
    let crate::model::SearchReport { results, stats, diagnostics } = report;
    let ghost before = results@;
    let mut rest = results;
    let mut done: Vec<crate::model::SearchResult> = Vec::new();
    while rest.len() > 0
        invariant
            done@.len() + rest@.len() == before.len(),
            rest@ == before.skip(done@.len() as int),
            forall|k: int|
                0 <= k < done@.len() ==> result_preferences_hold(#[trigger] done@[k], before[k], args.path_display, args.line_endings),
        decreases rest@.len(),
    {
        let mut result = rest.remove(0);
        proof {
            assert(result == before[done@.len() as int]);
            assert(rest@ =~= before.skip(done@.len() as int + 1));
        }
        apply_result_preferences(&mut result, args.path_display, args.line_endings);
        done.push(result);
    }
    crate::model::SearchReport { results: done, stats, diagnostics }
}


/// The command line: one subcommand.
#[derive(Debug)]
pub struct Cli {
    pub command: Commands,
}

/// The subcommands.
#[derive(Debug)]
pub enum Commands {
    /// Search for files with a query.
    Search(SearchArgs),
    /// Inspect query expansion, validation and normalization.
    Query(QueryArgs),
    /// Inspect configuration.
    Config(ConfigArgs),
    /// List supported languages and their predicates.
    Lang(LangArgs),
    /// Manage saved presets.
    Preset(PresetArgs),
}

/// Options of the `lang` command.
#[derive(Debug)]
pub struct LangArgs {
    pub action: Option<LangAction>,
}

/// What the `lang` command does.
#[derive(Debug, Clone)]
pub enum LangAction {
    List,
    Describe { language: String },
    Inventory { root: String, json: bool },
    Matrix { json: bool },
}

impl LangArgs {
    /// The requested action; listing when none was given.
    pub fn into_action(self) -> (a: LangAction)
        ensures
            match self.action {
                Some(x) => a == x,
                None => a == LangAction::List,
            },
    {
        match self.action {
            Some(a) => a,
            None => LangAction::List,
        }
    }
}

/// Options of the `query` command.
#[derive(Debug)]
pub struct QueryArgs {
    pub action: QueryAction,
}

/// What the `query` command does.
#[derive(Debug, Clone)]
pub enum QueryAction {
    Explain { query: String, preset: Vec<String>, json: bool },
    Effective { query: Option<String>, preset: Vec<String> },
    Validate { query: String, preset: Vec<String>, json: bool },
    Normalize { query: String },
    Ast { query: String },
    Reference { json: bool },
    WhyNoResults { query: String, preset: Vec<String>, root: String },
    WhyFile { query: String, path: String, preset: Vec<String>, root: String },
    Dialect { path: String },
}

/// Options of the `config` command.
#[derive(Debug)]
pub struct ConfigArgs {
    pub action: ConfigAction,
}

/// What the `config` command does.
#[derive(Debug, Clone)]
pub enum ConfigAction {
    Path,
    Show,
    Validate { json: bool },
    Doctor { json: bool },
}

/// Options of the `preset` command.
#[derive(Debug)]
pub struct PresetArgs {
    pub action: PresetAction,
}

/// What the `preset` command does.
#[derive(Debug, Clone)]
pub enum PresetAction {
    List,
    Add { name: String, query: String },
    Remove { name: String },
}


/// Searches started from the command line are never truncated: every
/// limit of their request resolves to the largest value.
pub proof fn lemma_cli_searches_unbounded(r: SearchRequest, args: SearchArgs)
    requires
        request_from_args_spec(r, args),
    ensures
        crate::request::resolved_limits_spec(r.limits) == (crate::request::ResolvedLimits {
            max_results: usize::MAX,
            max_matches_per_file: usize::MAX,
            max_bytes_per_file: usize::MAX,
            max_total_bytes: usize::MAX,
            max_match_bytes: usize::MAX,
            max_snippet_bytes: usize::MAX,
            max_errors: usize::MAX,
        }),
{
}

} // verus!

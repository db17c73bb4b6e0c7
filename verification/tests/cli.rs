use rdump::cli::{
    apply_cli_output_preferences, cli_unbounded_limits, resolve_search_format, search_request_from_args, use_color,
    SearchArgs,
};
use rdump::content::ContentState;
use rdump::contracts::{ErrorMode, LimitValue, OutputMode};
use rdump::model::{SearchReport, SearchResult, SearchResultMetadata, SearchStats};
use rdump::cli::{
    ColorChoice, ExecutionProfileFlag, Format, LineEndingModeFlag, PathDisplayModeFlag, SemanticMatchModeFlag,
    SqlDialectFlag, TimeFormat,
};
use rdump::contracts::{ExecutionProfile, LineEndingMode, PathDisplayMode, SemanticMatchMode, SqlDialectOption};
use rdump::model::SqlDialect as CodeSqlDialect;

#[test]
fn test_sql_dialect_flag_conversion_generic() {
    let flag = SqlDialectFlag::Generic;
    let dialect: CodeSqlDialect = flag.into();
    assert_eq!(dialect, CodeSqlDialect::Generic);
}

#[test]
fn test_sql_dialect_flag_conversion_postgres() {
    let flag = SqlDialectFlag::Postgres;
    let dialect: CodeSqlDialect = flag.into();
    assert_eq!(dialect, CodeSqlDialect::Postgres);
}

#[test]
fn test_sql_dialect_flag_conversion_mysql() {
    let flag = SqlDialectFlag::Mysql;
    let dialect: CodeSqlDialect = flag.into();
    assert_eq!(dialect, CodeSqlDialect::Mysql);
}

#[test]
fn test_sql_dialect_flag_conversion_sqlite() {
    let flag = SqlDialectFlag::Sqlite;
    let dialect: CodeSqlDialect = flag.into();
    assert_eq!(dialect, CodeSqlDialect::Sqlite);
}

#[test]
fn test_color_choice_default() {
    let choice = ColorChoice::default();
    assert_eq!(choice, ColorChoice::Auto);
}

#[test]
fn test_format_default() {
    let format = Format::default();
    assert_eq!(format, Format::Hunks);
}

#[test]
fn flag_defaults_match_documented_values() {
    assert_eq!(TimeFormat::default(), TimeFormat::Local);
    assert_eq!(SemanticMatchModeFlag::default(), SemanticMatchModeFlag::Exact);
    assert_eq!(PathDisplayModeFlag::default(), PathDisplayModeFlag::Relative);
    assert_eq!(LineEndingModeFlag::default(), LineEndingModeFlag::Preserve);
}

#[test]
fn flags_convert_to_contract_values() {
    let mode: SemanticMatchMode = SemanticMatchModeFlag::Wildcard.into();
    assert_eq!(mode, SemanticMatchMode::Wildcard);
    let profile: ExecutionProfile = ExecutionProfileFlag::Agent.into();
    assert_eq!(profile, ExecutionProfile::Agent);
    let option: SqlDialectOption = SqlDialectFlag::Mysql.into();
    assert_eq!(option, SqlDialectOption::Mysql);
    let display: PathDisplayMode = PathDisplayModeFlag::RootRelative.into();
    assert_eq!(display, PathDisplayMode::RootRelative);
    let endings: LineEndingMode = LineEndingModeFlag::Normalize.into();
    assert_eq!(endings, LineEndingMode::Normalize);
}

#[test]
fn search_request_from_args_maps_every_option() {
    let mut args = SearchArgs::default();
    args.query = Some("ext:rs".to_string());
    args.root = ".".to_string();
    args.format = Format::Snippets;
    args.fail_fast = true;
    args.dialect = Some(SqlDialectFlag::Sqlite);
    args.no_snapshot_drift_detection = true;
    let request = search_request_from_args(&args);
    assert_eq!(request.query, "ext:rs");
    assert_eq!(request.root.as_deref(), Some("."));
    assert_eq!(request.output, Some(OutputMode::Snippets));
    assert_eq!(request.error_mode, ErrorMode::FailFast);
    assert_eq!(request.sql_dialect, Some(SqlDialectOption::Sqlite));
    assert!(!request.snapshot_drift_detection);
    assert_eq!(request.limits, Some(cli_unbounded_limits()));
    assert_eq!(cli_unbounded_limits().max_errors, LimitValue::Unlimited);
    args.find = true;
    assert_eq!(search_request_from_args(&args).output, Some(OutputMode::Paths));
}

#[test]
fn search_format_resolution_and_color() {
    let mut args = SearchArgs::default();
    args.no_headers = true;
    args.find = true;
    let warnings = resolve_search_format(&mut args);
    assert_eq!(args.format, Format::Find);
    assert_eq!(warnings.len(), 2);
    assert!(use_color(false, ColorChoice::Auto, true));
    assert!(!use_color(true, ColorChoice::Auto, true));
    assert!(use_color(true, ColorChoice::Always, false));
}

#[test]
fn output_preferences_choose_paths_and_normalize_endings() {
    let mut metadata = SearchResultMetadata::default();
    metadata.file.display_path = "src/a.rs".to_string();
    metadata.file.resolved_path = "/repo/src/a.rs".to_string();
    let report = SearchReport {
        results: vec![SearchResult {
            path: "x".to_string(),
            matches: vec![],
            content: "a\r\nb\rc".to_string(),
            content_state: ContentState::Loaded,
            diagnostics: vec![],
            metadata,
        }],
        stats: SearchStats::default(),
        diagnostics: vec![],
    };
    let mut args = SearchArgs::default();
    args.path_display = PathDisplayModeFlag::Absolute;
    args.line_endings = LineEndingModeFlag::Normalize;
    let shown = apply_cli_output_preferences(report, &args);
    assert_eq!(shown.results[0].path, "/repo/src/a.rs");
    assert_eq!(shown.results[0].content, "a\nb\nc");
}

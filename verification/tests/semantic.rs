use rdump::contracts::SemanticMatchMode;
use rdump::model::SqlDialect;
use rdump::predicates::FileContext;
use rdump::profiles::PredicateKey;
use rdump::semantic::{
    detect_shebang_key, detect_sql_dialect, detect_sql_dialect_with_trace, generic_retry_failed, is_capture_match,
    match_text, parse_fallback, push_semantic_skip, select_language_profile, select_sql_profile, wildcard_match,
    CodeAwareSettings, ParseFallback,
};

fn settings(mode: SemanticMatchMode) -> CodeAwareSettings {
    CodeAwareSettings {
        sql_dialect: None,
        sql_strict: false,
        semantic_strict: false,
        language_override: None,
        semantic_match_mode: mode,
        semantic_budget_ms: None,
        max_semantic_matches_per_file: None,
        language_debug: true,
        sql_trace: true,
    }
}

#[test]
fn match_modes_compare_captured_text() {
    let exact = settings(SemanticMatchMode::Exact);
    assert!(match_text("use serde::Deserialize", "serde", &exact, true));
    assert!(!match_text("main_loop", "main", &exact, false));
    let ci = settings(SemanticMatchMode::CaseInsensitive);
    assert!(match_text("MyStruct", "mystruct", &ci, false));
    let prefix = settings(SemanticMatchMode::Prefix);
    assert!(match_text("handle_request", "handle", &prefix, false));
    let regex = settings(SemanticMatchMode::Regex);
    assert!(match_text("fn_42", "^fn_[0-9]+$", &regex, false));
    assert!(!match_text("fn_42", "(", &regex, false));
    let wild = settings(SemanticMatchMode::Wildcard);
    assert!(match_text("useState", "use*", &wild, false));
    assert!(match_text("anything", ".", &wild, false));
}

#[test]
fn wildcard_escapes_other_meta_characters() {
    assert!(wildcard_match("a.b", "a.b"));
    assert!(!wildcard_match("axb", "a.b"));
    assert!(wildcard_match("whatever", "*"));
    assert!(wildcard_match("prefix-suffix", "prefix*suffix"));
}

#[test]
fn captures_of_substring_predicates_match_by_containment() {
    let exact = settings(SemanticMatchMode::Exact);
    assert!(is_capture_match(&PredicateKey::Import, "serde", "use serde::Serialize;", &exact));
    assert!(!is_capture_match(&PredicateKey::Func, "ma", "main", &exact));
    assert!(is_capture_match(&PredicateKey::Func, ".", "main", &exact));
    assert!(is_capture_match(&PredicateKey::Hook, "useState", "useState", &exact));
}

#[test]
fn sql_dialect_heuristics() {
    assert_eq!(detect_sql_dialect("DELIMITER //\nCREATE PROCEDURE p()"), Some(SqlDialect::Mysql));
    assert_eq!(detect_sql_dialect("create trigger t begin   atomic end"), Some(SqlDialect::Sqlite));
    assert_eq!(detect_sql_dialect("CREATE FUNCTION f() RETURNS TABLE(x int)"), Some(SqlDialect::Postgres));
    assert_eq!(detect_sql_dialect("... language plpgsql"), Some(SqlDialect::Postgres));
    let (none, trace) = detect_sql_dialect_with_trace("select 1");
    assert_eq!(none, None);
    assert_eq!(trace, "No dialect-specific SQL heuristic matched; falling back to `sqlgeneric`.");
}

#[test]
fn shebang_lines_name_languages() {
    assert_eq!(detect_shebang_key("#!/usr/bin/env python3\nprint(1)").as_deref(), Some("py"));
    assert_eq!(detect_shebang_key("#!/bin/sh\n").as_deref(), Some("sh"));
    assert_eq!(detect_shebang_key("#!/usr/bin/env node").as_deref(), Some("js"));
    assert_eq!(detect_shebang_key("print(1)"), None);
}

#[test]
fn profiles_are_selected_from_extension_override_and_shebang() {
    let s = settings(SemanticMatchMode::Exact);
    let mut ctx = FileContext::new("src/main.rs".to_string(), "/".to_string());
    let (key, _) = select_language_profile(&s, "RS", &mut ctx).unwrap().unwrap();
    assert_eq!(key, "rs");
    assert_eq!(ctx.diagnostics.len(), 1);

    let mut over = settings(SemanticMatchMode::Exact);
    over.language_override = Some("PY".to_string());
    let mut ctx = FileContext::new("script".to_string(), "/".to_string());
    let (key, _) = select_language_profile(&over, "", &mut ctx).unwrap().unwrap();
    assert_eq!(key, "py");

    let mut ctx = FileContext::new("script".to_string(), "/".to_string());
    assert!(select_language_profile(&s, "", &mut ctx).is_err());
    ctx.content = Some("#!/usr/bin/env python\n".to_string());
    let (key, _) = select_language_profile(&s, "", &mut ctx).unwrap().unwrap();
    assert_eq!(key, "py");

    let mut ctx = FileContext::new("notes.unknown".to_string(), "/".to_string());
    assert!(select_language_profile(&s, "unknown", &mut ctx).unwrap().is_none());
}

#[test]
fn sql_profile_choice_is_cached() {
    let mut s = settings(SemanticMatchMode::Exact);
    let mut ctx = FileContext::new("q.sql".to_string(), "/".to_string());
    ctx.content = Some("DELIMITER //".to_string());
    assert_eq!(select_sql_profile(&s, &mut ctx).unwrap(), "sqlmysql");
    assert_eq!(ctx.sql_profile_key.as_deref(), Some("sqlmysql"));
    s.sql_dialect = Some(SqlDialect::Postgres);
    assert_eq!(select_sql_profile(&s, &mut ctx).unwrap(), "sqlmysql");
    let mut fresh = FileContext::new("r.sql".to_string(), "/".to_string());
    assert_eq!(select_sql_profile(&s, &mut fresh).unwrap(), "sqlpostgres");
}

#[test]
fn parse_failures_fall_back_skip_or_fail() {
    let mut s = settings(SemanticMatchMode::Exact);
    assert_eq!(
        parse_fallback("rs", "a.rs", "boom", &s),
        ParseFallback::Skip { message: "Failed to parse a.rs: boom".to_string() }
    );
    s.semantic_strict = true;
    assert_eq!(
        parse_fallback("rs", "a.rs", "boom", &s),
        ParseFallback::Fail {
            skip_message: "Failed to parse a.rs: boom".to_string(),
            error: "Strict semantic mode: failed to parse a.rs: boom".to_string(),
        }
    );
    s.sql_strict = true;
    match parse_fallback("sqlmysql", "q.sql", "bad", &s) {
        ParseFallback::Fail { error, .. } => assert_eq!(error, "Strict SQL mode: failed to parse q.sql with sqlmysql: bad"),
        other => panic!("unexpected {:?}", other),
    }
    s.sql_strict = false;
    s.semantic_strict = false;
    assert_eq!(
        generic_retry_failed("sqlmysql", "q.sql", "e1", "e2", &s),
        ParseFallback::Skip { message: "Failed to parse q.sql with sqlmysql and generic SQL fallback: e1; e2".to_string() }
    );
}

#[test]
fn semantic_skips_are_recorded() {
    let mut ctx = FileContext::new("a.rs".to_string(), "/".to_string());
    push_semantic_skip(&mut ctx, rdump::model::SemanticSkipReason::ParseFailed, "why".to_string());
    assert_eq!(ctx.semantic_skip_reasons.len(), 1);
    assert_eq!(ctx.diagnostics[0].message, "why");
}

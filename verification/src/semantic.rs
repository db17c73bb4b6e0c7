//! Semantic predicates around the parser: their settings, how captured text
//! is matched, which language profile a file gets, and what happens when a
//! parse fails.

use crate::content::SearchDiagnostic;
use crate::contracts::SemanticMatchMode;
use crate::model::{dialect_key, SqlDialect};
use crate::predicates::FileContext;
use crate::profiles::PredicateKey;
use crate::text::{ascii_lower_seq, chars_of, has_substring, owned, push_str, starts_with_spec, string_from_chars};
use vstd::prelude::*;

verus! {

/// Settings of semantic evaluation.
#[derive(Debug, Clone)]
pub struct CodeAwareSettings {
    /// SQL dialect forced for `.sql` files.
    pub sql_dialect: Option<SqlDialect>,
    /// A failed dialect-specific SQL parse is an error instead of falling
    /// back to generic SQL.
    pub sql_strict: bool,
    /// Parse failures are errors instead of skips.
    pub semantic_strict: bool,
    /// Language forced for every file.
    pub language_override: Option<String>,
    /// How captured text is compared with predicate values.
    pub semantic_match_mode: SemanticMatchMode,
    /// Per-file time budget of semantic matching, in milliseconds.
    pub semantic_budget_ms: Option<u64>,
    /// Cap on the captures kept per file.
    pub max_semantic_matches_per_file: Option<usize>,
    /// Record how each file's language was chosen.
    pub language_debug: bool,
    /// Record how each SQL file's dialect was chosen.
    pub sql_trace: bool,
}

// ---------------------------------------------------------------------------
// Regular expressions
// ---------------------------------------------------------------------------

/// Whether `regex::Regex::new` accepts a pattern.
pub uninterp spec fn regex_compiles(pattern: Seq<char>) -> bool;

/// Whether a compiled regular expression matches somewhere in a text
/// (`Regex::is_match`).
pub uninterp spec fn regex_finds(pattern: Seq<char>, text: Seq<char>) -> bool;

/// Compiles `pattern` with `regex::Regex::new` and tests `text` with
/// `Regex::is_match`; `None` when the pattern does not compile.
#[verifier::external_body]
fn regex_match(pattern: &str, text: &str) -> (r: Option<bool>)
    ensures
        r is Some <==> regex_compiles(pattern@),
        r matches Some(b) ==> b == regex_finds(pattern@, text@),
{
    match regex::Regex::new(pattern) {
        Ok(re) => Some(re.is_match(text)),
        Err(_) => None,
    }
}

/// A regular-expression meta character (`regex_syntax::is_meta_character`).
pub open spec fn regex_meta(c: char) -> bool {
    c == '\\' || c == '.' || c == '+' || c == '*' || c == '?' || c == '(' || c == ')' || c == '|' || c == '['
        || c == ']' || c == '{' || c == '}' || c == '^' || c == '$' || c == '#' || c == '&' || c == '-' || c == '~'
}

/// A text with every meta character preceded by a backslash.
pub open spec fn regex_escape_spec(s: Seq<char>) -> Seq<char>
    decreases s.len(),
{
    if s.len() == 0 {
        Seq::<char>::empty()
    } else {
        regex_escape_spec(s.drop_last()) + (if regex_meta(s.last()) {
            seq!['\\', s.last()]
        } else {
            seq![s.last()]
        })
    }
}

/// Escapes a text with `regex::escape`: every meta character gets a
/// leading backslash, as `regex_syntax::escape_into` does.
#[verifier::external_body]
fn regex_escape(text: &str) -> (r: String)
    ensures
        r@ == regex_escape_spec(text@),
{
    regex::escape(text)
}

// ---------------------------------------------------------------------------
// Matching captured text
// ---------------------------------------------------------------------------

/// The anchored pattern of a wildcard value: the value escaped, with each
/// escaped `*` turned into `.*`.
pub open spec fn wildcard_pattern(value: Seq<char>) -> Seq<char> {
    "^"@ + crate::text::replace_spec(regex_escape_spec(value), seq!['\\', '*'], seq!['.', '*']) + "$"@
}

/// A wildcard value matches a text: `*` matches anything; otherwise the
/// anchored pattern must match.
pub open spec fn wildcard_matches(text: Seq<char>, value: Seq<char>) -> bool {
    value == "*"@ || (regex_compiles(wildcard_pattern(value)) && regex_finds(wildcard_pattern(value), text))
}

/// Whether captured text matches a predicate value under a match mode;
/// `contains` selects substring rather than whole-text comparison for the
/// exact and case-insensitive modes.
pub open spec fn match_text_spec(captured: Seq<char>, value: Seq<char>, mode: SemanticMatchMode, contains: bool) -> bool {
    match mode {
        SemanticMatchMode::Exact => if contains {
            has_substring(captured, value)
        } else {
            captured == value
        },
        SemanticMatchMode::CaseInsensitive => if contains {
            has_substring(ascii_lower_seq(captured), ascii_lower_seq(value))
        } else {
            ascii_lower_seq(captured) == ascii_lower_seq(value)
        },
        SemanticMatchMode::Prefix => starts_with_spec(captured, value),
        SemanticMatchMode::Regex => regex_compiles(value) && regex_finds(value, captured),
        SemanticMatchMode::Wildcard => value == "."@ || wildcard_matches(captured, value),
    }
}

/// Whether a capture answers a predicate: imports, comments, strings and
/// calls match by substring; the rest match whole, with `.` matching any
/// capture.
pub open spec fn capture_matches_spec(key: PredicateKey, value: Seq<char>, captured: Seq<char>, mode: SemanticMatchMode) -> bool {
    match key {
        PredicateKey::Import | PredicateKey::Comment | PredicateKey::Str | PredicateKey::Call => match_text_spec(
            captured,
            value,
            mode,
            true,
        ),
        _ => value == "."@ || match_text_spec(captured, value, mode, false),
    }
}

/// How a capture answers a predicate. Imports, comments, strings and calls
/// match when the capture contains the value (exactly, or ignoring ASCII
/// case); the other predicates match when the value is `.` or the capture
/// is the value itself (exactly, or ignoring ASCII case). Prefix mode
/// matches when the capture starts with the value, whatever the predicate.
pub proof fn law_capture_matching(key: PredicateKey, value: Seq<char>, captured: Seq<char>, mode: SemanticMatchMode, b: bool)
    requires
        b == capture_matches_spec(key, value, captured, mode),
    ensures
        (key == PredicateKey::Import || key == PredicateKey::Comment || key == PredicateKey::Str || key
            == PredicateKey::Call) ==> {
            &&& mode == SemanticMatchMode::Exact ==> (b <==> has_substring(captured, value))
            &&& mode == SemanticMatchMode::CaseInsensitive ==> (b <==> has_substring(
                ascii_lower_seq(captured),
                ascii_lower_seq(value),
            ))
            &&& mode == SemanticMatchMode::Prefix ==> (b <==> starts_with_spec(captured, value))
            &&& mode == SemanticMatchMode::Regex ==> (b <==> regex_compiles(value) && regex_finds(value, captured))
        },
        !(key == PredicateKey::Import || key == PredicateKey::Comment || key == PredicateKey::Str || key
            == PredicateKey::Call) ==> {
            &&& mode == SemanticMatchMode::Exact ==> (b <==> (value == "."@ || captured == value))
            &&& mode == SemanticMatchMode::CaseInsensitive ==> (b <==> (value == "."@ || ascii_lower_seq(captured)
                == ascii_lower_seq(value)))
            &&& mode == SemanticMatchMode::Prefix ==> (b <==> (value == "."@ || starts_with_spec(captured, value)))
            &&& mode == SemanticMatchMode::Regex ==> (b <==> (value == "."@ || (regex_compiles(value) && regex_finds(
                value,
                captured,
            ))))
        },
        mode == SemanticMatchMode::Wildcard && value == "."@ ==> b,
{
}

/// Matches a text against a wildcard value (see `wildcard_matches`).
pub fn wildcard_match(captured_text: &str, value: &str) -> (b: bool)
    ensures
        b == wildcard_matches(captured_text@, value@),
{
    if crate::text::str_eq(value, "*") {
        return true;
    }
    let escaped = regex_escape(value);
    let cs = chars_of(escaped.as_str());
    let star = vec!['\\', '*'];
    let any = vec!['.', '*'];
    assert(star@ =~= seq!['\\', '*']);
    assert(any@ =~= seq!['.', '*']);
    let replaced = crate::text::replace_chars(&cs, &star, &any);
    let mut pattern: Vec<char> = Vec::new();
    push_str(&mut pattern, "^");
    crate::text::push_chars(&mut pattern, &replaced);
    push_str(&mut pattern, "$");
    let p = string_from_chars(&pattern);
    assert(p@ == wildcard_pattern(value@));
    match regex_match(p.as_str(), captured_text) {
        Some(b) => b,
        None => false,
    }
}

/// Matches captured text against a value (see `match_text_spec`).
pub fn match_text(captured_text: &str, value: &str, settings: &CodeAwareSettings, contains: bool) -> (b: bool)
    ensures
        b == match_text_spec(captured_text@, value@, settings.semantic_match_mode, contains),
{
    match settings.semantic_match_mode {
        SemanticMatchMode::Exact => {
            if contains {
                crate::text::str_contains(captured_text, value)
            } else {
                crate::text::str_eq(captured_text, value)
            }
        },
        SemanticMatchMode::CaseInsensitive => {
            if contains {
                let a = crate::text::to_ascii_lower(captured_text);
                let b = crate::text::to_ascii_lower(value);
                crate::text::str_contains(a.as_str(), b.as_str())
            } else {
                crate::text::eq_ignore_ascii_case(captured_text, value)
            }
        },
        SemanticMatchMode::Prefix => crate::text::str_starts_with(captured_text, value),
        SemanticMatchMode::Regex => match regex_match(value, captured_text) {
            Some(b) => b,
            None => false,
        },
        SemanticMatchMode::Wildcard => crate::text::str_eq(value, ".") || wildcard_match(captured_text, value),
    }
}

/// Whether a capture answers a predicate (see `capture_matches_spec`).
pub fn is_capture_match(key: &PredicateKey, value: &str, captured_text: &str, settings: &CodeAwareSettings) -> (b: bool)
    ensures
        b == capture_matches_spec(*key, value@, captured_text@, settings.semantic_match_mode),
{
    match key {
        PredicateKey::Import | PredicateKey::Comment | PredicateKey::Str | PredicateKey::Call => match_text(
            captured_text,
            value,
            settings,
            true,
        ),
        _ => crate::text::str_eq(value, ".") || match_text(captured_text, value, settings, false),
    }
}

// ---------------------------------------------------------------------------
// Parse failures
// ---------------------------------------------------------------------------

/// What to do after a file failed to parse.
#[derive(Debug, Clone, PartialEq, Eq)]
pub enum ParseFallback {
    /// Parse again with the generic SQL profile.
    RetryGeneric,
    /// Record a semantic skip with this message and evaluate nothing more.
    Skip { message: String },
    /// Record a semantic skip with `skip_message` and fail with `error`.
    Fail { skip_message: String, error: String },
}

/// The profile key of a dialect-specific SQL profile.
pub open spec fn is_dialect_sql(key: Seq<char>) -> bool {
    key != "sqlgeneric"@ && starts_with_spec(key, "sql"@)
}

/// A registered profile answers the key.
pub open spec fn is_registered(key: Seq<char>) -> bool {
    crate::profiles::registry_aliases().contains(key)
}

/// A skip, or a failure when strict semantic mode is on.
pub open spec fn skip_or_fail(f: ParseFallback, message: Seq<char>, strict: bool, error: Seq<char>) -> bool {
    if strict {
        f matches ParseFallback::Fail { skip_message, error: e } && skip_message@ == message && e@ == error
    } else {
        f matches ParseFallback::Skip { message: m } && m@ == message
    }
}

/// The decision after the parse of `path` with profile `key` failed with
/// `err`. A dialect-specific SQL profile falls back to generic SQL unless
/// strict SQL mode forbids it; otherwise the file is skipped, or the search
/// fails in strict semantic mode.
pub open spec fn parse_fallback_spec(f: ParseFallback, key: Seq<char>, path: Seq<char>, err: Seq<char>, settings: CodeAwareSettings) -> bool {
    if is_dialect_sql(key) {
        if settings.sql_strict {
            f matches ParseFallback::Fail { skip_message, error }
                && skip_message@ == "Strict SQL mode rejected fallback for "@ + path + " after "@ + key
                    + " failed to parse: "@ + err
                && error@ == "Strict SQL mode: failed to parse "@ + path + " with "@ + key + ": "@ + err
        } else if is_registered("sqlgeneric"@) {
            f == ParseFallback::RetryGeneric
        } else {
            skip_or_fail(
                f,
                "Failed to parse "@ + path + " with "@ + key + " and no SQL fallback was available: "@ + err,
                settings.semantic_strict,
                "Strict semantic mode: failed to parse "@ + path + " with "@ + key
                    + " and no SQL fallback was available: "@ + err,
            )
        }
    } else {
        skip_or_fail(
            f,
            "Failed to parse "@ + path + ": "@ + err,
            settings.semantic_strict,
            "Strict semantic mode: failed to parse "@ + path + ": "@ + err,
        )
    }
}

fn join3(a: &str, b: &str, c: &str) -> (s: String)
    ensures
        s@ == a@ + b@ + c@,
{
    let mut out: Vec<char> = Vec::new();
    push_str(&mut out, a);
    push_str(&mut out, b);
    push_str(&mut out, c);
    string_from_chars(&out)
}

fn skip_or_fail_for(message: String, strict: bool, error: String) -> (f: ParseFallback)
    ensures
        skip_or_fail(f, message@, strict, error@),
{
    if strict {
        ParseFallback::Fail { skip_message: message, error }
    } else {
        ParseFallback::Skip { message }
    }
}

/// Decides what follows a failed parse (see `parse_fallback_spec`).
pub fn parse_fallback(profile_key: &str, path: &str, err: &str, settings: &CodeAwareSettings) -> (f: ParseFallback)
    ensures
        parse_fallback_spec(f, profile_key@, path@, err@, *settings),
{
    let dialect_sql = !crate::text::str_eq(profile_key, "sqlgeneric") && crate::text::str_starts_with(profile_key, "sql");
    if dialect_sql {
        if settings.sql_strict {
            let mut skip: Vec<char> = Vec::new();
            push_str(&mut skip, "Strict SQL mode rejected fallback for ");
            push_str(&mut skip, path);
            push_str(&mut skip, " after ");
            push_str(&mut skip, profile_key);
            push_str(&mut skip, " failed to parse: ");
            push_str(&mut skip, err);
            let mut error: Vec<char> = Vec::new();
            push_str(&mut error, "Strict SQL mode: failed to parse ");
            push_str(&mut error, path);
            push_str(&mut error, " with ");
            push_str(&mut error, profile_key);
            push_str(&mut error, ": ");
            push_str(&mut error, err);
            return ParseFallback::Fail { skip_message: string_from_chars(&skip), error: string_from_chars(&error) };
        }
        if crate::profiles::get_profile("sqlgeneric").is_some() {
            return ParseFallback::RetryGeneric;
        }
        let mut skip: Vec<char> = Vec::new();
        push_str(&mut skip, "Failed to parse ");
        push_str(&mut skip, path);
        push_str(&mut skip, " with ");
        push_str(&mut skip, profile_key);
        push_str(&mut skip, " and no SQL fallback was available: ");
        push_str(&mut skip, err);
        let mut error: Vec<char> = Vec::new();
        push_str(&mut error, "Strict semantic mode: failed to parse ");
        push_str(&mut error, path);
        push_str(&mut error, " with ");
        push_str(&mut error, profile_key);
        push_str(&mut error, " and no SQL fallback was available: ");
        push_str(&mut error, err);
        return skip_or_fail_for(string_from_chars(&skip), settings.semantic_strict, string_from_chars(&error));
    }
    let mut skip: Vec<char> = Vec::new();
    push_str(&mut skip, "Failed to parse ");
    push_str(&mut skip, path);
    push_str(&mut skip, ": ");
    push_str(&mut skip, err);
    let mut error: Vec<char> = Vec::new();
    push_str(&mut error, "Strict semantic mode: failed to parse ");
    push_str(&mut error, path);
    push_str(&mut error, ": ");
    push_str(&mut error, err);
    skip_or_fail_for(string_from_chars(&skip), settings.semantic_strict, string_from_chars(&error))
}

/// The decision after the generic SQL retry failed too: skip the file, or
/// fail in strict semantic mode.
pub fn generic_retry_failed(
    profile_key: &str,
    path: &str,
    err: &str,
    fallback_err: &str,
    settings: &CodeAwareSettings,
) -> (f: ParseFallback)
    ensures
        skip_or_fail(
            f,
            "Failed to parse "@ + path@ + " with "@ + profile_key@ + " and generic SQL fallback: "@ + err@ + "; "@
                + fallback_err@,
            settings.semantic_strict,
            "Strict semantic mode: failed to parse "@ + path@ + " with "@ + profile_key@ + " and generic SQL fallback: "@
                + err@ + "; "@ + fallback_err@,
        ),
{
    let mut skip: Vec<char> = Vec::new();
    push_str(&mut skip, "Failed to parse ");
    push_str(&mut skip, path);
    push_str(&mut skip, " with ");
    push_str(&mut skip, profile_key);
    push_str(&mut skip, " and generic SQL fallback: ");
    push_str(&mut skip, err);
    push_str(&mut skip, "; ");
    push_str(&mut skip, fallback_err);
    let mut error: Vec<char> = Vec::new();
    push_str(&mut error, "Strict semantic mode: failed to parse ");
    push_str(&mut error, path);
    push_str(&mut error, " with ");
    push_str(&mut error, profile_key);
    push_str(&mut error, " and generic SQL fallback: ");
    push_str(&mut error, err);
    push_str(&mut error, "; ");
    push_str(&mut error, fallback_err);
    skip_or_fail_for(string_from_chars(&skip), settings.semantic_strict, string_from_chars(&error))
}

// ---------------------------------------------------------------------------
// Language selection
// ---------------------------------------------------------------------------

/// The MySQL heuristic: a `DELIMITER //` directive.
pub open spec fn mysql_pattern() -> Seq<char> {
    "(?i)delimiter\\s+//"@
}

/// The SQLite heuristic: `BEGIN ATOMIC`.
pub open spec fn sqlite_pattern() -> Seq<char> {
    "(?i)begin\\s+atomic"@
}

/// The PostgreSQL heuristic: `RETURNS TABLE`.
pub open spec fn postgres_pattern() -> Seq<char> {
    "(?i)returns\\s+table"@
}

/// A heuristic pattern matches the content.
pub open spec fn heuristic_hits(pattern: Seq<char>, content: Seq<char>) -> bool {
    regex_compiles(pattern) && regex_finds(pattern, content)
}

/// The SQL dialect that the content's syntax points to, if any.
pub open spec fn detected_dialect(content: Seq<char>) -> Option<SqlDialect> {
    if heuristic_hits(mysql_pattern(), content) {
        Some(SqlDialect::Mysql)
    } else if heuristic_hits(sqlite_pattern(), content) {
        Some(SqlDialect::Sqlite)
    } else if heuristic_hits(postgres_pattern(), content) || has_substring(content, "language plpgsql"@) {
        Some(SqlDialect::Postgres)
    } else {
        None
    }
}

/// The explanation of the dialect detection.
pub open spec fn detection_trace(content: Seq<char>) -> Seq<char> {
    if heuristic_hits(mysql_pattern(), content) {
        "Detected `sqlmysql` because the file contains a `DELIMITER //` directive."@
    } else if heuristic_hits(sqlite_pattern(), content) {
        "Detected `sqlsqlite` because the file contains `BEGIN ATOMIC`."@
    } else if heuristic_hits(postgres_pattern(), content) || has_substring(content, "language plpgsql"@) {
        "Detected `sqlpostgres` because the file contains PostgreSQL-specific `RETURNS TABLE` or `LANGUAGE plpgsql` syntax."@
    } else {
        "No dialect-specific SQL heuristic matched; falling back to `sqlgeneric`."@
    }
}

fn heuristic(pattern: &str, content: &str) -> (b: bool)
    ensures
        b == heuristic_hits(pattern@, content@),
{
    match regex_match(pattern, content) {
        Some(b) => b,
        None => false,
    }
}

/// Guesses the SQL dialect of a file from its syntax, with an explanation.
pub fn detect_sql_dialect_with_trace(content: &str) -> (r: (Option<SqlDialect>, String))
    ensures
        r.0 == detected_dialect(content@),
        r.1@ == detection_trace(content@),
{
    if heuristic("(?i)delimiter\\s+//", content) {
        return (Some(SqlDialect::Mysql), owned("Detected `sqlmysql` because the file contains a `DELIMITER //` directive."));
    }
    if heuristic("(?i)begin\\s+atomic", content) {
        return (Some(SqlDialect::Sqlite), owned("Detected `sqlsqlite` because the file contains `BEGIN ATOMIC`."));
    }
    if heuristic("(?i)returns\\s+table", content) || crate::text::str_contains(content, "language plpgsql") {
        return (
            Some(SqlDialect::Postgres),
            owned(
                "Detected `sqlpostgres` because the file contains PostgreSQL-specific `RETURNS TABLE` or `LANGUAGE plpgsql` syntax.",
            ),
        );
    }
    (None, owned("No dialect-specific SQL heuristic matched; falling back to `sqlgeneric`."))
}

/// Guesses the SQL dialect of a file from its syntax.
pub fn detect_sql_dialect(content: &str) -> (d: Option<SqlDialect>)
    ensures
        d == detected_dialect(content@),
{
    detect_sql_dialect_with_trace(content).0
}

/// The SQL profile key of a file: the one chosen earlier, the forced
/// dialect's, or the detected dialect's (generic when none is detected).
/// `None` when detection needs content that is not loaded.
pub open spec fn sql_key_spec(settings: CodeAwareSettings, cached: Option<Seq<char>>, content: Option<Seq<char>>) -> Option<Seq<char>> {
    match cached {
        Some(k) => Some(k),
        None => match settings.sql_dialect {
            Some(d) => Some(dialect_key(d)),
            None => match content {
                Some(c) => Some(
                    dialect_key(
                        match detected_dialect(c) {
                            Some(d) => d,
                            None => SqlDialect::Generic,
                        },
                    ),
                ),
                None => None,
            },
        },
    }
}

/// The loaded content of a context, as a value.
pub open spec fn content_of(c: FileContext) -> Option<Seq<char>> {
    crate::content::opt_view(c.content)
}

/// Records a diagnostic when `enabled`.
fn note(context: &mut FileContext, enabled: bool, d: SearchDiagnostic)
    ensures
        final(context).path == old(context).path,
        final(context).root == old(context).root,
        final(context).content == old(context).content,
        final(context).sql_profile_key == old(context).sql_profile_key,
        final(context).semantic_skip_reasons == old(context).semantic_skip_reasons,
        !enabled ==> final(context).diagnostics@ == old(context).diagnostics@,
        enabled ==> final(context).diagnostics@ == old(context).diagnostics@.push(d),
{
    if enabled {
        context.diagnostics.push(d);
    }
}

/// Chooses the SQL profile of a file and remembers it (see `sql_key_spec`).
pub fn select_sql_profile(settings: &CodeAwareSettings, context: &mut FileContext) -> (r: Result<String, String>)
    ensures
        final(context).path == old(context).path,
        final(context).root == old(context).root,
        final(context).content == old(context).content,
        final(context).semantic_skip_reasons == old(context).semantic_skip_reasons,
        !settings.sql_trace ==> final(context).diagnostics@ == old(context).diagnostics@,
        match sql_key_spec(*settings, crate::content::opt_view(old(context).sql_profile_key), content_of(*old(context))) {
            Some(k) => r matches Ok(key) && key@ == k && crate::content::opt_view(final(context).sql_profile_key) == Some(k),
            None => r matches Err(e) && e@ == crate::predicates::content_not_loaded(old(context).path@),
        },
{
    if let Some(cached) = &context.sql_profile_key {
        let cached = cached.clone();
        let message = join3("Reused cached SQL profile `", cached.as_str(), "` for this file.");
        let d = SearchDiagnostic::sql_dialect_trace(context.path.clone(), message);
        note(context, settings.sql_trace, d);
        return Ok(cached);
    }
    if let Some(dialect) = &settings.sql_dialect {
        let key = owned(dialect.key());
        context.sql_profile_key = Some(key.clone());
        let message = join3("Selected SQL profile `", key.as_str(), "` from explicit dialect override.");
        let d = SearchDiagnostic::sql_dialect_trace(context.path.clone(), message);
        note(context, settings.sql_trace, d);
        return Ok(key);
    }
    let content = match context.get_content() {
        Ok(c) => owned(c),
        Err(e) => return Err(e),
    };
    let (detected, trace) = detect_sql_dialect_with_trace(content.as_str());
    let dialect = match detected {
        Some(d) => d,
        None => SqlDialect::Generic,
    };
    let key = owned(dialect.key());
    context.sql_profile_key = Some(key.clone());
    let d = SearchDiagnostic::sql_dialect_trace(context.path.clone(), trace);
    note(context, settings.sql_trace, d);
    Ok(key)
}

/// The profile key that a shebang line names, if any.
pub open spec fn shebang_key_spec(content: Seq<char>) -> Option<Seq<char>> {
    let line = crate::model::first_line_spec(content);
    let s = ascii_lower_seq(line);
    if !starts_with_spec(line, "#!"@) {
        None
    } else if has_substring(s, "bash"@) || has_substring(s, "/sh"@) {
        Some("sh"@)
    } else if has_substring(s, "python"@) {
        Some("py"@)
    } else if has_substring(s, "node"@) || has_substring(s, "deno"@) {
        Some("js"@)
    } else if has_substring(s, "ruby"@) {
        Some("rb"@)
    } else if has_substring(s, "php"@) {
        Some("php"@)
    } else if has_substring(s, "lua"@) {
        Some("lua"@)
    } else {
        None
    }
}

/// The profile key named by a shebang line (see `shebang_key_spec`).
pub fn detect_shebang_key(content: &str) -> (r: Option<String>)
    ensures
        crate::content::opt_view(r) == shebang_key_spec(content@),
{
    let line = crate::model::first_line_text(content);
    if !crate::text::str_starts_with(line.as_str(), "#!") {
        return None;
    }
    let s = crate::text::to_ascii_lower(line.as_str());
    let t = s.as_str();
    if crate::text::str_contains(t, "bash") || crate::text::str_contains(t, "/sh") {
        Some(owned("sh"))
    } else if crate::text::str_contains(t, "python") {
        Some(owned("py"))
    } else if crate::text::str_contains(t, "node") || crate::text::str_contains(t, "deno") {
        Some(owned("js"))
    } else if crate::text::str_contains(t, "ruby") {
        Some(owned("rb"))
    } else if crate::text::str_contains(t, "php") {
        Some(owned("php"))
    } else if crate::text::str_contains(t, "lua") {
        Some(owned("lua"))
    } else {
        None
    }
}

/// The profile key chosen from a file's extension (or, for a file without
/// one, its shebang line), when no override applies: `Err(())` when the
/// choice needs content that is not loaded.
pub open spec fn key_from_extension(
    settings: CodeAwareSettings,
    extension: Seq<char>,
    cached_sql: Option<Seq<char>>,
    content: Option<Seq<char>>,
) -> Result<Option<Seq<char>>, ()> {
    if ascii_lower_seq(extension) == ascii_lower_seq("sql"@) {
        match sql_key_spec(settings, cached_sql, content) {
            None => Err(()),
            Some(k) => Ok(
                if is_registered(k) {
                    Some(k)
                } else {
                    None
                },
            ),
        }
    } else {
        let key = crate::profiles::unicode_lowercase(extension);
        if is_registered(key) {
            Ok(Some(key))
        } else if key.len() == 0 {
            match content {
                None => Err(()),
                Some(c) => Ok(
                    match shebang_key_spec(c) {
                        Some(k) => if is_registered(k) {
                            Some(k)
                        } else {
                            None
                        },
                        None => None,
                    },
                ),
            }
        } else {
            Ok(None)
        }
    }
}

/// The override key, ASCII-lowercased.
pub open spec fn override_key(settings: CodeAwareSettings) -> Option<Seq<char>> {
    match settings.language_override {
        Some(o) => Some(ascii_lower_seq(o@)),
        None => None,
    }
}

/// The selection made from the extension, as a result.
pub open spec fn extension_selection_holds(
    r: Result<Option<(String, crate::profiles::LanguageProfile)>, String>,
    settings: CodeAwareSettings,
    extension: Seq<char>,
    before: FileContext,
) -> bool {
    match key_from_extension(settings, extension, crate::content::opt_view(before.sql_profile_key), content_of(before)) {
        Err(()) => r matches Err(e) && e@ == crate::predicates::content_not_loaded(before.path@),
        Ok(None) => r matches Ok(None),
        Ok(Some(k)) => r matches Ok(Some(p)) && p.0@ == k,
    }
}

/// Chooses the language profile of a file: an override names a registered
/// key or a catalog language; `.sql` files get their dialect's profile;
/// other files the profile of their lowercased extension, or of their
/// shebang line when they have no extension.
pub fn select_language_profile(settings: &CodeAwareSettings, extension: &str, context: &mut FileContext) -> (r: Result<
    Option<(String, crate::profiles::LanguageProfile)>,
    String,
>)
    ensures
        final(context).path == old(context).path,
        final(context).root == old(context).root,
        final(context).content == old(context).content,
        final(context).semantic_skip_reasons == old(context).semantic_skip_reasons,
        !settings.language_debug && !settings.sql_trace ==> final(context).diagnostics@ == old(context).diagnostics@,
        match override_key(*settings) {
            Some(o) => if is_registered(o) {
                r matches Ok(Some(p)) && p.0@ == o
            } else {
                extension_selection_holds(r, *settings, extension@, *old(context)) || (r matches Ok(Some(p))
                    && exists|e: crate::profiles::CanonicalLanguageProfile|
                    #[trigger] crate::profiles::entry_matches(e, crate::profiles::unicode_lowercase(o)) && e.id@ == p.0@)
            },
            None => extension_selection_holds(r, *settings, extension@, *old(context)),
        },
{
    if let Some(raw) = &settings.language_override {
        let override_key = crate::text::to_ascii_lower(raw.as_str());
        if let Some(profile) = crate::profiles::get_profile(override_key.as_str()) {
            let message = join3("Selected semantic profile `", override_key.as_str(), "` via explicit override.");
            let d = SearchDiagnostic::language_selection(context.path.clone(), message);
            note(context, settings.language_debug, d);
            return Ok(Some((override_key, profile)));
        }
        if let Some(entry) = crate::profiles::find_canonical_language_profile(override_key.as_str()) {
            let mut message: Vec<char> = Vec::new();
            push_str(&mut message, "Selected semantic profile `");
            push_str(&mut message, entry.id.as_str());
            push_str(&mut message, "` via canonical override `");
            push_str(&mut message, override_key.as_str());
            push_str(&mut message, "`.");
            let d = SearchDiagnostic::language_selection(context.path.clone(), string_from_chars(&message));
            note(context, settings.language_debug, d);
            let id = entry.id.clone();
            return Ok(Some((id, entry.profile)));
        }
    }
    select_by_extension(settings, extension, context)
}

/// The selection from the extension (see `key_from_extension`).
fn select_by_extension(settings: &CodeAwareSettings, extension: &str, context: &mut FileContext) -> (r: Result<
    Option<(String, crate::profiles::LanguageProfile)>,
    String,
>)
    ensures
        final(context).path == old(context).path,
        final(context).root == old(context).root,
        final(context).content == old(context).content,
        final(context).semantic_skip_reasons == old(context).semantic_skip_reasons,
        !settings.language_debug && !settings.sql_trace ==> final(context).diagnostics@ == old(context).diagnostics@,
        extension_selection_holds(r, *settings, extension@, *old(context)),
{
    proof {
        reveal_strlit("sql");
    }
    if crate::text::eq_ignore_ascii_case(extension, "sql") {
        let selected_key = match select_sql_profile(settings, context) {
            Ok(k) => k,
            Err(e) => return Err(e),
        };
        if let Some(profile) = crate::profiles::get_profile(selected_key.as_str()) {
            let message = join3("Selected SQL semantic profile `", selected_key.as_str(), "` for `.sql` file.");
            let d = SearchDiagnostic::language_selection(context.path.clone(), message);
            note(context, settings.language_debug, d);
            return Ok(Some((selected_key, profile)));
        }
        let d = SearchDiagnostic::language_selection(
            context.path.clone(),
            owned("No SQL semantic profile was available after dialect selection."),
        );
        note(context, settings.language_debug, d);
        return Ok(None);
    }
    let key = crate::profiles::to_lowercase(extension);
    if let Some(profile) = crate::profiles::get_profile(key.as_str()) {
        let mut message: Vec<char> = Vec::new();
        push_str(&mut message, "Selected semantic profile `");
        push_str(&mut message, key.as_str());
        push_str(&mut message, "` from extension `.");
        push_str(&mut message, extension);
        push_str(&mut message, "`.");
        let d = SearchDiagnostic::language_selection(context.path.clone(), string_from_chars(&message));
        note(context, settings.language_debug, d);
        return Ok(Some((key, profile)));
    }
    if key.as_str().is_empty() {
        let content = match context.get_content() {
            Ok(c) => owned(c),
            Err(e) => return Err(e),
        };
        if let Some(shebang_key) = detect_shebang_key(content.as_str()) {
            if let Some(profile) = crate::profiles::get_profile(shebang_key.as_str()) {
                let message = join3("Selected semantic profile `", shebang_key.as_str(), "` from shebang detection.");
                let d = SearchDiagnostic::language_selection(context.path.clone(), message);
                note(context, settings.language_debug, d);
                return Ok(Some((shebang_key, profile)));
            }
        }
        let d = SearchDiagnostic::language_selection(
            context.path.clone(),
            owned("No semantic profile matched this extensionless file."),
        );
        note(context, settings.language_debug, d);
    } else {
        let message = join3("No semantic profile matched extension `.", extension, "`.");
        let d = SearchDiagnostic::language_selection(context.path.clone(), message);
        note(context, settings.language_debug, d);
    }
    Ok(None)
}

/// Records that semantic evaluation of the file was skipped.
pub fn push_semantic_skip(context: &mut FileContext, reason: crate::model::SemanticSkipReason, message: String)
    ensures
        final(context).path == old(context).path,
        final(context).semantic_skip_reasons@ == old(context).semantic_skip_reasons@.push(reason),
        final(context).content == old(context).content,
        final(context).sql_profile_key == old(context).sql_profile_key,
        final(context).diagnostics@.len() == old(context).diagnostics@.len() + 1,
        final(context).diagnostics@.drop_last() == old(context).diagnostics@,
        final(context).diagnostics@.last().level == crate::content::DiagnosticLevel::Warn,
        final(context).diagnostics@.last().kind == crate::content::DiagnosticKind::SemanticSkip,
        final(context).diagnostics@.last().message@ == message@,
        crate::content::opt_view(final(context).diagnostics@.last().path) == Some(old(context).path@),
{
    context.semantic_skip_reasons.push(reason);
    let d = SearchDiagnostic::semantic_skip(context.path.clone(), message);
    context.diagnostics.push(d);
}

} // verus!

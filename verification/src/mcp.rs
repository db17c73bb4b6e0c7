//! Requests as the MCP server receives them: optional arguments settled
//! into a full search request, and continuation offsets.

use crate::contracts::{
    ErrorMode, ExecutionProfile, Limits, LineEndingMode, OutputMode, PathDisplayMode, SearchRequest, SemanticMatchMode,
    SnippetMode, SqlDialectOption,
};
use crate::text::{chars_of, owned, views};
use vstd::prelude::*;

verus! {

/// Search arguments of the MCP `search` tool; every one may be left out.
#[derive(Debug, Clone)]
pub struct McpSearchArgs {
    pub query: Option<String>,
    pub root: Option<String>,
    pub presets: Option<Vec<String>>,
    pub no_ignore: Option<bool>,
    pub hidden: Option<bool>,
    pub max_depth: Option<usize>,
    pub sql_dialect: Option<SqlDialectOption>,
    pub sql_strict: Option<bool>,
    pub output: Option<OutputMode>,
    pub limits: Option<Limits>,
    pub context_lines: Option<usize>,
    pub error_mode: Option<ErrorMode>,
    pub skip_errors: Option<bool>,
    pub execution_budget_ms: Option<u64>,
    pub semantic_budget_ms: Option<u64>,
    pub max_semantic_matches_per_file: Option<usize>,
    pub language_override: Option<String>,
    pub semantic_match_mode: Option<SemanticMatchMode>,
    pub snippet_mode: Option<SnippetMode>,
    pub semantic_strict: Option<bool>,
    pub strict_path_resolution: Option<bool>,
    pub snapshot_drift_detection: Option<bool>,
    pub ignore_debug: Option<bool>,
    pub language_debug: Option<bool>,
    pub sql_trace: Option<bool>,
    pub execution_profile: Option<ExecutionProfile>,
    pub offset: Option<usize>,
    pub continuation_token: Option<String>,
    pub path_display: Option<PathDisplayMode>,
    pub line_endings: Option<LineEndingMode>,
    pub include_match_text: Option<bool>,
}

/// The value of a run of decimal digits.
pub open spec fn digits_value(s: Seq<char>) -> int
    decreases s.len(),
{
    if s.len() == 0 {
        0
    } else {
        digits_value(s.drop_last()) * 10 + (s.last() as int - '0' as int)
    }
}

/// Every character is a decimal digit.
pub open spec fn all_digits(s: Seq<char>) -> bool {
    forall|i: int| 0 <= i < s.len() ==> '0' <= #[trigger] s[i] <= '9'
}

/// What `str::parse::<usize>` gives: an optional `+`, then one or more
/// digits whose value fits.
pub open spec fn parse_usize_spec(s: Seq<char>) -> Option<int> {
    let d = if s.len() > 0 && s[0] == '+' {
        s.drop_first()
    } else {
        s
    };
    if d.len() > 0 && all_digits(d) && digits_value(d) <= usize::MAX {
        Some(digits_value(d))
    } else {
        None
    }
}

proof fn lemma_digits_prefix(s: Seq<char>, i: int)
    requires
        all_digits(s),
        0 <= i <= s.len(),
    ensures
        0 <= digits_value(s.take(i)) <= digits_value(s),
    decreases s.len() - i,
{
    if i < s.len() {
        lemma_digits_prefix(s, i + 1);
        assert(s.take(i + 1).drop_last() =~= s.take(i));
        assert(s.take(i + 1).last() == s[i]);
        lemma_digits_nonneg(s.take(i));
    } else {
        assert(s.take(i) =~= s);
        lemma_digits_nonneg(s);
    }
}

proof fn lemma_digits_nonneg(s: Seq<char>)
    requires
        all_digits(s),
    ensures
        digits_value(s) >= 0,
    decreases s.len(),
{
    if s.len() > 0 {
        assert(all_digits(s.drop_last())) by {
            assert forall|i: int| 0 <= i < s.drop_last().len() implies '0' <= #[trigger] s.drop_last()[i] <= '9' by {
                assert(s.drop_last()[i] == s[i]);
            }
        }
        lemma_digits_nonneg(s.drop_last());
    }
}

/// Parses an unsigned integer the way `str::parse::<usize>` does (see
/// `parse_usize_spec`).
pub fn parse_usize(text: &str) -> (r: Option<usize>)
    ensures
        match parse_usize_spec(text@) {
            Some(v) => r matches Some(x) && x as int == v,
            None => r is None,
        },
{
    let cs = chars_of(text);
    let start: usize = if cs.len() > 0 && cs[0] == '+' {
        1
    } else {
        0
    };
    let ghost d = cs@.skip(start as int);
    proof {
        if cs@.len() > 0 && cs@[0] == '+' {
            assert(d =~= cs@.drop_first());
        } else {
            assert(d =~= cs@);
        }
    }
    if start == cs.len() {
        return None;
    }
    let mut acc: usize = 0;
    let mut i: usize = start;
    while i < cs.len()
        invariant
            start <= i <= cs.len(),
            start < cs.len(),
            cs@ == text@,
            d == cs@.skip(start as int),
            d == (if text@.len() > 0 && text@[0] == '+' {
                text@.drop_first()
            } else {
                text@
            }),
            forall|j: int| 0 <= j < i - start ==> '0' <= #[trigger] d[j] <= '9',
            acc as int == digits_value(d.take(i - start)),
        decreases cs.len() - i,
    {
        let c = cs[i];
        if c < '0' || c > '9' {
            proof {
                assert(d[i - start] == c);
            }
            return None;
        }
        let digit = (c as u32 - '0' as u32) as usize;
        proof {
            assert(d.take(i - start + 1).drop_last() =~= d.take(i - start));
            assert(d.take(i - start + 1).last() == c);
        }
        match acc.checked_mul(10) {
            Some(m) => match m.checked_add(digit) {
                Some(v) => {
                    acc = v;
                },
                None => {
                    proof {
                        if all_digits(d) {
                            lemma_digits_prefix(d, i - start + 1);
                        }
                    }
                    return None;
                },
            },
            None => {
                proof {
                    if all_digits(d) {
                        lemma_digits_prefix(d, i - start + 1);
                        lemma_digits_nonneg(d.take(i - start));
                    }
                }
                return None;
            },
        }
        i = i + 1;
    }
    assert(d.take(i - start) =~= d);
    Some(acc)
}


/// The offset a continuation token of the form `offset:<n>` carries.
pub open spec fn continuation_offset_spec(token: Seq<char>) -> Option<int> {
    if crate::text::starts_with_spec(token, "offset:"@) {
        parse_usize_spec(token.skip(7))
    } else {
        None
    }
}

/// Reads the offset of an `offset:<n>` continuation token.
pub fn parse_continuation_offset(token: &str) -> (r: Option<usize>)
    ensures
        match continuation_offset_spec(token@) {
            Some(v) => r matches Some(x) && x as int == v,
            None => r is None,
        },
{
    proof {
        reveal_strlit("offset:");
    }
    if !crate::text::str_starts_with(token, "offset:") {
        return None;
    }
    let cs = chars_of(token);
    let rest = crate::text::slice_chars(&cs, 7, cs.len());
    assert(rest@ =~= token@.skip(7));
    parse_usize(rest.as_str())
}

/// The error for a search with neither query nor preset.
pub open spec fn empty_search_error() -> Seq<char> {
    "search requires a non-empty query or at least one preset"@
}

/// The query of a request: a non-blank query as given; empty when presets
/// carry the search; an error otherwise.
pub open spec fn normalize_query_spec(query: Option<String>, presets: Option<Vec<String>>) -> Result<Seq<char>, Seq<char>> {
    match query {
        Some(q) if crate::text::trim_spec(q@).len() > 0 => Ok(q@),
        _ => if presets matches Some(p) && p@.len() > 0 {
            Ok(Seq::<char>::empty())
        } else {
            Err(empty_search_error())
        },
    }
}

/// Settles the query of a request (see `normalize_query_spec`).
pub fn normalize_query(query: Option<String>, presets: &Option<Vec<String>>) -> (r: Result<String, String>)
    ensures
        match (r, normalize_query_spec(query, *presets)) {
            (Ok(a), Ok(b)) => a@ == b,
            (Err(a), Err(b)) => a@ == b,
            _ => false,
        },
{
    if let Some(q) = &query {
        let trimmed = crate::text::trim_str(q.as_str());
        if chars_of(trimmed.as_str()).len() > 0 {
            return Ok(q.clone());
        }
    }
    let has_presets = match presets {
        Some(p) => p.len() > 0,
        None => false,
    };
    if has_presets {
        Ok(String::new())
    } else {
        Err(owned("search requires a non-empty query or at least one preset"))
    }
}

/// The search request that MCP arguments describe: defaults for what was
/// left out, the error mode from `error_mode` or else `skip_errors`, and
/// the offset from `offset` or else the continuation token.
pub open spec fn mcp_request_spec(r: SearchRequest, a: McpSearchArgs, query: Seq<char>) -> bool {
    &&& r.query@ == query
    &&& crate::content::opt_view(r.root) == crate::content::opt_view(a.root)
    &&& views(r.presets@) == (match a.presets {
        Some(p) => views(p@),
        None => Seq::empty(),
    })
    &&& r.no_ignore == (a.no_ignore == Some(true))
    &&& r.hidden == (a.hidden == Some(true))
    &&& r.max_depth == a.max_depth
    &&& r.sql_dialect == a.sql_dialect
    &&& r.sql_strict == (a.sql_strict == Some(true))
    &&& r.output == a.output
    &&& r.limits == a.limits
    &&& r.context_lines == a.context_lines
    &&& r.error_mode == (match a.error_mode {
        Some(m) => m,
        None => match a.skip_errors {
            Some(false) => ErrorMode::FailFast,
            _ => ErrorMode::SkipErrors,
        },
    })
    &&& r.execution_budget_ms == a.execution_budget_ms
    &&& r.semantic_budget_ms == a.semantic_budget_ms
    &&& r.max_semantic_matches_per_file == a.max_semantic_matches_per_file
    &&& crate::content::opt_view(r.language_override) == crate::content::opt_view(a.language_override)
    &&& r.semantic_match_mode == (match a.semantic_match_mode {
        Some(m) => m,
        None => SemanticMatchMode::Exact,
    })
    &&& r.snippet_mode == (match a.snippet_mode {
        Some(m) => m,
        None => SnippetMode::PreserveLineEndings,
    })
    &&& r.semantic_strict == (a.semantic_strict == Some(true))
    &&& r.strict_path_resolution == (a.strict_path_resolution == Some(true))
    &&& r.snapshot_drift_detection == (a.snapshot_drift_detection != Some(false))
    &&& r.ignore_debug == (a.ignore_debug == Some(true))
    &&& r.language_debug == (a.language_debug == Some(true))
    &&& r.sql_trace == (a.sql_trace == Some(true))
    &&& r.execution_profile == a.execution_profile
    &&& r.offset == (match a.offset {
        Some(o) => o as int,
        None => match a.continuation_token {
            Some(t) => match continuation_offset_spec(t@) {
                Some(v) => v,
                None => 0,
            },
            None => 0,
        },
    })
    &&& crate::content::opt_view(r.continuation_token) == crate::content::opt_view(a.continuation_token)
    &&& r.path_display == a.path_display
    &&& r.line_endings == a.line_endings
    &&& r.include_match_text == (a.include_match_text != Some(false))
}

fn flag(b: Option<bool>, default: bool) -> (r: bool)
    ensures
        r == (match b {
            Some(x) => x,
            None => default,
        }),
{
    match b {
        Some(x) => x,
        None => default,
    }
}

fn request_offset(offset: Option<usize>, token: &Option<String>) -> (r: usize)
    ensures
        r as int == (match offset {
            Some(o) => o as int,
            None => match *token {
                Some(t) => match continuation_offset_spec(t@) {
                    Some(v) => v,
                    None => 0,
                },
                None => 0,
            },
        }),
{
    match offset {
        Some(o) => o,
        None => match token {
            Some(t) => match parse_continuation_offset(t.as_str()) {
                Some(v) => v,
                None => 0,
            },
            None => 0,
        },
    }
}

fn request_error_mode(error_mode: Option<ErrorMode>, skip_errors: Option<bool>) -> (m: ErrorMode)
    ensures
        m == (match error_mode {
            Some(m) => m,
            None => match skip_errors {
                Some(false) => ErrorMode::FailFast,
                _ => ErrorMode::SkipErrors,
            },
        }),
{
    match error_mode {
        Some(m) => m,
        None => match skip_errors {
            Some(skip) => if skip {
                ErrorMode::SkipErrors
            } else {
                ErrorMode::FailFast
            },
            None => ErrorMode::SkipErrors,
        },
    }
}

/// Builds the search request of MCP arguments (see `mcp_request_spec`); a
/// request with neither query nor preset is refused.
pub fn build_search_request(args: McpSearchArgs) -> (r: Result<SearchRequest, String>)
    ensures
        match normalize_query_spec(args.query, args.presets) {
            Ok(q) => r matches Ok(req) && mcp_request_spec(req, args, q),
            Err(e) => r matches Err(m) && m@ == e,
        },
{
    let query = match normalize_query(args.query, &args.presets) {
        Ok(q) => q,
        Err(e) => return Err(e),
    };
    let error_mode = request_error_mode(args.error_mode, args.skip_errors);
    let offset = request_offset(args.offset, &args.continuation_token);
    let presets = match args.presets {
        Some(p) => p,
        None => {
            let v: Vec<String> = Vec::new();
            assert(views(v@) =~= Seq::<Seq<char>>::empty());
            v
        },
    };
    let semantic_match_mode = match args.semantic_match_mode {
        Some(m) => m,
        None => SemanticMatchMode::Exact,
    };
    let snippet_mode = match args.snippet_mode {
        Some(m) => m,
        None => SnippetMode::PreserveLineEndings,
    };
    let req = SearchRequest {
        query,
        root: args.root,
        presets,
        no_ignore: flag(args.no_ignore, false),
        hidden: flag(args.hidden, false),
        max_depth: args.max_depth,
        sql_dialect: args.sql_dialect,
        sql_strict: flag(args.sql_strict, false),
        output: args.output,
        limits: args.limits,
        context_lines: args.context_lines,
        error_mode,
        execution_budget_ms: args.execution_budget_ms,
        semantic_budget_ms: args.semantic_budget_ms,
        max_semantic_matches_per_file: args.max_semantic_matches_per_file,
        language_override: args.language_override,
        semantic_match_mode,
        snippet_mode,
        semantic_strict: flag(args.semantic_strict, false),
        strict_path_resolution: flag(args.strict_path_resolution, false),
        snapshot_drift_detection: flag(args.snapshot_drift_detection, true),
        ignore_debug: flag(args.ignore_debug, false),
        language_debug: flag(args.language_debug, false),
        sql_trace: flag(args.sql_trace, false),
        execution_profile: args.execution_profile,
        offset,
        continuation_token: args.continuation_token,
        path_display: args.path_display,
        line_endings: args.line_endings,
        include_match_text: flag(args.include_match_text, true),
    };
    Ok(req)
}

/// The text rendering of a search response.
pub fn format_search_response_text(response: &crate::contracts::SearchResponse) -> (s: String)
    ensures
        s@ == crate::text::join_spec(crate::request::search_text_lines(*response), "\n"@),
{
    crate::request::format_search_text(response)
}

} // verus!

verus! {

/// The decimal rendering of a number is a non-empty run of digits whose
/// value is the number.
proof fn lemma_decimal_digits(n: nat)
    ensures
        crate::text::decimal(n).len() > 0,
        all_digits(crate::text::decimal(n)),
        digits_value(crate::text::decimal(n)) == n,
    decreases n,
{
    let s = crate::text::decimal(n);
    assert(digits_value(s) == digits_value(s.drop_last()) * 10 + (s.last() as int - '0' as int));
    if n < 10 {
        assert(s.drop_last() =~= Seq::<char>::empty());
        assert(digits_value(s.drop_last()) == 0);
        assert(s.last() == crate::text::digit_char(n));
        assert(crate::text::digit_char(n) as int == '0' as int + n);
    } else {
        lemma_decimal_digits(n / 10);
        let d = (n % 10) as nat;
        assert(s.drop_last() =~= crate::text::decimal(n / 10));
        assert(digits_value(s.drop_last()) == n / 10);
        assert(s.last() == crate::text::digit_char(d));
        assert(crate::text::digit_char(d) as int == '0' as int + d);
        assert(n == (n / 10) * 10 + d) by (nonlinear_arith)
            requires
                d == n % 10,
        ;
    }
}

/// The continuation token that a truncated page hands out (`offset:` and
/// the offset in decimal) reads back, through the argument parser, as the
/// offset it was made from.
pub proof fn lemma_continuation_token_round_trip(offset: usize)
    ensures
        continuation_offset_spec(crate::request::continuation_token_spec(offset)) == Some(offset as int),
{
    let digits = crate::text::decimal(offset as nat);
    let token = crate::request::continuation_token_spec(offset);
    lemma_decimal_digits(offset as nat);
    reveal_strlit("offset:");
    assert(token.take(7) =~= "offset:"@);
    assert(token.skip(7) =~= digits);
    assert('0' <= digits[0] <= '9');
}

} // verus!

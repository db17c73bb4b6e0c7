//! Reference documents: the query-language card, the SDK card, and their
//! text renderings.

use crate::contracts::{FieldDoc, FunctionDoc, RqlReference, SdkReference, TypeDoc, SCHEMA_VERSION};
use crate::predicates::{
    content_keys_spec, content_predicate_keys, metadata_keys_spec, metadata_predicate_keys, react_keys_spec,
    react_predicate_keys, semantic_keys_spec, semantic_predicate_keys, strings,
};
use crate::text::{join_spec, owned, push_str, string_from_chars, views};
use vstd::prelude::*;

verus! {

/// The names of the documented SDK functions.
pub open spec fn sdk_function_names() -> Seq<Seq<char>> {
    seq!["search_iter"@, "search"@, "search_with_stats"@, "search_path_iter"@, "search_paths"@, "explain_query"@, "SearchRuntime::with_backend"@, "execute_search_request_with_runtime"@, "execute_search_request_with_runtime_and_progress"@, "execute_search_request_with_runtime_and_cancellation"@, "repo_language_inventory_with_runtime"@, "search_async_with_runtime"@, "search_async_with_runtime_and_progress"@]
}

/// The names of the documented SDK types.
pub open spec fn sdk_type_names() -> Seq<Seq<char>> {
    seq!["SearchOptions"@, "SearchRuntime"@, "SearchBackend"@, "DiscoveryRequest"@, "DiscoveryReport"@, "BackendPathIdentity"@, "BackendMetadata"@, "SearchResult"@, "SearchReport"@, "QueryExplanation"@, "Match"@]
}

/// The signatures of the documented SDK functions.
pub open spec fn sdk_function_signatures() -> Seq<Seq<char>> {
    seq!["search_iter(query: &str, options: SearchOptions) -> Result<SearchResultIterator>"@, "search(query: &str, options: SearchOptions) -> Result<Vec<SearchResult>>"@, "search_with_stats(query: &str, options: SearchOptions) -> Result<SearchReport>"@, "search_path_iter(query: &str, options: SearchOptions) -> Result<SearchPathIterator>"@, "search_paths(query: &str, options: SearchOptions) -> Result<Vec<PathBuf>>"@, "explain_query(query: &str, options: &SearchOptions) -> Result<QueryExplanation>"@, "SearchRuntime::with_backend(backend: Arc<dyn SearchBackend>) -> SearchRuntime"@, "execute_search_request_with_runtime(runtime: SearchRuntime, request: &SearchRequest) -> Result<SearchResponse>"@, "execute_search_request_with_runtime_and_progress(runtime: SearchRuntime, request: &SearchRequest, progress: impl FnMut(&ProgressEvent)) -> Result<SearchResponse>"@, "execute_search_request_with_runtime_and_cancellation(runtime: SearchRuntime, request: &SearchRequest, cancellation: Option<SearchCancellationToken>, session_id: &str, progress: impl FnMut(&ProgressEvent)) -> Result<SearchResponse>"@, "repo_language_inventory_with_runtime(runtime: &SearchRuntime, options: &SearchOptions) -> Vec<RepoLanguageCount>"@, "search_async_with_runtime(runtime: SearchRuntime, query: &str, options: SearchOptions) -> Result<SearchAsyncStream>"@, "search_async_with_runtime_and_progress(runtime: SearchRuntime, query: &str, options: SearchOptions, progress: impl FnMut(ProgressEvent) + Send + 'static) -> Result<SearchAsyncStream>"@]
}

/// The documented fields of each SDK type, by name.
pub open spec fn sdk_type_fields() -> Seq<Seq<Seq<char>>> {
    seq![seq!["root"@, "presets"@, "no_ignore"@, "hidden"@, "max_depth"@, "sql_dialect"@], Seq::<Seq<char>>::empty(), seq!["normalize_root(...)"@, "discover(...)"@, "normalize_path(...)"@, "stat(...)"@, "read_bytes(...)"@], seq!["root"@, "display_root"@, "no_ignore"@, "hidden"@], seq!["candidates"@, "diagnostics"@], seq!["display_path"@, "resolved_path"@, "root_relative_path"@], seq!["size_bytes"@, "modified_unix_millis"@, "permissions_display"@, "stable_token"@], seq!["path"@, "matches"@, "content"@, "content_state"@, "diagnostics"@], seq!["results"@, "stats"@, "diagnostics"@], seq!["effective_query"@, "estimated_cost"@], seq!["start_line"@, "end_line"@, "start_column"@, "end_column"@, "byte_range"@, "text"@]]
}

/// The descriptions of the documented SDK functions, in order.
pub open spec fn sdk_function_descriptions() -> Seq<Seq<char>> {
    seq![
        "Streaming iterator over SearchResult. Preferred for large repos."@,
        "Collects all results into memory."@,
        "Collects results and returns engine statistics plus diagnostics."@,
        "Streams matching paths without loading file content."@,
        "Collects matching paths without materializing SearchResult content."@,
        "Explains preset expansion, predicate classes, and evaluation stages."@,
        "Constructs a runtime backed by a custom filesystem or virtual-workspace adapter."@,
        "Runs contract/request searches against a caller-supplied backend runtime."@,
        "Runs contract/request searches against a caller-supplied backend runtime and emits progress events."@,
        "Runs contract/request searches against a caller-supplied backend runtime with explicit cancellation and session identity."@,
        "Builds planner/preflight language inventory against a caller-supplied backend runtime."@,
        "Starts async streaming search against a caller-supplied backend runtime."@,
        "Starts async streaming search against a caller-supplied backend runtime and emits progress events."@,
    ]
}

/// The descriptions of the documented SDK types, in order.
pub open spec fn sdk_type_descriptions() -> Seq<Seq<char>> {
    seq![
        "Search configuration for SDK calls."@,
        "Backend-bound search session wrapper for real filesystems or virtual workspaces."@,
        "Trait implemented by real-fs or virtual-workspace adapters that provide discovery, normalization, metadata, and bytes."@,
        "Search-oriented discovery input passed to SearchBackend::discover(...)."@,
        "Candidate file identities and skip counters returned by backend discovery."@,
        "Stable backend path identity used for display, resolution, and root-relative projections."@,
        "Backend-neutral metadata used by predicates, snapshots, request payloads, and formatters."@,
        "Result for a matched file."@,
        "Collected results plus search stats and diagnostics."@,
        "Planner output for effective queries and predicate staging."@,
        "Single match span within a file."@,
    ]
}

/// The documented fields of each SDK type: name, description and default.
pub open spec fn sdk_field_docs() -> Seq<Seq<(Seq<char>, Seq<char>, Seq<char>)>> {
    seq![
        seq![
            ("root"@, "Root directory to search."@, "\".\""@),
            ("presets"@, "Named presets to apply (e.g., rust, python)."@, "[]"@),
            ("no_ignore"@, "If true, ignore .gitignore/.rdumpignore."@, "false"@),
            ("hidden"@, "If true, include hidden files and directories."@, "false"@),
            ("max_depth"@, "Maximum directory depth."@, "None"@),
            ("sql_dialect"@, "Override SQL dialect for .sql files."@, "None"@),
        ],
        Seq::<(Seq<char>, Seq<char>, Seq<char>)>::empty(),
        seq![
            ("normalize_root(...)"@, "Normalizes a caller-supplied root into a backend-stable root path."@, ""@),
            ("discover(...)"@, "Enumerates candidate files and skip diagnostics for one search session."@, ""@),
            ("normalize_path(...)"@, "Converts a display or resolved path into backend-normalized identity."@, ""@),
            ("stat(...)"@, "Returns backend metadata used for predicates, snapshots, and formatters."@, ""@),
            ("read_bytes(...)"@, "Returns raw file bytes for content loading and semantic evaluation."@, ""@),
        ],
        seq![
            ("root"@, "Normalized backend root for candidate enumeration."@, ""@),
            ("display_root"@, "Caller-facing root projection used for display paths."@, ""@),
            ("no_ignore"@, "Disables ignore-file filtering when true."@, "false"@),
            ("hidden"@, "Includes hidden files when true."@, "false"@),
        ],
        seq![
            ("candidates"@, "Backend-normalized file identities eligible for evaluation."@, "[]"@),
            ("diagnostics"@, "Discovery-time warnings or errors."@, "[]"@),
        ],
        seq![
            ("display_path"@, "Caller-facing path projection."@, ""@),
            ("resolved_path"@, "Backend-stable resolved path, not necessarily a host canonical path."@, ""@),
            ("root_relative_path"@, "Path relative to the backend root when available."@, "None"@),
        ],
        seq![
            ("size_bytes"@, "File length in bytes."@, "0"@),
            ("modified_unix_millis"@, "Last-modified timestamp when available."@, "None"@),
            ("permissions_display"@, "Human-readable permissions string."@, ""@),
            ("stable_token"@, "Optional backend-supplied stable identity token for drift detection and fingerprints."@, "None"@),
        ],
        seq![
            ("path"@, "Path to matched file."@, ""@),
            ("matches"@, "Match hunks (empty for whole-file matches)."@, "[]"@),
            ("content"@, "Full file content."@, ""@),
            ("content_state"@, "Whether content was loaded, lossy-decoded, or skipped."@, "loaded"@),
            ("diagnostics"@, "Per-result warnings collected while loading content."@, "[]"@),
        ],
        seq![
            ("results"@, "Collected SearchResult values."@, "[]"@),
            ("stats"@, "Engine-level counts for discovery and matching."@, ""@),
            ("diagnostics"@, "Engine and content diagnostics aggregated across the search."@, "[]"@),
        ],
        seq![
            ("effective_query"@, "Query after preset expansion."@, ""@),
            ("estimated_cost"@, "Rough low/medium/high cost classification."@, "low"@),
        ],
        seq![
            ("start_line"@, "1-indexed start line."@, ""@),
            ("end_line"@, "1-indexed end line."@, ""@),
            ("start_column"@, "0-indexed start column."@, ""@),
            ("end_column"@, "0-indexed end column."@, ""@),
            ("byte_range"@, "Byte range within file content."@, ""@),
            ("text"@, "Matched text (may be shortened)."@, ""@),
        ],
    ]
}

/// The notes of the SDK reference.
pub open spec fn sdk_notes() -> Seq<Seq<char>> {
    seq!["Use search_iter for large repos to avoid loading all results at once."@, "Use search_path_iter/search_paths when you only need matching file paths."@, "Implement SearchBackend in external adapters when you need rdump to search a virtual workspace."@, "Use explain_query to inspect preset expansion and evaluation stages before running a search."@, "RQL supports logical operators &, |, ! and parentheses."@]
}

/// The metadata predicates listed in the query reference: all but
/// `path_exact`.
pub open spec fn listed_metadata_keys() -> Seq<Seq<char>> {
    seq!["ext"@, "name"@, "path"@, "in"@, "size"@, "modified"@]
}

/// The notes of the query reference.
pub open spec fn rql_notes() -> Seq<Seq<char>> {
    seq![
        "Quote values with spaces using single or double quotes."@,
        "Examples: contains:'fn main' or name:'test file.rs'."@,
        "Implicit AND is not supported; use '&'."@,
        "Use backslashes inside quoted values when you need literal quote characters."@,
        "Glob characters remain literal inside quoted predicate values unless the predicate itself is glob-aware."@,
        "Unicode is preserved in quoted values; prefer exact quotes instead of shell escaping when possible."@,
    ]
}

/// The examples of the query reference.
pub open spec fn rql_examples() -> Seq<Seq<char>> {
    seq![
        "ext:rs & func:main"@,
        "path:src & (struct:User | enum:UserState)"@,
        "import:serde & contains:derive"@,
        "ext:tsx & component:Button & hook:useState"@,
        "modified:<2d & size:>10kb"@,
        "contains:\"literal * glob\""@,
        "name:'unicode_名前.py'"@,
        "matches:'^fn\\\\s+main'"@,
    ]
}

/// The query-language reference: operators, notes, aliases, the predicate
/// inventory and examples.
pub open spec fn rql_reference_spec(r: RqlReference) -> bool {
    &&& r.schema_version@ == SCHEMA_VERSION@
    &&& views(r.operators@) == seq!["AND: &"@, "OR: |"@, "NOT: !"@, "Grouping: ( )"@]
    &&& views(r.notes@) == rql_notes()
    &&& views(r.aliases@) == seq!["contains -> c"@, "matches -> m"@]
    &&& views(r.deprecated_predicates@) == seq!["content -> contains"@]
    &&& views(r.metadata_predicates@) == listed_metadata_keys()
    &&& views(r.content_predicates@) == content_keys_spec()
    &&& views(r.semantic_predicates@) == semantic_keys_spec()
    &&& views(r.react_predicates@) == react_keys_spec()
    &&& views(r.examples@) == rql_examples()
}

/// `s` without the items equal to `n`.
pub open spec fn drop_name(s: Seq<Seq<char>>, n: Seq<char>) -> Seq<Seq<char>>
    decreases s.len(),
{
    if s.len() == 0 {
        s
    } else if s.last() == n {
        drop_name(s.drop_last(), n)
    } else {
        drop_name(s.drop_last(), n).push(s.last())
    }
}

/// Removes `path_exact` from predicate names.
fn without_path_exact(v: Vec<String>) -> (r: Vec<String>)
    ensures
        views(r@) == drop_name(views(v@), "path_exact"@),
{
    let mut r: Vec<String> = Vec::new();
    let mut i: usize = 0;
    while i < v.len()
        invariant
            i <= v.len(),
            views(r@) == drop_name(views(v@).take(i as int), "path_exact"@),
        decreases v.len() - i,
    {
        proof {
            assert(views(v@).take(i + 1).drop_last() =~= views(v@).take(i as int));
            assert(views(v@).take(i + 1).last() == v@[i as int]@);
        }
        if !crate::text::str_eq(v[i].as_str(), "path_exact") {
            let ghost r0 = r@;
            r.push(v[i].clone());
            proof {
                crate::text::lemma_views_push(r0, r@.last());
            }
        }
        i = i + 1;
    }
    assert(views(v@).take(i as int) =~= views(v@));
    r
}

/// The query-language reference card.
pub fn build_rql_reference() -> (r: RqlReference)
    ensures
        rql_reference_spec(r),
{
    let metadata_predicates = without_path_exact(metadata_predicate_keys());
    proof {
        reveal_strlit("path_exact");
        reveal_strlit("ext");
        reveal_strlit("name");
        reveal_strlit("path");
        reveal_strlit("in");
        reveal_strlit("size");
        reveal_strlit("modified");
        let m = metadata_keys_spec();
        let pe = "path_exact"@;
        let s1 = seq!["ext"@];
        let s2 = seq!["ext"@, "name"@];
        let s3 = seq!["ext"@, "name"@, "path"@];
        let s4 = seq!["ext"@, "name"@, "path"@, "path_exact"@];
        let s5 = seq!["ext"@, "name"@, "path"@, "path_exact"@, "in"@];
        let s6 = seq!["ext"@, "name"@, "path"@, "path_exact"@, "in"@, "size"@];
        assert(s1.drop_last() =~= Seq::<Seq<char>>::empty());
        assert(drop_name(Seq::<Seq<char>>::empty(), pe) =~= Seq::<Seq<char>>::empty());
        assert(pe.len() == 10);
        assert("ext"@.len() == 3 && "name"@.len() == 4 && "path"@.len() == 4 && "in"@.len() == 2);
        assert("size"@.len() == 4 && "modified"@.len() == 8);
        assert("ext"@ != pe && "name"@ != pe && "path"@ != pe && "in"@ != pe && "size"@ != pe && "modified"@ != pe);
        assert(drop_name(s1, pe) =~= seq!["ext"@]);
        assert(s2.drop_last() =~= s1);
        assert(drop_name(s2, pe) =~= seq!["ext"@, "name"@]);
        assert(s3.drop_last() =~= s2);
        assert(drop_name(s3, pe) =~= seq!["ext"@, "name"@, "path"@]);
        assert(s4.drop_last() =~= s3);
        assert(drop_name(s4, pe) =~= seq!["ext"@, "name"@, "path"@]);
        assert(s5.drop_last() =~= s4);
        assert(drop_name(s5, pe) =~= seq!["ext"@, "name"@, "path"@, "in"@]);
        assert(s6.drop_last() =~= s5);
        assert(drop_name(s6, pe) =~= seq!["ext"@, "name"@, "path"@, "in"@, "size"@]);
        assert(m.drop_last() =~= s6);
        assert(drop_name(m, "path_exact"@) =~= listed_metadata_keys());
    }
    let r = RqlReference {
        schema_version: owned(SCHEMA_VERSION),
        operators: strings(&vec!["AND: &", "OR: |", "NOT: !", "Grouping: ( )"]),
        notes: strings(
            &vec![
                "Quote values with spaces using single or double quotes.",
                "Examples: contains:'fn main' or name:'test file.rs'.",
                "Implicit AND is not supported; use '&'.",
                "Use backslashes inside quoted values when you need literal quote characters.",
                "Glob characters remain literal inside quoted predicate values unless the predicate itself is glob-aware.",
                "Unicode is preserved in quoted values; prefer exact quotes instead of shell escaping when possible.",
            ],
        ),
        aliases: strings(&vec!["contains -> c", "matches -> m"]),
        deprecated_predicates: strings(&vec!["content -> contains"]),
        metadata_predicates,
        content_predicates: content_predicate_keys(),
        semantic_predicates: semantic_predicate_keys(),
        react_predicates: react_predicate_keys(),
        examples: strings(
            &vec![
                "ext:rs & func:main",
                "path:src & (struct:User | enum:UserState)",
                "import:serde & contains:derive",
                "ext:tsx & component:Button & hook:useState",
                "modified:<2d & size:>10kb",
                "contains:\"literal * glob\"",
                "name:'unicode_名前.py'",
                "matches:'^fn\\\\s+main'",
            ],
        ),
    };
    assert(views(r.operators@) =~= seq!["AND: &"@, "OR: |"@, "NOT: !"@, "Grouping: ( )"@]);
    assert(views(r.aliases@) =~= seq!["contains -> c"@, "matches -> m"@]);
    assert(views(r.deprecated_predicates@) =~= seq!["content -> contains"@]);
    assert(views(r.examples@) =~= rql_examples());
    assert(views(r.notes@) =~= rql_notes());
    r
}

pub fn build_sdk_reference() -> (r: SdkReference)
    ensures
        r.schema_version@ == SCHEMA_VERSION@,
        r.functions@.map_values(|f: FunctionDoc| f.name@) == sdk_function_names(),
        r.types@.map_values(|t: TypeDoc| t.name@) == sdk_type_names(),
        r.functions@.map_values(|f: FunctionDoc| f.signature@) == sdk_function_signatures(),
        r.types@.map_values(|t: TypeDoc| t.fields@.map_values(|f: FieldDoc| f.name@)) == sdk_type_fields(),
        r.functions@.map_values(|f: FunctionDoc| f.description@) == sdk_function_descriptions(),
        r.types@.map_values(|t: TypeDoc| t.description@) == sdk_type_descriptions(),
        r.types@.map_values(|t: TypeDoc| t.fields@.map_values(|f: FieldDoc| (f.name@, f.description@, f.default@)))
            == sdk_field_docs(),
        views(r.notes@) == sdk_notes(),
{
    let functions = vec![
        FunctionDoc {
            name: owned("search_iter"),
            signature:
                owned("search_iter(query: &str, options: SearchOptions) -> Result<SearchResultIterator>"),
            description: owned("Streaming iterator over SearchResult. Preferred for large repos."),
        },
        FunctionDoc {
            name: owned("search"),
            signature: owned("search(query: &str, options: SearchOptions) -> Result<Vec<SearchResult>>"),
            description: owned("Collects all results into memory."),
        },
        FunctionDoc {
            name: owned("search_with_stats"),
            signature:
                owned("search_with_stats(query: &str, options: SearchOptions) -> Result<SearchReport>"),
            description: owned("Collects results and returns engine statistics plus diagnostics."),
        },
        FunctionDoc {
            name: owned("search_path_iter"),
            signature:
                owned("search_path_iter(query: &str, options: SearchOptions) -> Result<SearchPathIterator>"),
            description: owned("Streams matching paths without loading file content."),
        },
        FunctionDoc {
            name: owned("search_paths"),
            signature: owned("search_paths(query: &str, options: SearchOptions) -> Result<Vec<PathBuf>>"),
            description: owned("Collects matching paths without materializing SearchResult content."),
        },
        FunctionDoc {
            name: owned("explain_query"),
            signature:
                owned("explain_query(query: &str, options: &SearchOptions) -> Result<QueryExplanation>"),
            description: owned("Explains preset expansion, predicate classes, and evaluation stages."),
        },
        FunctionDoc {
            name: owned("SearchRuntime::with_backend"),
            signature:
                owned("SearchRuntime::with_backend(backend: Arc<dyn SearchBackend>) -> SearchRuntime"),
            description:
                owned("Constructs a runtime backed by a custom filesystem or virtual-workspace adapter."),
        },
        FunctionDoc {
            name: owned("execute_search_request_with_runtime"),
            signature:
                owned("execute_search_request_with_runtime(runtime: SearchRuntime, request: &SearchRequest) -> Result<SearchResponse>"),
            description:
                owned("Runs contract/request searches against a caller-supplied backend runtime."),
        },
        FunctionDoc {
            name: owned("execute_search_request_with_runtime_and_progress"),
            signature:
                owned("execute_search_request_with_runtime_and_progress(runtime: SearchRuntime, request: &SearchRequest, progress: impl FnMut(&ProgressEvent)) -> Result<SearchResponse>"),
            description:
                owned("Runs contract/request searches against a caller-supplied backend runtime and emits progress events."),
        },
        FunctionDoc {
            name: owned("execute_search_request_with_runtime_and_cancellation"),
            signature:
                owned("execute_search_request_with_runtime_and_cancellation(runtime: SearchRuntime, request: &SearchRequest, cancellation: Option<SearchCancellationToken>, session_id: &str, progress: impl FnMut(&ProgressEvent)) -> Result<SearchResponse>"),
            description:
                owned("Runs contract/request searches against a caller-supplied backend runtime with explicit cancellation and session identity."),
        },
        FunctionDoc {
            name: owned("repo_language_inventory_with_runtime"),
            signature:
                owned("repo_language_inventory_with_runtime(runtime: &SearchRuntime, options: &SearchOptions) -> Vec<RepoLanguageCount>"),
            description:
                owned("Builds planner/preflight language inventory against a caller-supplied backend runtime."),
        },
        FunctionDoc {
            name: owned("search_async_with_runtime"),
            signature:
                owned("search_async_with_runtime(runtime: SearchRuntime, query: &str, options: SearchOptions) -> Result<SearchAsyncStream>"),
            description:
                owned("Starts async streaming search against a caller-supplied backend runtime."),
        },
        FunctionDoc {
            name: owned("search_async_with_runtime_and_progress"),
            signature:
                owned("search_async_with_runtime_and_progress(runtime: SearchRuntime, query: &str, options: SearchOptions, progress: impl FnMut(ProgressEvent) + Send + 'static) -> Result<SearchAsyncStream>"),
            description:
                owned("Starts async streaming search against a caller-supplied backend runtime and emits progress events."),
        },
    ];

    let search_options_fields = vec![
        FieldDoc {
            name: owned("root"),
            description: owned("Root directory to search."),
            default: owned("\".\""),
        },
        FieldDoc {
            name: owned("presets"),
            description: owned("Named presets to apply (e.g., rust, python)."),
            default: owned("[]"),
        },
        FieldDoc {
            name: owned("no_ignore"),
            description: owned("If true, ignore .gitignore/.rdumpignore."),
            default: owned("false"),
        },
        FieldDoc {
            name: owned("hidden"),
            description: owned("If true, include hidden files and directories."),
            default: owned("false"),
        },
        FieldDoc {
            name: owned("max_depth"),
            description: owned("Maximum directory depth."),
            default: owned("None"),
        },
        FieldDoc {
            name: owned("sql_dialect"),
            description: owned("Override SQL dialect for .sql files."),
            default: owned("None"),
        },
    ];

    let result_fields = vec![
        FieldDoc {
            name: owned("path"),
            description: owned("Path to matched file."),
            default: owned(""),
        },
        FieldDoc {
            name: owned("matches"),
            description: owned("Match hunks (empty for whole-file matches)."),
            default: owned("[]"),
        },
        FieldDoc {
            name: owned("content"),
            description: owned("Full file content."),
            default: owned(""),
        },
        FieldDoc {
            name: owned("content_state"),
            description: owned("Whether content was loaded, lossy-decoded, or skipped."),
            default: owned("loaded"),
        },
        FieldDoc {
            name: owned("diagnostics"),
            description: owned("Per-result warnings collected while loading content."),
            default: owned("[]"),
        },
    ];

    let match_fields = vec![
        FieldDoc {
            name: owned("start_line"),
            description: owned("1-indexed start line."),
            default: owned(""),
        },
        FieldDoc {
            name: owned("end_line"),
            description: owned("1-indexed end line."),
            default: owned(""),
        },
        FieldDoc {
            name: owned("start_column"),
            description: owned("0-indexed start column."),
            default: owned(""),
        },
        FieldDoc {
            name: owned("end_column"),
            description: owned("0-indexed end column."),
            default: owned(""),
        },
        FieldDoc {
            name: owned("byte_range"),
            description: owned("Byte range within file content."),
            default: owned(""),
        },
        FieldDoc {
            name: owned("text"),
            description: owned("Matched text (may be shortened)."),
            default: owned(""),
        },
    ];

    let types = vec![
        TypeDoc {
            name: owned("SearchOptions"),
            description: owned("Search configuration for SDK calls."),
            fields: search_options_fields,
        },
        TypeDoc {
            name: owned("SearchRuntime"),
            description:
                owned("Backend-bound search session wrapper for real filesystems or virtual workspaces."),
            fields: vec![],
        },
        TypeDoc {
            name: owned("SearchBackend"),
            description:
                owned("Trait implemented by real-fs or virtual-workspace adapters that provide discovery, normalization, metadata, and bytes."),
            fields: vec![
                FieldDoc {
                    name: owned("normalize_root(...)"),
                    description:
                        owned("Normalizes a caller-supplied root into a backend-stable root path."),
                    default: owned(""),
                },
                FieldDoc {
                    name: owned("discover(...)"),
                    description:
                        owned("Enumerates candidate files and skip diagnostics for one search session."),
                    default: owned(""),
                },
                FieldDoc {
                    name: owned("normalize_path(...)"),
                    description:
                        owned("Converts a display or resolved path into backend-normalized identity."),
                    default: owned(""),
                },
                FieldDoc {
                    name: owned("stat(...)"),
                    description:
                        owned("Returns backend metadata used for predicates, snapshots, and formatters."),
                    default: owned(""),
                },
                FieldDoc {
                    name: owned("read_bytes(...)"),
                    description:
                        owned("Returns raw file bytes for content loading and semantic evaluation."),
                    default: owned(""),
                },
            ],
        },
        TypeDoc {
            name: owned("DiscoveryRequest"),
            description:
                owned("Search-oriented discovery input passed to SearchBackend::discover(...)."),
            fields: vec![
                FieldDoc {
                    name: owned("root"),
                    description: owned("Normalized backend root for candidate enumeration."),
                    default: owned(""),
                },
                FieldDoc {
                    name: owned("display_root"),
                    description: owned("Caller-facing root projection used for display paths."),
                    default: owned(""),
                },
                FieldDoc {
                    name: owned("no_ignore"),
                    description: owned("Disables ignore-file filtering when true."),
                    default: owned("false"),
                },
                FieldDoc {
                    name: owned("hidden"),
                    description: owned("Includes hidden files when true."),
                    default: owned("false"),
                },
            ],
        },
        TypeDoc {
            name: owned("DiscoveryReport"),
            description:
                owned("Candidate file identities and skip counters returned by backend discovery."),
            fields: vec![
                FieldDoc {
                    name: owned("candidates"),
                    description: owned("Backend-normalized file identities eligible for evaluation."),
                    default: owned("[]"),
                },
                FieldDoc {
                    name: owned("diagnostics"),
                    description: owned("Discovery-time warnings or errors."),
                    default: owned("[]"),
                },
            ],
        },
        TypeDoc {
            name: owned("BackendPathIdentity"),
            description:
                owned("Stable backend path identity used for display, resolution, and root-relative projections."),
            fields: vec![
                FieldDoc {
                    name: owned("display_path"),
                    description: owned("Caller-facing path projection."),
                    default: owned(""),
                },
                FieldDoc {
                    name: owned("resolved_path"),
                    description: owned("Backend-stable resolved path, not necessarily a host canonical path."),
                    default: owned(""),
                },
                FieldDoc {
                    name: owned("root_relative_path"),
                    description: owned("Path relative to the backend root when available."),
                    default: owned("None"),
                },
            ],
        },
        TypeDoc {
            name: owned("BackendMetadata"),
            description:
                owned("Backend-neutral metadata used by predicates, snapshots, request payloads, and formatters."),
            fields: vec![
                FieldDoc {
                    name: owned("size_bytes"),
                    description: owned("File length in bytes."),
                    default: owned("0"),
                },
                FieldDoc {
                    name: owned("modified_unix_millis"),
                    description: owned("Last-modified timestamp when available."),
                    default: owned("None"),
                },
                FieldDoc {
                    name: owned("permissions_display"),
                    description: owned("Human-readable permissions string."),
                    default: owned(""),
                },
                FieldDoc {
                    name: owned("stable_token"),
                    description:
                        owned("Optional backend-supplied stable identity token for drift detection and fingerprints."),
                    default: owned("None"),
                },
            ],
        },
        TypeDoc {
            name: owned("SearchResult"),
            description: owned("Result for a matched file."),
            fields: result_fields,
        },
        TypeDoc {
            name: owned("SearchReport"),
            description: owned("Collected results plus search stats and diagnostics."),
            fields: vec![
                FieldDoc {
                    name: owned("results"),
                    description: owned("Collected SearchResult values."),
                    default: owned("[]"),
                },
                FieldDoc {
                    name: owned("stats"),
                    description: owned("Engine-level counts for discovery and matching."),
                    default: owned(""),
                },
                FieldDoc {
                    name: owned("diagnostics"),
                    description: owned("Engine and content diagnostics aggregated across the search."),
                    default: owned("[]"),
                },
            ],
        },
        TypeDoc {
            name: owned("QueryExplanation"),
            description: owned("Planner output for effective queries and predicate staging."),
            fields: vec![
                FieldDoc {
                    name: owned("effective_query"),
                    description: owned("Query after preset expansion."),
                    default: owned(""),
                },
                FieldDoc {
                    name: owned("estimated_cost"),
                    description: owned("Rough low/medium/high cost classification."),
                    default: owned("low"),
                },
            ],
        },
        TypeDoc {
            name: owned("Match"),
            description: owned("Single match span within a file."),
            fields: match_fields,
        },
    ];

    let notes: Vec<String> = strings(&vec!["Use search_iter for large repos to avoid loading all results at once.",
        "Use search_path_iter/search_paths when you only need matching file paths.",
        "Implement SearchBackend in external adapters when you need rdump to search a virtual workspace.",
        "Use explain_query to inspect preset expansion and evaluation stages before running a search.",
        "RQL supports logical operators &, |, ! and parentheses."]);

    assert(notes@.len() == views(notes@).len());
    let r = SdkReference { schema_version: owned(SCHEMA_VERSION), functions, types, notes };
    assert(r.functions@.map_values(|f: FunctionDoc| f.name@) =~= sdk_function_names());
    assert(r.types@.map_values(|t: TypeDoc| t.name@) =~= sdk_type_names());
    assert(r.functions@.map_values(|f: FunctionDoc| f.signature@) =~= sdk_function_signatures());
    assert(r.types@.map_values(|t: TypeDoc| t.fields@.map_values(|f: FieldDoc| f.name@)) =~~= sdk_type_fields());
    assert(r.functions@.map_values(|f: FunctionDoc| f.description@) =~= sdk_function_descriptions());
    assert(r.types@.map_values(|t: TypeDoc| t.description@) =~= sdk_type_descriptions());
    assert(r.types@.map_values(|t: TypeDoc| t.fields@.map_values(|f: FieldDoc| (f.name@, f.description@, f.default@)))
        =~~= sdk_field_docs());
    assert(views(r.notes@) =~= sdk_notes());
    r
}


/// Lines `- item` for each item.
pub open spec fn bullets(items: Seq<Seq<char>>) -> Seq<Seq<char>> {
    items.map_values(|x: Seq<char>| "- "@ + x)
}

/// The lines of the query-language reference text.
pub open spec fn rql_text_lines(r: RqlReference) -> Seq<Seq<char>> {
    seq!["RQL Operators:"@] + bullets(views(r.operators@)) + seq![""@, "Notes:"@] + bullets(views(r.notes@)) + seq![
        ""@,
        "Metadata predicates:"@,
        join_spec(views(r.metadata_predicates@), ", "@),
        ""@,
        "Content predicates:"@,
        join_spec(views(r.content_predicates@), ", "@),
        ""@,
        "Semantic predicates:"@,
        join_spec(views(r.semantic_predicates@), ", "@),
        ""@,
        "React predicates:"@,
        join_spec(views(r.react_predicates@), ", "@),
        ""@,
        "Examples:"@,
    ] + bullets(views(r.examples@))
}

/// Appends `line` to `lines`.
fn push_line(lines: &mut Vec<String>, line: String)
    ensures
        views(final(lines)@) == views(old(lines)@).push(line@),
{
    let ghost before = lines@;
    lines.push(line);
    proof {
        crate::text::lemma_views_push(before, line);
    }
}

/// `a` followed by `b`.
fn cat2(a: &str, b: &str) -> (s: String)
    ensures
        s@ == a@ + b@,
{
    let mut out: Vec<char> = Vec::new();
    push_str(&mut out, a);
    push_str(&mut out, b);
    string_from_chars(&out)
}

/// Appends a bullet line for each item.
fn push_bullets(lines: &mut Vec<String>, items: &Vec<String>)
    ensures
        views(final(lines)@) == views(old(lines)@) + bullets(views(items@)),
{
    let mut i: usize = 0;
    assert(views(old(lines)@) + bullets(views(items@).take(0)) =~= views(old(lines)@));
    while i < items.len()
        invariant
            i <= items.len(),
            views(lines@) == views(old(lines)@) + bullets(views(items@).take(i as int)),
        decreases items.len() - i,
    {
        push_line(lines, cat2("- ", items[i].as_str()));
        i = i + 1;
        assert(views(lines@) =~= views(old(lines)@) + bullets(views(items@).take(i as int)));
    }
    assert(views(items@).take(i as int) =~= views(items@));
}

/// Renders a query-language reference as text.
pub fn format_rql_reference(r: &RqlReference) -> (s: String)
    ensures
        s@ == join_spec(rql_text_lines(*r), "\n"@),
{
    let mut lines: Vec<String> = Vec::new();
    push_line(&mut lines, owned("RQL Operators:"));
    push_bullets(&mut lines, &r.operators);
    push_line(&mut lines, owned(""));
    push_line(&mut lines, owned("Notes:"));
    push_bullets(&mut lines, &r.notes);
    let ghost mid = views(lines@);
    push_line(&mut lines, owned(""));
    push_line(&mut lines, owned("Metadata predicates:"));
    push_line(&mut lines, crate::text::join_strings(&r.metadata_predicates, ", "));
    push_line(&mut lines, owned(""));
    push_line(&mut lines, owned("Content predicates:"));
    push_line(&mut lines, crate::text::join_strings(&r.content_predicates, ", "));
    push_line(&mut lines, owned(""));
    push_line(&mut lines, owned("Semantic predicates:"));
    push_line(&mut lines, crate::text::join_strings(&r.semantic_predicates, ", "));
    push_line(&mut lines, owned(""));
    push_line(&mut lines, owned("React predicates:"));
    push_line(&mut lines, crate::text::join_strings(&r.react_predicates, ", "));
    push_line(&mut lines, owned(""));
    push_line(&mut lines, owned("Examples:"));
    push_bullets(&mut lines, &r.examples);
    assert(views(lines@) =~= rql_text_lines(*r));
    crate::text::join_strings(&lines, "\n")
}

/// The query-language reference text opens with its operators heading and
/// holds the examples heading.
pub proof fn lemma_rql_text_headings(r: RqlReference)
    ensures
        crate::text::starts_with_spec(join_spec(rql_text_lines(r), "\n"@), "RQL Operators:"@),
        crate::text::has_substring(join_spec(rql_text_lines(r), "\n"@), "Examples:"@),
{
    let lines = rql_text_lines(r);
    let k: int = (1 + views(r.operators@).len() + 2 + views(r.notes@).len() + 13) as int;
    assert(lines[k] == "Examples:"@);
    crate::text::lemma_join_contains_run(lines, "\n"@, 0, 1);
    crate::text::lemma_join_contains_run(lines, "\n"@, k, k + 1);
    assert(lines.subrange(0, 1) =~= seq!["RQL Operators:"@]);
    assert(lines.subrange(k, k + 1) =~= seq!["Examples:"@]);
}

/// The query-language reference as text.
pub fn format_rql_reference_text() -> (s: String)
    ensures
        exists|r: RqlReference| rql_reference_spec(r) && s@ == join_spec(rql_text_lines(r), "\n"@),
        crate::text::starts_with_spec(s@, "RQL Operators:"@),
        crate::text::has_substring(s@, "Examples:"@),
{
    let r = build_rql_reference();
    proof {
        lemma_rql_text_headings(r);
    }
    format_rql_reference(&r)
}

/// The text line of a documented field.
pub open spec fn field_line(f: FieldDoc) -> Seq<char> {
    if f.default@.len() == 0 {
        "  - "@ + f.name@ + ": "@ + f.description@
    } else {
        "  - "@ + f.name@ + ": "@ + f.description@ + " (default: "@ + f.default@ + ")"@
    }
}

/// The text lines of a documented function.
pub open spec fn function_lines(f: FunctionDoc) -> Seq<Seq<char>> {
    seq!["- "@ + f.name@ + ": "@ + f.signature@, "  "@ + f.description@]
}

/// The text lines of a documented type.
pub open spec fn type_lines(t: TypeDoc) -> Seq<Seq<char>> {
    seq!["- "@ + t.name@ + ": "@ + t.description@] + t.fields@.map_values(|f: FieldDoc| field_line(f))
}

/// The lines of the SDK reference text.
pub open spec fn sdk_text_lines(r: SdkReference) -> Seq<Seq<char>> {
    seq!["SDK Functions:"@] + r.functions@.map_values(|f: FunctionDoc| function_lines(f)).flatten() + seq![
        ""@,
        "SDK Types:"@,
    ] + r.types@.map_values(|t: TypeDoc| type_lines(t)).flatten() + seq![""@, "Notes:"@] + bullets(views(r.notes@))
}

/// Appends the line of a documented field.
fn field_text(f: &FieldDoc) -> (s: String)
    ensures
        s@ == field_line(*f),
{
    let mut out: Vec<char> = Vec::new();
    push_str(&mut out, "  - ");
    push_str(&mut out, f.name.as_str());
    push_str(&mut out, ": ");
    push_str(&mut out, f.description.as_str());
    if !f.default.as_str().is_empty() {
        push_str(&mut out, " (default: ");
        push_str(&mut out, f.default.as_str());
        push_str(&mut out, ")");
    }
    string_from_chars(&out)
}

/// The lines of a documented type.
fn type_text(t: &TypeDoc) -> (v: Vec<String>)
    ensures
        views(v@) == type_lines(*t),
{
    let mut v: Vec<String> = Vec::new();
    let mut out: Vec<char> = Vec::new();
    push_str(&mut out, "- ");
    push_str(&mut out, t.name.as_str());
    push_str(&mut out, ": ");
    push_str(&mut out, t.description.as_str());
    push_line(&mut v, string_from_chars(&out));
    let mut i: usize = 0;
    let ghost head = views(v@);
    assert(head + t.fields@.take(0).map_values(|f: FieldDoc| field_line(f)) =~= head);
    while i < t.fields.len()
        invariant
            i <= t.fields.len(),
            head == seq!["- "@ + t.name@ + ": "@ + t.description@],
            views(v@) == head + t.fields@.take(i as int).map_values(|f: FieldDoc| field_line(f)),
        decreases t.fields.len() - i,
    {
        push_line(&mut v, field_text(&t.fields[i]));
        i = i + 1;
        assert(views(v@) =~= head + t.fields@.take(i as int).map_values(|f: FieldDoc| field_line(f)));
    }
    assert(t.fields@.take(i as int) =~= t.fields@);
    v
}

/// Appends every line of `more`.
fn append_lines(lines: &mut Vec<String>, more: Vec<String>)
    ensures
        views(final(lines)@) == views(old(lines)@) + views(more@),
{
    let mut more = more;
    let ghost m = more@;
    lines.append(&mut more);
    assert(views(lines@) =~= views(old(lines)@) + views(m));
}

/// Renders an SDK reference as text.
pub fn format_sdk_reference(r: &SdkReference) -> (s: String)
    ensures
        s@ == join_spec(sdk_text_lines(*r), "\n"@),
{
    let mut lines: Vec<String> = Vec::new();
    push_line(&mut lines, owned("SDK Functions:"));
    let ghost h1 = views(lines@);
    let mut i: usize = 0;
    assert(r.functions@.take(0).map_values(|f: FunctionDoc| function_lines(f)).flatten() =~= Seq::<Seq<char>>::empty());
    assert(h1 + Seq::<Seq<char>>::empty() =~= h1);
    while i < r.functions.len()
        invariant
            i <= r.functions.len(),
            views(lines@) == h1 + r.functions@.take(i as int).map_values(|f: FunctionDoc| function_lines(f)).flatten(),
        decreases r.functions.len() - i,
    {
        let f = &r.functions[i];
        let ghost prev = r.functions@.take(i as int).map_values(|f: FunctionDoc| function_lines(f));
        let mut a: Vec<char> = Vec::new();
        push_str(&mut a, "- ");
        push_str(&mut a, f.name.as_str());
        push_str(&mut a, ": ");
        push_str(&mut a, f.signature.as_str());
        push_line(&mut lines, string_from_chars(&a));
        push_line(&mut lines, cat2("  ", f.description.as_str()));
        i = i + 1;
        proof {
            assert(r.functions@.take(i as int).map_values(|f: FunctionDoc| function_lines(f)) =~= prev.push(
                function_lines(r.functions@[i - 1]),
            ));
            prev.lemma_flatten_push(function_lines(r.functions@[i - 1]));
            assert(views(lines@) =~= h1 + (prev.flatten() + function_lines(r.functions@[i - 1])));
        }
    }
    assert(r.functions@.take(i as int) =~= r.functions@);
    push_line(&mut lines, owned(""));
    push_line(&mut lines, owned("SDK Types:"));
    let ghost h2 = views(lines@);
    let mut j: usize = 0;
    assert(r.types@.take(0).map_values(|t: TypeDoc| type_lines(t)).flatten() =~= Seq::<Seq<char>>::empty());
    assert(h2 + Seq::<Seq<char>>::empty() =~= h2);
    while j < r.types.len()
        invariant
            j <= r.types.len(),
            views(lines@) == h2 + r.types@.take(j as int).map_values(|t: TypeDoc| type_lines(t)).flatten(),
        decreases r.types.len() - j,
    {
        let ghost prev = r.types@.take(j as int).map_values(|t: TypeDoc| type_lines(t));
        append_lines(&mut lines, type_text(&r.types[j]));
        j = j + 1;
        proof {
            assert(r.types@.take(j as int).map_values(|t: TypeDoc| type_lines(t)) =~= prev.push(
                type_lines(r.types@[j - 1]),
            ));
            prev.lemma_flatten_push(type_lines(r.types@[j - 1]));
        }
    }
    assert(r.types@.take(j as int) =~= r.types@);
    push_line(&mut lines, owned(""));
    push_line(&mut lines, owned("Notes:"));
    push_bullets(&mut lines, &r.notes);
    assert(views(lines@) =~= sdk_text_lines(*r));
    crate::text::join_strings(&lines, "\n")
}

/// Flattening pairs of lines puts pair `k` at places `2k` and `2k + 1`.
proof fn lemma_flatten_pairs(s: Seq<Seq<Seq<char>>>)
    requires
        forall|k: int| 0 <= k < s.len() ==> (#[trigger] s[k]).len() == 2,
    ensures
        s.flatten().len() == 2 * s.len(),
        forall|k: int| 0 <= k < s.len() ==> s.flatten()[2 * k] == (#[trigger] s[k])[0] && s.flatten()[2 * k + 1] == s[k][1],
    decreases s.len(),
{
    if s.len() > 0 {
        let rest = s.drop_first();
        lemma_flatten_pairs(rest);
        assert(s.flatten() == s[0] + rest.flatten());
        assert forall|k: int| 0 <= k < s.len() implies s.flatten()[2 * k] == (#[trigger] s[k])[0] && s.flatten()[2 * k + 1]
            == s[k][1] by {
            if k > 0 {
                assert(rest[k - 1] == s[k]);
                assert(s.flatten()[2 * k] == rest.flatten()[2 * (k - 1)]);
                assert(s.flatten()[2 * k + 1] == rest.flatten()[2 * (k - 1) + 1]);
            }
        }
    }
}

/// The SDK reference text opens with `SDK Functions:` on a line of its
/// own, gives each function as its signature line followed by its
/// description line, in order, and ends with the last note.
pub proof fn lemma_sdk_text_shape(r: SdkReference)
    requires
        r.functions@.len() > 0,
        r.notes@.len() > 0,
    ensures
        crate::text::starts_with_spec(join_spec(sdk_text_lines(r), "\n"@), "SDK Functions:\n"@),
        forall|k: int|
            0 <= k < r.functions@.len() ==> crate::text::has_substring(
                join_spec(sdk_text_lines(r), "\n"@),
                "- "@ + (#[trigger] r.functions@[k]).name@ + ": "@ + r.functions@[k].signature@ + "\n"@ + "  "@
                    + r.functions@[k].description@,
            ),
        crate::text::ends_with_spec(join_spec(sdk_text_lines(r), "\n"@), "- "@ + r.notes@.last()@),
{
    let lines = sdk_text_lines(r);
    let fl = r.functions@.map_values(|f: FunctionDoc| function_lines(f));
    lemma_flatten_pairs(fl);
    let whole = join_spec(lines, "\n"@);
    assert(lines[0] == "SDK Functions:"@);
    assert(lines[1] == fl.flatten()[0]);
    assert(fl[0] == function_lines(r.functions@[0]));
    crate::text::lemma_join_contains_run(lines, "\n"@, 0, 2);
    let head = join_spec(lines.subrange(0, 2), "\n"@);
    let sub = lines.subrange(0, 2);
    assert(sub.drop_last() =~= seq![lines[0]]);
    assert(join_spec(sub.drop_last(), "\n"@) == lines[0]);
    assert(sub.last() == lines[1]);
    assert(head == join_spec(sub.drop_last(), "\n"@) + "\n"@ + sub.last());
    assert(head == lines[0] + "\n"@ + lines[1]);
    reveal_strlit("SDK Functions:");
    reveal_strlit("SDK Functions:\n");
    reveal_strlit("\n");
    assert(whole.take(head.len() as int) == head);
    assert(whole.take(15) =~= head.take(15));
    assert(head.take(15) =~= "SDK Functions:\n"@);
    assert forall|k: int| 0 <= k < r.functions@.len() implies crate::text::has_substring(
        whole,
        "- "@ + (#[trigger] r.functions@[k]).name@ + ": "@ + r.functions@[k].signature@ + "\n"@ + "  "@
            + r.functions@[k].description@,
    ) by {
        assert(fl[k] == function_lines(r.functions@[k]));
        assert(lines[1 + 2 * k] == fl.flatten()[2 * k]);
        assert(lines[2 + 2 * k] == fl.flatten()[2 * k + 1]);
        crate::text::lemma_join_contains_run(lines, "\n"@, 1 + 2 * k, 3 + 2 * k);
        let run = lines.subrange(1 + 2 * k, 3 + 2 * k);
        assert(run.drop_last() =~= seq![run[0]]);
        assert(join_spec(run.drop_last(), "\n"@) == run[0]);
        assert(join_spec(run, "\n"@) == join_spec(run.drop_last(), "\n"@) + "\n"@ + run.last());
        assert(run[0] == function_lines(r.functions@[k])[0]);
        assert(run.last() == function_lines(r.functions@[k])[1]);
        assert(join_spec(run, "\n"@) =~= "- "@ + r.functions@[k].name@ + ": "@ + r.functions@[k].signature@ + "\n"@
            + "  "@ + r.functions@[k].description@);
    }
    let n = lines.len() as int;
    crate::text::lemma_join_contains_run(lines, "\n"@, n - 1, n);
    assert(lines.subrange(n - 1, n) =~= seq![lines[n - 1]]);
    assert(lines[n - 1] == bullets(views(r.notes@)).last());
    assert(views(r.notes@).last() == r.notes@.last()@);
}

/// The SDK reference as text.
pub fn format_sdk_reference_text() -> (s: String)
    ensures
        exists|r: SdkReference|
            #[trigger] join_spec(sdk_text_lines(r), "\n"@) == s@ && r.schema_version@ == SCHEMA_VERSION@
                && r.functions@.map_values(|f: FunctionDoc| f.name@) == sdk_function_names()
                && r.types@.map_values(|t: TypeDoc| t.name@) == sdk_type_names() && r.functions@.map_values(
                |f: FunctionDoc| f.signature@,
            ) == sdk_function_signatures() && r.types@.map_values(|t: TypeDoc| t.fields@.map_values(|f: FieldDoc| f.name@))
                == sdk_type_fields() && views(r.notes@) == sdk_notes() && r.functions@.map_values(
                |f: FunctionDoc| f.description@,
            ) == sdk_function_descriptions() && r.types@.map_values(|t: TypeDoc| t.description@)
                == sdk_type_descriptions() && r.types@.map_values(
                |t: TypeDoc| t.fields@.map_values(|f: FieldDoc| (f.name@, f.description@, f.default@)),
            ) == sdk_field_docs() && crate::text::starts_with_spec(s@, "SDK Functions:\n"@) && (forall|k: int|
                0 <= k < r.functions@.len() ==> crate::text::has_substring(
                    s@,
                    "- "@ + (#[trigger] r.functions@[k]).name@ + ": "@ + r.functions@[k].signature@ + "\n"@ + "  "@
                        + r.functions@[k].description@,
                )) && crate::text::ends_with_spec(s@, "- "@ + r.notes@.last()@),
{
    let r = build_sdk_reference();
    proof {
        assert(r.functions@.map_values(|f: FunctionDoc| f.name@).len() == sdk_function_names().len());
        assert(views(r.notes@).len() == sdk_notes().len());
        lemma_sdk_text_shape(r);
    }
    format_sdk_reference(&r)
}

/// The limits of the sample request: 25 results, 5 matches per file, no
/// cap on bytes per file, 50,000 bytes in all, 200 bytes per match, 2,000
/// per snippet, 5 errors.
pub open spec fn example_limits() -> crate::contracts::Limits {
    crate::contracts::Limits {
        max_results: crate::contracts::LimitValue::Value(25),
        max_matches_per_file: crate::contracts::LimitValue::Value(5),
        max_bytes_per_file: crate::contracts::LimitValue::Unlimited,
        max_total_bytes: crate::contracts::LimitValue::Value(50000),
        max_match_bytes: crate::contracts::LimitValue::Value(200),
        max_snippet_bytes: crate::contracts::LimitValue::Value(2000),
        max_errors: crate::contracts::LimitValue::Value(5),
    }
}

/// The sample request of the schema examples: `ext:rs & func:main` from
/// `.` with the `rust` preset, summary output, the example limits, errors
/// skipped, and every other setting as in the default request.
pub fn schema_example_request() -> (r: crate::contracts::SearchRequest)
    ensures
        r.query@ == "ext:rs & func:main"@,
        crate::content::opt_view(r.root) == Some("."@),
        views(r.presets@) == seq!["rust"@],
        !r.no_ignore,
        !r.hidden,
        r.max_depth is None,
        r.sql_dialect is None,
        !r.sql_strict,
        r.output == Some(crate::contracts::OutputMode::Summary),
        r.limits == Some(example_limits()),
        r.context_lines is None,
        r.error_mode == crate::contracts::ErrorMode::SkipErrors,
        r.execution_budget_ms is None,
        r.semantic_budget_ms is None,
        r.max_semantic_matches_per_file is None,
        r.language_override is None,
        r.semantic_match_mode == crate::contracts::SemanticMatchMode::Exact,
        r.snippet_mode == crate::contracts::SnippetMode::PreserveLineEndings,
        !r.semantic_strict,
        !r.strict_path_resolution,
        r.execution_profile is None,
        r.offset == 0,
        r.continuation_token is None,
        !r.snapshot_drift_detection,
        !r.ignore_debug,
        !r.language_debug,
        !r.sql_trace,
        r.path_display is None,
        r.line_endings is None,
        !r.include_match_text,
{
    let mut r = crate::contracts::SearchRequest::default();
    r.query = owned("ext:rs & func:main");
    r.root = Some(owned("."));
    r.presets = vec![owned("rust")];
    r.output = Some(crate::contracts::OutputMode::Summary);
    r.limits = Some(
        crate::contracts::Limits {
            max_results: crate::contracts::LimitValue::Value(25),
            max_matches_per_file: crate::contracts::LimitValue::Value(5),
            max_bytes_per_file: crate::contracts::LimitValue::Unlimited,
            max_total_bytes: crate::contracts::LimitValue::Value(50000),
            max_match_bytes: crate::contracts::LimitValue::Value(200),
            max_snippet_bytes: crate::contracts::LimitValue::Value(2000),
            max_errors: crate::contracts::LimitValue::Value(5),
        },
    );
    r.error_mode = crate::contracts::ErrorMode::SkipErrors;
    assert(views(r.presets@) =~= seq!["rust"@]);
    r
}

/// All counters of statistics are zero, and they list no language and no
/// directory.
pub open spec fn stats_empty(st: crate::contracts::SearchStats) -> bool {
    &&& st.returned_files == 0 && st.returned_matches == 0 && st.returned_bytes == 0 && st.errors == 0
    &&& st.whole_file_results == 0 && st.ranged_results == 0 && st.candidate_files == 0
    &&& st.prefiltered_files == 0 && st.evaluated_files == 0 && st.matched_files == 0 && st.matched_ranges == 0
    &&& st.hidden_skipped == 0 && st.ignore_skipped == 0 && st.max_depth_skipped == 0
    &&& st.unreadable_entries == 0 && st.root_boundary_excluded == 0 && st.suppressed_too_large == 0
    &&& st.suppressed_binary == 0 && st.suppressed_secret_like == 0 && st.diagnostics == 0
    &&& st.walk_millis == 0 && st.prefilter_millis == 0 && st.evaluate_millis == 0 && st.materialize_millis == 0
    &&& st.semantic_parse_failures == 0 && st.semantic_budget_exhaustions == 0 && st.query_cache_hits == 0
    &&& st.query_cache_misses == 0 && st.tree_cache_hits == 0 && st.tree_cache_misses == 0
    &&& st.semaphore_wait_millis == 0
    &&& st.semantic_parse_failures_by_language@.dom().len() == 0
    &&& st.directory_hotspots@.len() == 0
}

/// The sample response of the schema examples, for `request`: a truncated
/// first page of 25 (`max_results`) with no results, diagnostics or
/// errors, zero statistics, and a session continuation token.
pub fn schema_example_response(request: &crate::contracts::SearchRequest) -> (r: crate::contracts::SearchResponse)
    ensures
        r.schema_version@ == SCHEMA_VERSION@,
        r.schema_reference@ == "rdump://docs/sdk"@,
        r.status == crate::contracts::SearchStatus::TruncatedSuccess,
        r.coordinate_semantics.line_numbers@ == "1-indexed lines"@,
        r.coordinate_semantics.columns@ == "0-indexed byte offsets within the line"@,
        r.coordinate_semantics.byte_ranges@ == "0-indexed byte offsets within the file"@,
        r.query@ == request.query@,
        r.effective_query@ == "(ext:rs) & (func:main)"@,
        r.root@ == "."@,
        r.output == crate::contracts::OutputMode::Summary,
        r.error_mode == crate::contracts::ErrorMode::SkipErrors,
        r.results@.len() == 0,
        stats_empty(r.stats),
        r.diagnostics@.len() == 0,
        r.errors@.len() == 0,
        r.truncated,
        crate::content::opt_view(r.truncation_reason) == Some("max_results"@),
        r.next_offset == Some(25usize),
        crate::content::opt_view(r.continuation_token) == Some("session:v1:123:25:deadbeefdeadbeef"@),
        r.page_size == Some(25usize),
{
    let stats = crate::contracts::SearchStats {
        returned_files: 0,
        returned_matches: 0,
        returned_bytes: 0,
        errors: 0,
        whole_file_results: 0,
        ranged_results: 0,
        candidate_files: 0,
        prefiltered_files: 0,
        evaluated_files: 0,
        matched_files: 0,
        matched_ranges: 0,
        hidden_skipped: 0,
        ignore_skipped: 0,
        max_depth_skipped: 0,
        unreadable_entries: 0,
        root_boundary_excluded: 0,
        suppressed_too_large: 0,
        suppressed_binary: 0,
        suppressed_secret_like: 0,
        diagnostics: 0,
        walk_millis: 0,
        prefilter_millis: 0,
        evaluate_millis: 0,
        materialize_millis: 0,
        semantic_parse_failures: 0,
        semantic_budget_exhaustions: 0,
        query_cache_hits: 0,
        query_cache_misses: 0,
        tree_cache_hits: 0,
        tree_cache_misses: 0,
        semaphore_wait_millis: 0,
        semantic_parse_failures_by_language: std::collections::BTreeMap::new(),
        directory_hotspots: Vec::new(),
    };
    crate::contracts::SearchResponse {
        schema_version: owned(SCHEMA_VERSION),
        schema_reference: owned("rdump://docs/sdk"),
        status: crate::contracts::SearchStatus::TruncatedSuccess,
        coordinate_semantics: crate::request::coordinate_semantics(),
        query: request.query.clone(),
        effective_query: owned("(ext:rs) & (func:main)"),
        root: owned("."),
        output: crate::contracts::OutputMode::Summary,
        error_mode: crate::contracts::ErrorMode::SkipErrors,
        results: Vec::new(),
        stats,
        diagnostics: Vec::new(),
        errors: Vec::new(),
        truncated: true,
        truncation_reason: Some(owned("max_results")),
        next_offset: Some(25),
        continuation_token: Some(owned("session:v1:123:25:deadbeefdeadbeef")),
        page_size: Some(25),
    }
}

} // verus!

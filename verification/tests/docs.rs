use rdump::docs::{build_rql_reference, build_sdk_reference, format_rql_reference_text, format_sdk_reference_text};
use rdump::predicates::{
    content_predicate_keys, metadata_predicate_keys, react_predicate_keys, semantic_predicate_keys,
};

#[test]
fn rql_reference_has_examples() {
    let reference = build_rql_reference();
    assert!(!reference.examples.is_empty());
}

#[test]
fn sdk_reference_has_types() {
    let reference = build_sdk_reference();
    assert!(!reference.types.is_empty());
}

#[test]
fn format_rql_reference_text_contains_examples() {
    let text = format_rql_reference_text();
    assert!(text.contains("Examples:"));
}

#[test]
fn sdk_reference_includes_search_options() {
    let reference = build_sdk_reference();
    let has_search_options = reference.types.iter().any(|ty| ty.name == "SearchOptions");
    assert!(has_search_options);
    let has_search_runtime = reference.types.iter().any(|ty| ty.name == "SearchRuntime");
    assert!(has_search_runtime);
    let has_search_backend = reference.types.iter().any(|ty| ty.name == "SearchBackend");
    assert!(has_search_backend);
    let has_backend_metadata = reference
        .types
        .iter()
        .any(|ty| ty.name == "BackendMetadata");
    assert!(has_backend_metadata);
}

#[test]
fn rql_reference_matches_core_predicate_inventory() {
    let reference = build_rql_reference();
    let metadata: Vec<String> = metadata_predicate_keys()
        .into_iter()
        .map(|key| key.as_str().to_string())
        .filter(|name| name != "path_exact")
        .collect();
    let content: Vec<String> = content_predicate_keys()
        .into_iter()
        .map(|key| key.as_str().to_string())
        .collect();
    let semantic: Vec<String> = semantic_predicate_keys()
        .into_iter()
        .map(|key| key.as_str().to_string())
        .collect();
    let react: Vec<String> = react_predicate_keys()
        .into_iter()
        .map(|key| key.as_str().to_string())
        .collect();

    assert_eq!(reference.metadata_predicates, metadata);
    assert_eq!(reference.content_predicates, content);
    assert_eq!(reference.semantic_predicates, semantic);
    assert_eq!(reference.react_predicates, react);
}

#[test]
fn sdk_reference_includes_current_library_surface() {
    let reference = build_sdk_reference();
    let function_names: Vec<&str> = reference
        .functions
        .iter()
        .map(|function| function.name.as_str())
        .collect();

    for expected in [
        "search_iter",
        "search",
        "search_with_stats",
        "search_path_iter",
        "search_paths",
        "explain_query",
        "SearchRuntime::with_backend",
        "execute_search_request_with_runtime",
        "execute_search_request_with_runtime_and_progress",
        "execute_search_request_with_runtime_and_cancellation",
        "repo_language_inventory_with_runtime",
        "search_async_with_runtime",
        "search_async_with_runtime_and_progress",
    ] {
        assert!(function_names.contains(&expected));
    }
}

#[test]
fn rql_reference_tracks_live_predicate_registry() {
    let reference = build_rql_reference();

    for key in metadata_predicate_keys() {
        if key.as_str() == "path_exact" {
            continue;
        }
        assert!(reference.metadata_predicates.contains(&key.as_str().to_string()));
    }
    for key in content_predicate_keys() {
        assert!(reference.content_predicates.contains(&key.as_str().to_string()));
    }
    for key in semantic_predicate_keys() {
        assert!(reference.semantic_predicates.contains(&key.as_str().to_string()));
    }
    for key in react_predicate_keys() {
        assert!(reference.react_predicates.contains(&key.as_str().to_string()));
    }
}

#[test]
fn rql_reference_lists_operators_and_aliases_exactly() {
    let reference = build_rql_reference();
    assert_eq!(reference.operators, vec!["AND: &", "OR: |", "NOT: !", "Grouping: ( )"]);
    assert_eq!(reference.aliases, vec!["contains -> c", "matches -> m"]);
    assert_eq!(reference.metadata_predicates, vec!["ext", "name", "path", "in", "size", "modified"]);
    assert_eq!(reference.examples.len(), 8);
    assert_eq!(reference.examples[0], "ext:rs & func:main");
}

#[test]
fn sdk_reference_text_lists_types_and_functions() {
    let text = format_sdk_reference_text();
    assert!(text.contains("SearchOptions"));
    assert!(text.contains("search_paths"));
}

#[test]
fn sdk_reference_text_gives_descriptions_and_defaults() {
    let text = format_sdk_reference_text();
    assert!(text.starts_with("SDK Functions:\n"));
    assert!(text.contains(
        "- search_iter: search_iter(query: &str, options: SearchOptions) -> Result<SearchResultIterator>\n  Streaming iterator over SearchResult. Preferred for large repos.\n"
    ));
    assert!(text.contains("  - root: Root directory to search. (default: \".\")\n"));
    assert!(text.contains("  - hidden: If true, include hidden files and directories. (default: false)\n"));
    assert!(text.ends_with("- RQL supports logical operators &, |, ! and parentheses."));
}

#[test]
fn schema_examples_hold_the_sample_request_and_response() {
    let request = rdump::docs::schema_example_request();
    assert_eq!(request.query, "ext:rs & func:main");
    assert_eq!(request.root.as_deref(), Some("."));
    assert_eq!(request.presets, vec!["rust".to_string()]);
    let limits = request.limits.expect("limits");
    assert_eq!(limits.max_results, rdump::contracts::LimitValue::Value(25));
    assert_eq!(limits.max_bytes_per_file, rdump::contracts::LimitValue::Unlimited);
    let response = rdump::docs::schema_example_response(&request);
    assert_eq!(response.query, request.query);
    assert_eq!(response.effective_query, "(ext:rs) & (func:main)");
    assert!(response.truncated);
    assert_eq!(response.next_offset, Some(25));
    assert_eq!(response.continuation_token.as_deref(), Some("session:v1:123:25:deadbeefdeadbeef"));
    assert!(response.results.is_empty());
}

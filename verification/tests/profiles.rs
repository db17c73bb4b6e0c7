use rdump::profiles::{
    find_canonical_language_profile, lint_language_profiles, list_canonical_language_profiles,
    list_language_profiles, render_language_profile_reference,
};

#[test]
fn canonical_language_profiles_pass_lint() {
    let issues = lint_language_profiles();
    assert!(
        issues.is_empty(),
        "language profile lint found issues:\n{}",
        issues.join("\n")
    );
}

#[test]
fn rendered_language_profile_reference_mentions_capture_convention() {
    let rendered = render_language_profile_reference();
    assert!(rendered.contains("Capture convention: `@match`"));
    assert!(rendered.contains("Rust (rs)"));
}

#[test]
fn canonical_catalog_is_not_empty_and_lookup_by_alias_works() {
    let catalog = list_canonical_language_profiles();
    assert!(!catalog.is_empty());
    assert!(!list_language_profiles().is_empty());
    assert!(find_canonical_language_profile("rs").is_some());
    assert!(find_canonical_language_profile("no-such-language").is_none());
}

#[test]
fn capability_matrix_lists_each_canonical_profile_in_order() {
    let matrix = rdump::request::language_capability_matrix();
    let catalog = list_canonical_language_profiles();
    assert_eq!(matrix.schema_version, "rdump.v1");
    assert_eq!(
        matrix.capture_convention,
        "Language-profile queries that emit hunks must expose tree-sitter captures named @match."
    );
    assert_eq!(matrix.languages.len(), catalog.len());
    for (info, entry) in matrix.languages.iter().zip(catalog.iter()) {
        assert_eq!(info.id, entry.id);
        assert_eq!(info.aliases, entry.aliases);
    }
}

use rdump::config::{
    build_config_report, resolve_named_presets_in, Config, ConfigScope, ConfigSource, PresetDefinition, PresetSpec,
};

fn layer(presets: Vec<(&str, PresetDefinition)>, path: &str) -> (Config, ConfigSource) {
    (
        Config { schema_version: 1, presets: presets.into_iter().map(|(n, d)| (n.to_string(), d)).collect() },
        ConfigSource { scope: ConfigScope::Global, path: path.to_string() },
    )
}

#[test]
fn config_report_merges_layers_and_resolves_presets() {
    let layers = vec![
        layer(vec![("rust", PresetDefinition::Query("ext:rs".to_string()))], "/g"),
        layer(vec![("rust", PresetDefinition::Query("ext:rs & !path:target".to_string()))], "/l"),
    ];
    let report = build_config_report(&layers, &vec![]).expect("resolves");
    assert_eq!(report.merged.presets.len(), 1);
    assert_eq!(report.resolved_presets[0].name, "rust");
    assert_eq!(report.resolved_presets[0].query, "(ext:rs & !path:target)");
}

#[test]
fn config_report_fails_on_an_unresolvable_preset() {
    let broken = PresetDefinition::Detailed(PresetSpec {
        query: None,
        description: None,
        tags: vec![],
        examples: vec![],
        includes: vec!["missing".to_string()],
    });
    let layers = vec![layer(vec![("web", broken)], "/g")];
    let err = build_config_report(&layers, &vec![]).expect_err("unknown include");
    assert_eq!(err.chain[0], "Preset 'web' references unknown or invalid preset 'missing'");
    assert_eq!(err.chain[1], "Preset 'missing' not found");
}

#[test]
fn normalizing_a_preset_twice_changes_nothing_more() {
    let spec = PresetSpec {
        query: Some("ext:rs".to_string()),
        description: Some("Rust".to_string()),
        tags: vec!["b".to_string(), "a".to_string(), "b".to_string()],
        examples: vec!["z".to_string(), "z".to_string()],
        includes: vec!["python".to_string(), "go".to_string()],
    };
    let once = spec.normalized();
    assert_eq!(once.tags, vec!["a".to_string(), "b".to_string()]);
    assert_eq!(once.examples, vec!["z".to_string()]);
    assert_eq!(once.includes, vec!["go".to_string(), "python".to_string()]);
    let twice = once.clone().normalized();
    assert_eq!(twice, once);
}

#[test]
fn named_presets_join_queries_and_contributions_in_order() {
    let layers = vec![layer(
        vec![
            ("rust", PresetDefinition::Query("ext:rs".to_string())),
            ("docs", PresetDefinition::Query("ext:md".to_string())),
        ],
        "/g",
    )];
    let report = build_config_report(&layers, &vec![]).expect("resolves");
    let (query, contributions) =
        resolve_named_presets_in(&report, &vec!["docs".to_string(), "rust".to_string()]).expect("both exist");
    assert_eq!(query, "((ext:md)) & ((ext:rs))");
    let presets: Vec<&str> = contributions.iter().map(|c| c.preset.as_str()).collect();
    assert_eq!(presets, vec!["docs", "rust"]);
    let err = resolve_named_presets_in(&report, &vec!["nope".to_string()]).unwrap_err();
    assert_eq!(err, "Preset 'nope' not found");
}

use rdump::support_matrix::{
    all_support_matrix_cases, js_ts_shared_cases, python_shared_cases, react_shared_cases, render_support_matrix_markdown,
};

#[test]
fn suites_hold_their_cases_in_order() {
    assert_eq!(js_ts_shared_cases().len(), 9);
    assert_eq!(python_shared_cases().len(), 6);
    assert_eq!(react_shared_cases().len(), 9);
    let all = all_support_matrix_cases();
    assert_eq!(all.len(), 24);
    assert_eq!(all[0].query, "def:OldLogger");
    assert_eq!(all[9].suite, "python_shared");
    assert_eq!(js_ts_shared_cases()[1].expected[2], r#"type LogLevel = "info" | "warn" | "error";"#);
}

#[test]
fn markdown_lists_every_case() {
    let doc = render_support_matrix_markdown();
    assert!(doc.starts_with("# Semantic Support Matrix\n"));
    assert!(doc.contains("| js_ts_shared | javascript, typescript | mixed_project | `def:OldLogger` | no |\n"));
    assert!(doc.contains("| react_shared | react, jsx, tsx | mixed_project | `hook:useState` | yes |\n"));
    assert_eq!(doc.lines().count(), 6 + 24);
}

#[test]
fn cases_carry_their_expected_and_absent_texts() {
    let all = all_support_matrix_cases();
    assert_eq!(all[0].expected, vec!["logger.js".to_string(), "export class OldLogger".to_string()]);
    assert_eq!(all[0].absent, vec!["log_utils.ts".to_string()]);
    assert_eq!(all[23].expected, vec!["App.tsx".to_string()]);
    assert_eq!(all[23].absent, vec!["Button.jsx".to_string()]);
}

use rdump::predicates::{
    contains_hunks, match_path_value, path_exact_matches, path_extension, path_file_name, path_join, strip_root, ContainsEvaluator,
    ExtEvaluator, FileContext, LineHunk, MatchResult, NameEvaluator, PathEvaluator,
};
use rdump::profiles::PredicateKey;

fn ctx(path: &str, root: &str) -> FileContext {
    FileContext::new(path.to_string(), root.to_string())
}

#[test]
fn test_ext_evaluator() {
    let mut context_rs = ctx("main.rs", "/");
    let mut context_toml = ctx("Cargo.TOML", "/");
    let mut context_no_ext = ctx("README", "/");
    let mut context_dotfile = ctx(".bashrc", "/");

    let evaluator = ExtEvaluator;
    assert!(evaluator.evaluate(&mut context_rs, &PredicateKey::Ext, "rs").unwrap().is_match());
    assert!(!evaluator.evaluate(&mut context_rs, &PredicateKey::Ext, "toml").unwrap().is_match());
    assert!(
        evaluator.evaluate(&mut context_toml, &PredicateKey::Ext, "toml").unwrap().is_match(),
        "Should be case-insensitive"
    );
    assert!(!evaluator.evaluate(&mut context_no_ext, &PredicateKey::Ext, "rs").unwrap().is_match());
    assert!(
        !evaluator.evaluate(&mut context_dotfile, &PredicateKey::Ext, "bashrc").unwrap().is_match(),
        "Dotfiles should have no extension"
    );
}

#[test]
fn test_name_evaluator() {
    let mut context1 = ctx("/home/user/Cargo.toml", "/");
    let mut context2 = ctx("/home/user/main.rs", "/");

    let evaluator = NameEvaluator;
    assert!(evaluator.evaluate(&mut context1, &PredicateKey::Name, "Cargo.toml").unwrap().is_match());
    assert!(
        evaluator.evaluate(&mut context1, &PredicateKey::Name, "C*.toml").unwrap().is_match(),
        "Glob pattern should match"
    );
    assert!(
        evaluator.evaluate(&mut context2, &PredicateKey::Name, "*.rs").unwrap().is_match(),
        "Glob pattern should match"
    );
    assert!(!evaluator.evaluate(&mut context1, &PredicateKey::Name, "*.rs").unwrap().is_match());
}

#[test]
fn test_name_evaluator_case_insensitive() {
    let mut context = ctx("/home/user/MyFile.txt", "/");
    let evaluator = NameEvaluator;
    assert!(evaluator.evaluate(&mut context, &PredicateKey::Name, "myfile.txt").unwrap().is_match());
    assert!(evaluator.evaluate(&mut context, &PredicateKey::Name, "MYFILE.TXT").unwrap().is_match());
}

#[test]
fn name_evaluator_rejects_empty_and_invalid_patterns() {
    let mut context = ctx("/home/user/main.rs", "/");
    let evaluator = NameEvaluator;
    let err = evaluator.evaluate(&mut context, &PredicateKey::Name, "").unwrap_err();
    assert_eq!(err, "Invalid glob pattern: cannot be empty.");
    assert!(evaluator.evaluate(&mut context, &PredicateKey::Name, "[").is_err());
}

#[test]
fn test_path_evaluator_contains() {
    let mut context = ctx("/home/user/project/src/main.rs", "/");
    let evaluator = PathEvaluator;
    assert!(evaluator.evaluate(&mut context, &PredicateKey::Path, "project/src").unwrap().is_match());
    assert!(evaluator.evaluate(&mut context, &PredicateKey::Path, "/home/user").unwrap().is_match());
    assert!(!evaluator.evaluate(&mut context, &PredicateKey::Path, "project/lib").unwrap().is_match());
    assert!(evaluator.evaluate(&mut context, &PredicateKey::Path, "main.rs").unwrap().is_match());
}

#[test]
fn test_path_evaluator_wildcard() {
    let mut context = ctx("/home/user/project/src/main.rs", "/");
    let evaluator = PathEvaluator;
    assert!(evaluator.evaluate(&mut context, &PredicateKey::Path, "**/main.rs").unwrap().is_match());
    assert!(evaluator
        .evaluate(&mut context, &PredicateKey::Path, "/home/user/project/src/*.rs")
        .unwrap()
        .is_match());
    assert!(evaluator.evaluate(&mut context, &PredicateKey::Path, "*.rs").unwrap().is_match());
    assert!(evaluator.evaluate(&mut context, &PredicateKey::Path, "**/*.rs").unwrap().is_match());
    assert!(!evaluator.evaluate(&mut context, &PredicateKey::Path, "**/*.ts").unwrap().is_match());
}

#[test]
fn test_empty_path_query() {
    let mut context = ctx("/home/user/project/src/main.rs", "/");
    let evaluator = PathEvaluator;
    assert!(evaluator.evaluate(&mut context, &PredicateKey::Path, "").unwrap().is_match());
}

#[test]
fn test_path_exact_matches_absolute_and_relative() {
    let evaluator = PathEvaluator;
    let mut context = ctx("/home/user/project/src/main.rs", "/home/user/project");
    assert!(evaluator
        .evaluate(&mut context, &PredicateKey::PathExact, "/home/user/project/src/main.rs")
        .unwrap()
        .is_match());
    let mut context_relative = ctx("/home/user/project/src/main.rs", "/home/user/project");
    assert!(evaluator
        .evaluate(&mut context_relative, &PredicateKey::PathExact, "src/main.rs")
        .unwrap()
        .is_match());
}

#[test]
fn path_helpers_follow_segment_rules() {
    assert_eq!(path_file_name("/a/b/c.txt/").as_deref(), Some("c.txt"));
    assert_eq!(path_file_name("/a/.."), None);
    assert_eq!(path_extension("archive.tar.gz").as_deref(), Some("gz"));
    assert_eq!(path_extension(".bashrc"), None);
    assert_eq!(strip_root("/home/user/x.rs", "/home/user/").as_deref(), Some("x.rs"));
    assert_eq!(strip_root("/home/username/x.rs", "/home/user"), None);
    assert_eq!(strip_root("/a/b", "/").as_deref(), Some("a/b"));
    assert_eq!(path_join("/root", "src/x"), "/root/src/x");
    assert_eq!(path_join("/root/", "/abs"), "/abs");
}

#[test]
fn path_value_reports_invalid_glob() {
    assert!(match_path_value("src/a.rs", "/r/src/a.rs", "src/[").is_err());
    assert_eq!(match_path_value("src/a.rs", "/r/src/a.rs", "src/a"), Ok(true));
}

#[test]
fn contains_finds_lines_ignoring_case() {
    let hunks = contains_hunks("fn main() {\r\n    Println!(\"hi\");\n}\n", "println").unwrap();
    assert_eq!(hunks, vec![LineHunk { row: 1, start_byte: 12, end_byte: 31 }]);
    let mut context = ctx("src/main.rs", "/");
    assert!(ContainsEvaluator.evaluate(&mut context, &PredicateKey::Contains, "x").is_err());
    context.content = Some("alpha\nBeta\n".to_string());
    let result = ContainsEvaluator.evaluate(&mut context, &PredicateKey::Contains, "beta").unwrap();
    assert_eq!(result, MatchResult::Hunks(vec![LineHunk { row: 1, start_byte: 6, end_byte: 10 }]));
    assert!(result.is_match());
}

#[test]
fn test_contains_evaluator() {
    let mut context = ctx("/tmp/hello.txt", "/");
    context.content = Some("Hello world\nThis is a test.".to_string());
    let evaluator = ContainsEvaluator;
    assert!(evaluator.evaluate(&mut context, &PredicateKey::Contains, "world").unwrap().is_match());
    assert!(evaluator.evaluate(&mut context, &PredicateKey::Contains, "is a test").unwrap().is_match());
    assert!(!evaluator.evaluate(&mut context, &PredicateKey::Contains, "goodbye").unwrap().is_match());
}

#[test]
fn exact_paths_compare_their_resolutions_when_known() {
    assert!(path_exact_matches("/r/a.rs", "/r/./a.rs", Some("/r/a.rs".to_string()), Some("/r/a.rs".to_string())));
    assert!(!path_exact_matches("/r/a.rs", "/r/./a.rs", None, None));
    assert!(path_exact_matches("/r/a.rs", "/r/link.rs", None, Some("/r/a.rs".to_string())));
    assert!(!path_exact_matches("/r/a.rs", "/r/b.rs", Some("/r/a.rs".to_string()), None));
}

use rdump::backend::{BackendFileType, BackendMetadata};
use rdump::content::ContentState;
use rdump::model::{FileSnapshot, Match, SearchOptions, SearchResult, SearchResultMetadata};

fn sample_result(path: &str, content: &str, matches: Vec<Match>) -> SearchResult {
    SearchResult {
        path: path.to_string(),
        matches,
        content: content.to_string(),
        content_state: ContentState::Loaded,
        diagnostics: vec![],
        metadata: SearchResultMetadata::default(),
    }
}

#[test]
fn test_search_options_default() {
    let options = SearchOptions::default();
    assert_eq!(options.root, ".");
    assert!(options.presets.is_empty());
    assert!(!options.no_ignore);
    assert!(!options.hidden);
    assert!(options.max_depth.is_none());
    assert!(options.sql_dialect.is_none());
}

#[test]
fn test_is_whole_file_match_empty() {
    let result = sample_result("test.rs", "fn main() {}", vec![]);
    assert!(result.is_whole_file_match());
}

#[test]
fn test_is_whole_file_match_with_matches() {
    let result = sample_result(
        "test.rs",
        "fn main() {}",
        vec![Match {
            start_line: 1,
            end_line: 1,
            start_column: 0,
            end_column: 12,
            byte_range: 0..12,
            text: "fn main() {}".to_string(),
        }],
    );
    assert!(!result.is_whole_file_match());
}

#[test]
fn test_matched_lines_single_match() {
    let result = sample_result(
        "test.rs",
        "...",
        vec![Match {
            start_line: 5,
            end_line: 7,
            start_column: 0,
            end_column: 1,
            byte_range: 0..100,
            text: "...".to_string(),
        }],
    );
    assert_eq!(result.matched_lines(), vec![5, 6, 7]);
}

#[test]
fn test_matched_lines_overlapping() {
    let result = sample_result(
        "test.rs",
        "...",
        vec![
            Match {
                start_line: 1,
                end_line: 3,
                start_column: 0,
                end_column: 1,
                byte_range: 0..50,
                text: "...".to_string(),
            },
            Match {
                start_line: 2,
                end_line: 4,
                start_column: 0,
                end_column: 1,
                byte_range: 25..100,
                text: "...".to_string(),
            },
        ],
    );
    assert_eq!(result.matched_lines(), vec![1, 2, 3, 4]);
}

#[test]
fn test_matched_lines_empty_matches() {
    let result = sample_result("test.rs", "...", vec![]);
    assert_eq!(result.matched_lines(), Vec::<usize>::new());
}

#[test]
fn test_match_count() {
    let result = sample_result(
        "test.rs",
        "...",
        vec![
            Match {
                start_line: 1,
                end_line: 1,
                start_column: 0,
                end_column: 5,
                byte_range: 0..5,
                text: "fn a()".to_string(),
            },
            Match {
                start_line: 3,
                end_line: 3,
                start_column: 0,
                end_column: 5,
                byte_range: 10..15,
                text: "fn b()".to_string(),
            },
        ],
    );
    assert_eq!(result.match_count(), 2);
}

#[test]
fn test_total_lines_matched() {
    let result = sample_result(
        "test.rs",
        "...",
        vec![
            Match {
                start_line: 1,
                end_line: 3,
                start_column: 0,
                end_column: 1,
                byte_range: 0..50,
                text: "...".to_string(),
            },
            Match {
                start_line: 5,
                end_line: 5,
                start_column: 0,
                end_column: 1,
                byte_range: 60..70,
                text: "...".to_string(),
            },
        ],
    );
    assert_eq!(result.total_lines_matched(), 4);
}

#[test]
fn test_match_line_count_single_line() {
    let m = Match {
        start_line: 5,
        end_line: 5,
        start_column: 0,
        end_column: 10,
        byte_range: 0..10,
        text: "fn main()".to_string(),
    };
    assert_eq!(m.line_count(), 1);
}

#[test]
fn test_match_line_count_multi_line() {
    let m = Match {
        start_line: 1,
        end_line: 10,
        start_column: 0,
        end_column: 1,
        byte_range: 0..100,
        text: "...".to_string(),
    };
    assert_eq!(m.line_count(), 10);
}

#[test]
fn test_match_is_multiline() {
    let single = Match {
        start_line: 3,
        end_line: 3,
        start_column: 0,
        end_column: 5,
        byte_range: 0..5,
        text: "hello".to_string(),
    };
    let multi = Match {
        start_line: 3,
        end_line: 5,
        start_column: 0,
        end_column: 5,
        byte_range: 0..50,
        text: "line1\nline2\nline3".to_string(),
    };
    assert!(!single.is_multiline());
    assert!(multi.is_multiline());
}

#[test]
fn test_match_byte_len() {
    let m = Match {
        start_line: 1,
        end_line: 1,
        start_column: 0,
        end_column: 12,
        byte_range: 10..22,
        text: "fn main() {}".to_string(),
    };
    assert_eq!(m.byte_len(), 12);
}

#[test]
fn test_match_first_line() {
    let single = Match {
        start_line: 1,
        end_line: 1,
        start_column: 0,
        end_column: 12,
        byte_range: 0..12,
        text: "fn main() {}".to_string(),
    };
    let multi = Match {
        start_line: 1,
        end_line: 3,
        start_column: 0,
        end_column: 1,
        byte_range: 0..30,
        text: "fn main() {\n    println!(\"hi\");\n}".to_string(),
    };
    let empty = Match {
        start_line: 1,
        end_line: 1,
        start_column: 0,
        end_column: 0,
        byte_range: 0..0,
        text: "".to_string(),
    };
    assert_eq!(single.first_line(), "fn main() {}");
    assert_eq!(multi.first_line(), "fn main() {");
    assert_eq!(empty.first_line(), "");
}

#[test]
fn test_match_first_line_strips_carriage_return() {
    let m = Match {
        start_line: 1,
        end_line: 2,
        start_column: 0,
        end_column: 1,
        byte_range: 0..6,
        text: "ab\r\ncd".to_string(),
    };
    assert_eq!(m.first_line(), "ab");
}

#[test]
fn test_file_snapshot_from_backend_metadata_preserves_backend_identity_fields() {
    let snapshot = FileSnapshot::from_backend_metadata(&BackendMetadata {
        size_bytes: 42,
        modified_unix_millis: Some(1234),
        readonly: true,
        permissions_display: "r--r--r--".to_string(),
        file_type: BackendFileType::File,
        stable_token: Some("token:abc".to_string()),
        device_id: Some(7),
        inode: Some(9),
    });

    assert_eq!(snapshot.len, 42);
    assert_eq!(snapshot.modified_unix_millis, Some(1234));
    assert!(snapshot.readonly);
    assert_eq!(snapshot.permissions_display, "r--r--r--");
    assert_eq!(snapshot.stable_token.as_deref(), Some("token:abc"));
    assert_eq!(snapshot.device_id, Some(7));
    assert_eq!(snapshot.inode, Some(9));
}

#[test]
fn ranges_become_matches_on_character_boundaries() {
    use_ranges();
}

fn use_ranges() {
    let range = |start: usize, end: usize| rdump::model::TextRange {
        start_byte: start,
        end_byte: end,
        start_point: rdump::model::TextPoint { row: 0, column: start },
        end_point: rdump::model::TextPoint { row: 0, column: end },
    };
    let content = "fn 你好() {}";
    let matches = rdump::model::ranges_to_matches(content, &vec![range(3, 9), range(4, 9), range(0, 40)]);
    assert_eq!(matches.len(), 1);
    assert_eq!(matches[0].text, "你好");
    assert_eq!(matches[0].start_line, 1);
    assert_eq!(matches[0].byte_range, 3..9);
    assert!(rdump::model::ranges_to_matches("", &vec![range(0, 0)]).is_empty());
}

fn ts_range(start_byte: usize, end_byte: usize, start: (usize, usize), end: (usize, usize)) -> rdump::model::TextRange {
    rdump::model::TextRange {
        start_byte,
        end_byte,
        start_point: rdump::model::TextPoint { row: start.0, column: start.1 },
        end_point: rdump::model::TextPoint { row: end.0, column: end.1 },
    }
}

#[test]
fn test_search_options_send_sync() {
    fn assert_send<T: Send>() {}
    fn assert_sync<T: Sync>() {}

    assert_send::<SearchOptions>();
    assert_sync::<SearchOptions>();
}

#[test]
fn test_search_result_is_send_sync() {
    fn assert_send_sync<T: Send + Sync>() {}
    assert_send_sync::<SearchResult>();
}

#[test]
fn test_match_send_sync_and_eq() {
    fn assert_send_sync<T: Send + Sync>() {}
    assert_send_sync::<Match>();

    let m1 = Match { start_line: 1, end_line: 1, start_column: 0, end_column: 5, byte_range: 0..5, text: "hello".to_string() };
    let m2 = Match { start_line: 1, end_line: 1, start_column: 0, end_column: 5, byte_range: 0..5, text: "hello".to_string() };
    let m3 = Match { start_line: 2, end_line: 2, start_column: 0, end_column: 5, byte_range: 0..5, text: "hello".to_string() };
    assert_eq!(m1, m2);
    assert_ne!(m1, m3);
}

#[test]
fn test_ranges_to_matches_bounds_and_conversion() {
    let content = "line1\nline2\nline3";
    let ranges = vec![ts_range(0, 5, (0, 0), (0, 5))];
    let matches = rdump::model::ranges_to_matches(content, &ranges);
    assert_eq!(matches.len(), 1);
    let m = &matches[0];
    assert_eq!(m.start_line, 1);
    assert_eq!(m.end_line, 1);
    assert_eq!(m.start_column, 0);
    assert_eq!(m.end_column, 5);
    assert_eq!(m.byte_range, 0..5);
    assert_eq!(m.text, "line1");
}

#[test]
fn test_ranges_to_matches_filters_invalid_ranges() {
    let content = "short";
    let ranges = vec![ts_range(0, 100, (0, 0), (0, 100))];
    let matches = rdump::model::ranges_to_matches(content, &ranges);
    assert!(matches.is_empty());
}

#[test]
fn test_ranges_to_matches_unicode_boundaries() {
    let content = "fn 你好() {}";
    let ranges = vec![ts_range(3, 9, (0, 3), (0, 9))];
    let matches = rdump::model::ranges_to_matches(content, &ranges);
    assert_eq!(matches.len(), 1);
    assert_eq!(matches[0].text, "你好");
    assert_eq!(matches[0].start_line, 1);
    assert_eq!(matches[0].end_line, 1);
}

#[test]
fn test_ranges_to_matches_empty_content() {
    let content = "";
    let ranges = vec![ts_range(0, 0, (0, 0), (0, 0))];
    let matches = rdump::model::ranges_to_matches(content, &ranges);
    assert!(matches.is_empty());
}

#[test]
fn test_ranges_to_matches_empty_ranges() {
    let content = "some content";
    let ranges: Vec<rdump::model::TextRange> = vec![];
    let matches = rdump::model::ranges_to_matches(content, &ranges);
    assert!(matches.is_empty());
}

#[test]
fn test_ranges_to_matches_single_character() {
    let content = "x";
    let ranges = vec![ts_range(0, 1, (0, 0), (0, 1))];
    let matches = rdump::model::ranges_to_matches(content, &ranges);
    assert_eq!(matches.len(), 1);
    assert_eq!(matches[0].text, "x");
    assert_eq!(matches[0].byte_range, 0..1);
    assert_eq!(matches[0].start_column, 0);
    assert_eq!(matches[0].end_column, 1);
}

#[test]
fn test_ranges_to_matches_multiline_and_columns() {
    let content = "fn main() {\n    println!(\"hello\");\n}";
    let ranges = vec![ts_range(0, content.len(), (0, 0), (2, 1))];
    let matches = rdump::model::ranges_to_matches(content, &ranges);
    assert_eq!(matches.len(), 1);
    assert_eq!(matches[0].start_line, 1);
    assert_eq!(matches[0].end_line, 3);
    assert_eq!(matches[0].start_column, 0);
    assert_eq!(matches[0].end_column, 1);
    assert_eq!(matches[0].byte_range, 0..content.len());
}

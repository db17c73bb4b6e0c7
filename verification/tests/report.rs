use rdump::backend::{
    BackendFileType, BackendMetadata, BackendPathIdentity, DiscoveryReport, DiscoveryRequest, SearchBackend,
};
use rdump::cli::{Format, TimeFormat};
use rdump::content::{ContentSkipReason, ContentState};
use rdump::model::{FileSnapshot, Match, PathResolution, SearchReport, SearchResult, SearchResultMetadata, SearchStats};
use rdump::report::{
    escape_human_text, format_size, format_timestamp, print_path_output_with_backend, print_report_output,
    render_find_line,
};
use std::collections::BTreeMap;
use std::ops::Range;

#[derive(Debug)]
struct FakeBackend {
    root: String,
    files: BTreeMap<String, BackendMetadata>,
}

impl FakeBackend {
    fn new(root: &str, files: &[&str]) -> Self {
        let files = files
            .iter()
            .map(|relative| {
                (
                    relative.to_string(),
                    BackendMetadata {
                        size_bytes: 12,
                        modified_unix_millis: Some(1_700_000_000_000),
                        readonly: false,
                        permissions_display: "-rw-r--r--".to_string(),
                        file_type: BackendFileType::File,
                        stable_token: Some(format!("token:{}", relative)),
                        device_id: None,
                        inode: None,
                    },
                )
            })
            .collect();
        Self { root: root.to_string(), files }
    }

    fn relative_key(&self, path: &str) -> Result<String, String> {
        let prefix = format!("{}/", self.root);
        if let Some(relative) = path.strip_prefix(&prefix) {
            return Ok(relative.to_string());
        }
        if self.files.contains_key(path) {
            return Ok(path.to_string());
        }
        Err(format!("unknown virtual path {}", path))
    }
}

impl SearchBackend for FakeBackend {
    fn normalize_root(&self, root: &str) -> Result<String, String> {
        if root == self.root {
            Ok(self.root.clone())
        } else {
            Err(format!("unexpected root {}", root))
        }
    }

    fn discover(&self, request: &DiscoveryRequest) -> Result<DiscoveryReport, String> {
        if request.root != self.root {
            return Err(format!("unexpected root {}", request.root));
        }
        let candidates = self
            .files
            .keys()
            .map(|relative| BackendPathIdentity {
                display_path: relative.clone(),
                resolved_path: format!("{}/{}", self.root, relative),
                root_relative_path: Some(relative.clone()),
                resolution: PathResolution::Canonical,
            })
            .collect();
        let mut report = DiscoveryReport::default();
        report.candidates = candidates;
        Ok(report)
    }

    fn normalize_path(&self, root: &str, _display_root: &str, path: &str) -> Result<BackendPathIdentity, String> {
        if root != self.root {
            return Err(format!("unexpected root {}", root));
        }
        let relative = self.relative_key(path)?;
        Ok(BackendPathIdentity {
            display_path: relative.clone(),
            resolved_path: format!("{}/{}", self.root, relative),
            root_relative_path: Some(relative),
            resolution: PathResolution::Canonical,
        })
    }

    fn stat(&self, path: &str) -> Result<BackendMetadata, String> {
        let relative = self.relative_key(path)?;
        self.files
            .get(&relative)
            .cloned()
            .ok_or_else(|| format!("missing metadata for {}", path))
    }

    fn read_bytes(&self, path: &str) -> Result<Vec<u8>, String> {
        let _ = self.relative_key(path)?;
        Ok(b"placeholder".to_vec())
    }
}

fn sample_report(format_path: &str, content: &str, matches: Vec<Match>) -> SearchReport {
    SearchReport {
        results: vec![SearchResult {
            path: format_path.to_string(),
            matches,
            content: content.to_string(),
            content_state: ContentState::Loaded,
            diagnostics: vec![],
            metadata: SearchResultMetadata::default(),
        }],
        stats: SearchStats::default(),
        diagnostics: vec![],
    }
}

fn render(report: &SearchReport, format: Format, with_line_numbers: bool, no_headers: bool, context: usize) -> String {
    let backend = FakeBackend::new("/virtual", &[]);
    let mut writer = Vec::new();
    print_report_output(
        &backend,
        &mut writer,
        report,
        &format,
        with_line_numbers,
        no_headers,
        false,
        context,
        true,
        TimeFormat::Local,
        "",
    )
    .unwrap();
    String::from_utf8(writer).unwrap()
}

#[test]
fn test_report_path_output_with_backend() {
    let backend = FakeBackend::new("/virtual", &["src/lib.rs"]);
    let mut writer = Vec::new();
    print_path_output_with_backend(
        &backend,
        &mut writer,
        &vec!["/virtual/src/lib.rs".to_string()],
        &Format::Find,
        TimeFormat::Local,
    )
    .unwrap();

    let output = String::from_utf8(writer).unwrap();
    assert!(output.contains("-rw-r--r--"));
    assert!(output.contains("/virtual/src/lib.rs"));
}

#[test]
fn test_format_size_all_ranges() {
    assert_eq!(format_size(500), "500B");
    assert_eq!(format_size(1024), "1.0K");
    assert_eq!(format_size(1536), "1.5K");
    assert_eq!(format_size(1024 * 1024), "1.0M");
    assert_eq!(format_size(2 * 1024 * 1024), "2.0M");
    assert_eq!(format_size(1024 * 1024 * 1024), "1.0G");
    assert_eq!(format_size(3 * 1024 * 1024 * 1024), "3.0G");
}

#[test]
fn format_size_rounds_half_to_even() {
    assert_eq!(format_size(1023), "1023B");
    assert_eq!(format_size(1280), "1.2K");
    assert_eq!(format_size(1331), "1.3K");
}

#[test]
fn test_summary_report_output() {
    let report = sample_report("src/main.rs", "fn main() {}", vec![]);
    let output = render(&report, Format::Summary, false, false, 0);
    assert!(output.contains("src/main.rs"));
    assert!(output.contains("whole_file_match=true"));
    assert_eq!(output, "src/main.rs\tmatches=0\twhole_file_match=true\tcontent_state=loaded\tdiagnostics=0\n");
}

#[test]
fn test_matches_report_output() {
    let report = sample_report(
        "src/main.rs",
        "fn main() {}",
        vec![Match {
            start_line: 1,
            end_line: 1,
            start_column: 3,
            end_column: 7,
            byte_range: Range { start: 3, end: 7 },
            text: "main".to_string(),
        }],
    );
    let output = render(&report, Format::Matches, false, false, 0);
    assert!(output.contains("File: src/main.rs"));
    assert!(output.contains("1:4-1:8 main"));
    assert!(output.ends_with("\n--\noutput is partial: match-coordinate view\n"));
}

#[test]
fn test_snippets_report_output() {
    let report = sample_report(
        "src/main.rs",
        "fn main() {}\nlet value = main();",
        vec![Match {
            start_line: 2,
            end_line: 2,
            start_column: 12,
            end_column: 16,
            byte_range: Range { start: 25, end: 29 },
            text: "main".to_string(),
        }],
    );
    let output = render(&report, Format::Snippets, true, false, 0);
    assert!(output.contains("@@ 2-2 @@"));
    assert!(output.contains("2 | let value = main();"));
}

#[test]
fn cat_with_line_numbers_keeps_line_endings() {
    let report = sample_report("a.txt", "a\nb", vec![]);
    let output = render(&report, Format::Cat, true, false, 0);
    assert_eq!(output, "    1 | a\n    2 | b");
}

#[test]
fn markdown_wraps_content_in_a_fence() {
    let report = sample_report("notes", "line 1", vec![]);
    let output = render(&report, Format::Markdown, false, false, 0);
    assert_eq!(output, "File: notes\n---\n```\nline 1\n```\n");
}

#[test]
fn hunks_merge_overlapping_context() {
    let content = "a\nb\nc\nd\ne\nf\ng\n";
    let m = |line: usize| Match {
        start_line: line,
        end_line: line,
        start_column: 0,
        end_column: 1,
        byte_range: 0..1,
        text: "x".to_string(),
    };
    let report = sample_report("f.txt", content, vec![m(2), m(3), m(7)]);
    let output = render(&report, Format::Hunks, false, true, 1);
    assert_eq!(output, "a\nb\nc\nd\n...\nf\ng\n\n--\noutput is partial: matching-hunks view\n");
}

#[test]
fn withheld_content_gets_a_notice() {
    let mut report = sample_report("big.bin", "", vec![]);
    report.results[0].content_state = ContentState::Skipped { reason: ContentSkipReason::Binary };
    let output = render(&report, Format::Cat, false, false, 0);
    assert_eq!(output, "[content unavailable: content_state=skipped:binary]\n");
}

#[test]
fn footer_reports_suppressed_and_discovery_counts() {
    let mut report = sample_report("a.txt", "x", vec![]);
    report.stats.suppressed_binary = 2;
    report.stats.hidden_skipped = 1;
    let output = render(&report, Format::Paths, false, false, 0);
    assert_eq!(
        output,
        "a.txt\n\n--\nsuppressed too_large=0 binary=2 secret_like=0\ndiscovery hidden_skipped=1 ignore_skipped=0 max_depth_skipped=0 root_boundary_excluded=0\n"
    );
}

#[test]
fn find_uses_snapshot_metadata() {
    let mut report = sample_report("src/a.rs", "x", vec![]);
    report.results[0].metadata.snapshot = Some(FileSnapshot {
        len: 2048,
        modified_unix_millis: None,
        readonly: false,
        permissions_display: "-rw-r--r--".to_string(),
        stable_token: None,
        device_id: None,
        inode: None,
    });
    let output = render(&report, Format::Find, false, false, 0);
    assert_eq!(output, "-rw-r--r--       2.0K - src/a.rs\n");
}

#[test]
fn path_output_refuses_other_layouts_and_reports_missing_metadata() {
    let backend = FakeBackend::new("/virtual", &["src/lib.rs"]);
    let mut writer = Vec::new();
    let err = print_path_output_with_backend(&backend, &mut writer, &vec!["x".to_string()], &Format::Json, TimeFormat::Local)
        .unwrap_err();
    assert_eq!(err, "path-only output does not support format Json");
    let err = print_path_output_with_backend(&backend, &mut writer, &vec!["/elsewhere".to_string()], &Format::Find, TimeFormat::Local)
        .unwrap_err();
    assert_eq!(err, "Failed to read metadata for /elsewhere");
}

#[test]
fn escaping_and_unix_times() {
    assert_eq!(escape_human_text("a\tb\n\u{1b}"), "a\\tb\\n\\u{1b}");
    assert_eq!(format_timestamp(Some(1_700_000_000_999), TimeFormat::Unix), "1700000000");
    assert_eq!(format_timestamp(Some(-1), TimeFormat::Unix), "-1");
    assert_eq!(format_timestamp(None, TimeFormat::Utc), "-");
    assert_eq!(format_timestamp(Some(0), TimeFormat::Utc), "1970-01-01 00:00");
    assert_eq!(render_find_line("-rw-", 5, "-", "p"), "-rw-               5B - p\n");
}

#[test]
fn find_layout_of_no_paths_writes_nothing() {
    let backend = FakeBackend::new("/virtual", &["src/lib.rs"]);
    let mut writer = b"kept".to_vec();
    print_path_output_with_backend(&backend, &mut writer, &Vec::new(), &Format::Find, TimeFormat::Utc).unwrap();
    assert_eq!(writer, b"kept".to_vec());
}

#[test]
fn find_layout_stops_at_a_path_without_metadata() {
    let backend = FakeBackend::new("/virtual", &["src/lib.rs"]);
    let mut writer = Vec::new();
    let r = print_path_output_with_backend(
        &backend,
        &mut writer,
        &vec!["/virtual/src/lib.rs".to_string(), "/virtual/missing.rs".to_string()],
        &Format::Find,
        TimeFormat::Utc,
    );
    assert!(r.is_err());
    let output = String::from_utf8(writer).unwrap();
    assert_eq!(output.lines().count(), 1);
    assert!(output.ends_with("/virtual/src/lib.rs\n"));
}

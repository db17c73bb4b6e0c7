//! Diagnostics and the content policy applied when a matched file is loaded:
//! oversized, binary and secret-like files are suppressed, invalid UTF-8 is
//! decoded lossily.

use crate::text::{
    ascii_lower_seq, decimal, decimal_chars, has_substring, owned, push_chars, push_str, str_contains,
    string_from_chars, to_ascii_lower,
};
use vstd::prelude::*;
use vstd::utf8::*;

verus! {

/// Severity of a diagnostic.
#[derive(Debug, Clone, Copy, PartialEq, Eq, Structural)]
pub enum DiagnosticLevel {
    Info,
    Warn,
    Error,
}

/// What a diagnostic is about.
#[derive(Debug, Clone, Copy, PartialEq, Eq, Structural)]
pub enum DiagnosticKind {
    ContentSkipped,
    ContentDecodedLossy,
    WalkWarning,
    IgnoreExcluded,
    RootBoundaryExcluded,
    PathResolutionFallback,
    SemanticSkip,
    LanguageSelection,
    SqlDialectTrace,
    DeprecatedQueryAlias,
    SnapshotDrift,
    FormatResolution,
    QueueOverload,
}

/// A structured warning collected during a search.
#[derive(Debug, Clone, PartialEq, Eq)]
pub struct SearchDiagnostic {
    pub level: DiagnosticLevel,
    pub kind: DiagnosticKind,
    pub message: String,
    pub path: Option<String>,
}

/// Why a file's content was not loaded.
#[derive(Debug, Clone, Copy, PartialEq, Eq, Structural)]
pub enum ContentSkipReason {
    TooLarge,
    Binary,
    SecretLike,
}

/// The label of a skip reason.
pub open spec fn skip_reason_label(reason: ContentSkipReason) -> Seq<char> {
    match reason {
        ContentSkipReason::TooLarge => "too_large"@,
        ContentSkipReason::Binary => "binary"@,
        ContentSkipReason::SecretLike => "secret_like"@,
    }
}

impl ContentSkipReason {
    /// The snake-case label of this reason.
    pub fn as_str(self) -> (s: &'static str)
        ensures
            s@ == skip_reason_label(self),
    {
        match self {
            ContentSkipReason::TooLarge => "too_large",
            ContentSkipReason::Binary => "binary",
            ContentSkipReason::SecretLike => "secret_like",
        }
    }
}

/// How the content of a result was produced.
#[derive(Debug, Clone, Copy, PartialEq, Eq, Structural)]
pub enum ContentState {
    Loaded,
    LoadedLossy,
    Skipped { reason: ContentSkipReason },
}

/// The content holds user-visible file text.
pub open spec fn state_is_loaded(state: ContentState) -> bool {
    state is Loaded || state is LoadedLossy
}

impl ContentState {
    /// True when the content holds user-visible file text.
    pub fn is_loaded(&self) -> (b: bool)
        ensures
            b == state_is_loaded(*self),
    {
        match self {
            ContentState::Loaded | ContentState::LoadedLossy => true,
            ContentState::Skipped { .. } => false,
        }
    }
}

/// Content of a file prepared for a result.
#[derive(Debug, Clone, PartialEq, Eq)]
pub struct LoadedContent {
    pub content: String,
    pub state: ContentState,
    pub diagnostics: Vec<SearchDiagnostic>,
}

/// Builds a diagnostic with the given fields.
pub open spec fn diag(level: DiagnosticLevel, kind: DiagnosticKind, message: Seq<char>, path: Option<Seq<char>>) -> (
    DiagnosticLevel,
    DiagnosticKind,
    Seq<char>,
    Option<Seq<char>>,
) {
    (level, kind, message, path)
}

/// The fields of a diagnostic, with text taken by view.
pub open spec fn diag_view(d: SearchDiagnostic) -> (DiagnosticLevel, DiagnosticKind, Seq<char>, Option<Seq<char>>) {
    (d.level, d.kind, d.message@, opt_view(d.path))
}

/// An optional string taken by view.
pub open spec fn opt_view(o: Option<String>) -> Option<Seq<char>> {
    match o {
        Some(s) => Some(s@),
        None => None,
    }
}

/// Copies an optional string.
pub fn clone_opt(o: &Option<String>) -> (r: Option<String>)
    ensures
        opt_view(r) == opt_view(*o),
{
    match o {
        Some(s) => Some(s.clone()),
        None => None,
    }
}

impl SearchDiagnostic {
    /// A diagnostic with the given fields.
    pub fn new(level: DiagnosticLevel, kind: DiagnosticKind, message: String, path: Option<String>) -> (d: Self)
        ensures
            d == (SearchDiagnostic { level, kind, message, path }),
    {
        SearchDiagnostic { level, kind, message, path }
    }

    /// A warning that content was suppressed; the message ends with the
    /// reason in parentheses.
    pub fn content_skipped(path: String, reason: ContentSkipReason, message: &str) -> (d: Self)
        ensures
            diag_view(d) == diag(
                DiagnosticLevel::Warn,
                DiagnosticKind::ContentSkipped,
                message@ + " ("@ + skip_reason_label(reason) + ")"@,
                Some(path@),
            ),
    {
        let mut m: Vec<char> = Vec::new();
        push_str(&mut m, message);
        push_str(&mut m, " (");
        push_str(&mut m, reason.as_str());
        push_str(&mut m, ")");
        Self::new(DiagnosticLevel::Warn, DiagnosticKind::ContentSkipped, string_from_chars(&m), Some(path))
    }

    /// A warning raised while walking the tree.
    pub fn walk_warning(path: Option<String>, message: String) -> (d: Self)
        ensures
            d == (SearchDiagnostic { level: DiagnosticLevel::Warn, kind: DiagnosticKind::WalkWarning, message, path }),
    {
        Self::new(DiagnosticLevel::Warn, DiagnosticKind::WalkWarning, message, path)
    }

    /// An informational note that a path was excluded by an ignore pattern.
    pub fn ignore_excluded(path: String, source: &str, pattern: &str) -> (d: Self)
        ensures
            diag_view(d) == diag(
                DiagnosticLevel::Info,
                DiagnosticKind::IgnoreExcluded,
                "Excluded by "@ + source@ + " pattern `"@ + pattern@ + "`"@,
                Some(path@),
            ),
    {
        let mut m: Vec<char> = Vec::new();
        push_str(&mut m, "Excluded by ");
        push_str(&mut m, source);
        push_str(&mut m, " pattern `");
        push_str(&mut m, pattern);
        push_str(&mut m, "`");
        Self::new(DiagnosticLevel::Info, DiagnosticKind::IgnoreExcluded, string_from_chars(&m), Some(path))
    }

    /// A warning that a path outside the root was skipped.
    pub fn root_boundary(path: String, message: String) -> (d: Self)
        ensures
            d == (SearchDiagnostic {
                level: DiagnosticLevel::Warn,
                kind: DiagnosticKind::RootBoundaryExcluded,
                message,
                path: Some(path),
            }),
    {
        Self::new(DiagnosticLevel::Warn, DiagnosticKind::RootBoundaryExcluded, message, Some(path))
    }

    /// A warning that a path could not be rewritten relative to the root.
    pub fn path_resolution_fallback(path: String, message: String) -> (d: Self)
        ensures
            d == (SearchDiagnostic {
                level: DiagnosticLevel::Warn,
                kind: DiagnosticKind::PathResolutionFallback,
                message,
                path: Some(path),
            }),
    {
        Self::new(DiagnosticLevel::Warn, DiagnosticKind::PathResolutionFallback, message, Some(path))
    }

    /// A warning that semantic evaluation was skipped.
    pub fn semantic_skip(path: String, message: String) -> (d: Self)
        ensures
            d == (SearchDiagnostic {
                level: DiagnosticLevel::Warn,
                kind: DiagnosticKind::SemanticSkip,
                message,
                path: Some(path),
            }),
    {
        Self::new(DiagnosticLevel::Warn, DiagnosticKind::SemanticSkip, message, Some(path))
    }

    /// A note on how a language profile was selected.
    pub fn language_selection(path: String, message: String) -> (d: Self)
        ensures
            d == (SearchDiagnostic {
                level: DiagnosticLevel::Info,
                kind: DiagnosticKind::LanguageSelection,
                message,
                path: Some(path),
            }),
    {
        Self::new(DiagnosticLevel::Info, DiagnosticKind::LanguageSelection, message, Some(path))
    }

    /// A note on how a SQL dialect was selected.
    pub fn sql_dialect_trace(path: String, message: String) -> (d: Self)
        ensures
            d == (SearchDiagnostic {
                level: DiagnosticLevel::Info,
                kind: DiagnosticKind::SqlDialectTrace,
                message,
                path: Some(path),
            }),
    {
        Self::new(DiagnosticLevel::Info, DiagnosticKind::SqlDialectTrace, message, Some(path))
    }

    /// A warning that a deprecated query alias was used.
    pub fn deprecated_query_alias(message: String) -> (d: Self)
        ensures
            d == (SearchDiagnostic {
                level: DiagnosticLevel::Warn,
                kind: DiagnosticKind::DeprecatedQueryAlias,
                message,
                path: None,
            }),
    {
        Self::new(DiagnosticLevel::Warn, DiagnosticKind::DeprecatedQueryAlias, message, None)
    }

    /// A warning that a file changed between evaluation and materialization.
    pub fn snapshot_drift(path: String, message: String) -> (d: Self)
        ensures
            d == (SearchDiagnostic {
                level: DiagnosticLevel::Warn,
                kind: DiagnosticKind::SnapshotDrift,
                message,
                path: Some(path),
            }),
    {
        Self::new(DiagnosticLevel::Warn, DiagnosticKind::SnapshotDrift, message, Some(path))
    }

    /// A warning about how an output format was resolved.
    pub fn format_resolution(message: String) -> (d: Self)
        ensures
            d == (SearchDiagnostic {
                level: DiagnosticLevel::Warn,
                kind: DiagnosticKind::FormatResolution,
                message,
                path: None,
            }),
    {
        Self::new(DiagnosticLevel::Warn, DiagnosticKind::FormatResolution, message, None)
    }

    /// A warning that the search queue is overloaded.
    pub fn queue_overload(message: String) -> (d: Self)
        ensures
            d == (SearchDiagnostic {
                level: DiagnosticLevel::Warn,
                kind: DiagnosticKind::QueueOverload,
                message,
                path: None,
            }),
    {
        Self::new(DiagnosticLevel::Warn, DiagnosticKind::QueueOverload, message, None)
    }
}

// ---------------------------------------------------------------------------
// Content policy
// ---------------------------------------------------------------------------

/// Files larger than this many bytes are not loaded.
pub const MAX_FILE_SIZE: u64 = 10485760;

/// Number of leading bytes inspected by the binary heuristic.
pub const BINARY_CHECK_BYTES: usize = 8192;

/// The inspected prefix of a file looks binary: it holds a NUL byte.
pub open spec fn looks_binary(bytes: Seq<u8>) -> bool {
    bytes.take(if bytes.len() < 8192 { bytes.len() as int } else { 8192 }).contains(0u8)
}

/// Decides the binary heuristic on the first 8192 bytes of `bytes`.
pub fn is_probably_binary(bytes: &Vec<u8>) -> (b: bool)
    ensures
        b == looks_binary(bytes@),
{
    let n = if bytes.len() < BINARY_CHECK_BYTES {
        bytes.len()
    } else {
        BINARY_CHECK_BYTES
    };
    let mut i: usize = 0;
    while i < n
        invariant
            i <= n <= bytes.len(),
            n == (if bytes@.len() < 8192 { bytes@.len() as int } else { 8192 }),
            forall|j: int| 0 <= j < i ==> bytes@[j] != 0u8,
        decreases n - i,
    {
        if bytes[i] == 0u8 {
            assert(bytes@.take(n as int)[i as int] == 0u8);
            return true;
        }
        i = i + 1;
    }
    assert forall|j: int| 0 <= j < bytes@.take(n as int).len() implies bytes@.take(n as int)[j] != 0u8 by {
        assert(bytes@.take(n as int)[j] == bytes@[j]);
    }
    false
}

/// Markers whose presence makes a file count as secret-like; matched against
/// the ASCII-lower-cased content.
pub open spec fn secret_markers() -> Seq<Seq<char>> {
    seq![
        "aws_secret_access_key"@,
        "-----begin rsa private key-----"@,
        "-----begin openssh private key-----"@,
        "-----begin private key-----"@,
        "-----begin ec private key-----"@,
    ]
}

/// The text contains one of the secret markers, ignoring ASCII case.
pub open spec fn looks_secret(text: Seq<char>) -> bool {
    exists|i: int| 0 <= i < secret_markers().len() && has_substring(ascii_lower_seq(text), #[trigger] secret_markers()[i])
}

/// Decides whether the text looks like it contains a secret.
pub fn maybe_contains_secret(text: &str) -> (b: bool)
    ensures
        b == looks_secret(text@),
{
    let lowered = to_ascii_lower(text);
    let markers: Vec<&str> = vec![
        "aws_secret_access_key",
        "-----begin rsa private key-----",
        "-----begin openssh private key-----",
        "-----begin private key-----",
        "-----begin ec private key-----",
    ];
    let ghost ms = markers@.map_values(|m: &str| m@);
    assert(ms =~= secret_markers());
    let mut i: usize = 0;
    while i < markers.len()
        invariant
            i <= markers.len(),
            markers@.len() == secret_markers().len(),
            forall|j: int| 0 <= j < markers@.len() ==> markers@[j]@ == #[trigger] secret_markers()[j],
            lowered@ == ascii_lower_seq(text@),
            forall|j: int| 0 <= j < i ==> !has_substring(ascii_lower_seq(text@), #[trigger] secret_markers()[j]),
        decreases markers.len() - i,
    {
        if str_contains(lowered.as_str(), markers[i]) {
            assert(has_substring(ascii_lower_seq(text@), secret_markers()[i as int]));
            return true;
        }
        i = i + 1;
    }
    false
}

/// Decodes bytes as UTF-8 (std `String::from_utf8`). The contract states that
/// decoding succeeds exactly on valid UTF-8, and that the characters are then
/// the decoding of the bytes.
#[verifier::external_body]
fn decode_utf8_strict(bytes: Vec<u8>) -> (r: Option<String>)
    ensures
        r is Some <==> valid_utf8(bytes@),
        r matches Some(s) ==> s@ == decode_utf8(bytes@),
{
    String::from_utf8(bytes).ok()
}

/// What `String::from_utf8_lossy` returns for the given bytes.
pub uninterp spec fn lossy_utf8(bytes: Seq<u8>) -> Seq<char>;

/// Decodes bytes as UTF-8, replacing invalid sequences with U+FFFD (std
/// `String::from_utf8_lossy`). The contract names the result.
#[verifier::external_body]
fn decode_utf8_lossy(bytes: &Vec<u8>) -> (s: String)
    ensures
        s@ == lossy_utf8(bytes@),
{
    String::from_utf8_lossy(bytes).into_owned()
}

/// The text of a file after decoding.
pub open spec fn decoded_text(bytes: Seq<u8>) -> Seq<char> {
    if valid_utf8(bytes) {
        decode_utf8(bytes)
    } else {
        lossy_utf8(bytes)
    }
}

/// The state assigned to a file of the given size and bytes.
pub open spec fn content_state_for(size: u64, bytes: Seq<u8>) -> ContentState {
    if size > MAX_FILE_SIZE {
        ContentState::Skipped { reason: ContentSkipReason::TooLarge }
    } else if looks_binary(bytes) {
        ContentState::Skipped { reason: ContentSkipReason::Binary }
    } else if looks_secret(decoded_text(bytes)) {
        ContentState::Skipped { reason: ContentSkipReason::SecretLike }
    } else if valid_utf8(bytes) {
        ContentState::Loaded
    } else {
        ContentState::LoadedLossy
    }
}

/// The content exposed for a file in the given state.
pub open spec fn content_text_for(state: ContentState, bytes: Seq<u8>) -> Seq<char> {
    if state_is_loaded(state) {
        decoded_text(bytes)
    } else {
        Seq::empty()
    }
}

/// The content record of a suppressed file.
fn skipped_content(display_path: &str, reason: ContentSkipReason, message: &str) -> (c: LoadedContent)
    ensures
        c.content@ == Seq::<char>::empty(),
        c.state == (ContentState::Skipped { reason }),
        c.diagnostics@.len() == 1,
        diag_view(c.diagnostics@[0]) == diag(
            DiagnosticLevel::Warn,
            DiagnosticKind::ContentSkipped,
            message@ + " ("@ + skip_reason_label(reason) + ")"@,
            Some(display_path@),
        ),
{
    let d = SearchDiagnostic::content_skipped(owned(display_path), reason, message);
    LoadedContent { content: String::new(), state: ContentState::Skipped { reason }, diagnostics: vec![d] }
}

/// Content of a file that exceeds [`MAX_FILE_SIZE`].
pub fn too_large_content(display_path: &str) -> (c: LoadedContent)
    ensures
        c.content@ == Seq::<char>::empty(),
        c.state == (ContentState::Skipped { reason: ContentSkipReason::TooLarge }),
        c.diagnostics@.len() == 1,
        c.diagnostics@[0].kind == DiagnosticKind::ContentSkipped,
        c.diagnostics@[0].level == DiagnosticLevel::Warn,
        opt_view(c.diagnostics@[0].path) == Some(display_path@),
        c.diagnostics@[0].message@ == "Skipping "@ + display_path@ + " because it exceeds the max file size of "@
            + decimal(MAX_FILE_SIZE as nat) + " bytes"@ + " ("@ + "too_large"@ + ")"@,
{
    let mut m: Vec<char> = Vec::new();
    push_str(&mut m, "Skipping ");
    push_str(&mut m, display_path);
    push_str(&mut m, " because it exceeds the max file size of ");
    let size = decimal_chars(MAX_FILE_SIZE);
    push_chars(&mut m, &size);
    push_str(&mut m, " bytes");
    let msg = string_from_chars(&m);
    skipped_content(display_path, ContentSkipReason::TooLarge, msg.as_str())
}

/// Applies the content policy to the bytes of a file of at most
/// [`MAX_FILE_SIZE`] bytes: binary and secret-like files are suppressed with
/// a diagnostic, invalid UTF-8 is decoded lossily with a diagnostic.
pub fn classify_file_bytes(display_path: &str, bytes: Vec<u8>) -> (c: LoadedContent)
    ensures
        c.state == content_state_for(0, bytes@),
        c.content@ == content_text_for(c.state, bytes@),
        c.state == ContentState::Loaded ==> c.diagnostics@.len() == 0,
        c.state != ContentState::Loaded ==> c.diagnostics@.len() == 1,
        c.state == ContentState::LoadedLossy ==> diag_view(c.diagnostics@[0]) == diag(
            DiagnosticLevel::Warn,
            DiagnosticKind::ContentDecodedLossy,
            "Decoded "@ + display_path@ + " with lossy UTF-8 replacement"@,
            Some(display_path@),
        ),
        c.state matches ContentState::Skipped { reason } ==> {
            &&& c.diagnostics@[0].kind == DiagnosticKind::ContentSkipped
            &&& opt_view(c.diagnostics@[0].path) == Some(display_path@)
            &&& c.diagnostics@[0].message@ == (match reason {
                ContentSkipReason::Binary => "Skipping binary file "@ + display_path@,
                _ => "Skipping possible secret-containing file "@ + display_path@,
            }) + " ("@ + skip_reason_label(reason) + ")"@
        },
{
    if is_probably_binary(&bytes) {
        let mut m: Vec<char> = Vec::new();
        push_str(&mut m, "Skipping binary file ");
        push_str(&mut m, display_path);
        let msg = string_from_chars(&m);
        return skipped_content(display_path, ContentSkipReason::Binary, msg.as_str());
    }
    let ghost raw = bytes@;
    let lossy = decode_utf8_lossy(&bytes);
    match decode_utf8_strict(bytes) {
        Some(content) => {
            if maybe_contains_secret(content.as_str()) {
                let mut m: Vec<char> = Vec::new();
                push_str(&mut m, "Skipping possible secret-containing file ");
                push_str(&mut m, display_path);
                let msg = string_from_chars(&m);
                return skipped_content(display_path, ContentSkipReason::SecretLike, msg.as_str());
            }
            LoadedContent { content, state: ContentState::Loaded, diagnostics: Vec::new() }
        },
        None => {
            if maybe_contains_secret(lossy.as_str()) {
                let mut m: Vec<char> = Vec::new();
                push_str(&mut m, "Skipping possible secret-containing file ");
                push_str(&mut m, display_path);
                let msg = string_from_chars(&m);
                return skipped_content(display_path, ContentSkipReason::SecretLike, msg.as_str());
            }
            let mut m: Vec<char> = Vec::new();
            push_str(&mut m, "Decoded ");
            push_str(&mut m, display_path);
            push_str(&mut m, " with lossy UTF-8 replacement");
            let d = SearchDiagnostic::new(
                DiagnosticLevel::Warn,
                DiagnosticKind::ContentDecodedLossy,
                string_from_chars(&m),
                Some(owned(display_path)),
            );
            LoadedContent { content: lossy, state: ContentState::LoadedLossy, diagnostics: vec![d] }
        },
    }
}

} // verus!

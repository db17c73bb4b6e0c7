//! Storage backends and discovery: backend metadata, content loading through
//! a backend, ignore-file rules, and the per-entry discovery decisions.

use crate::content::{
    classify_file_bytes, content_state_for, content_text_for, diag, diag_view, opt_view, too_large_content,
    ContentSkipReason, ContentState, DiagnosticKind, DiagnosticLevel, LoadedContent, SearchDiagnostic, MAX_FILE_SIZE,
};
use crate::contracts::PathMetadata;
use crate::model::{FileIdentity, PathResolution};
use crate::text::{owned, push_str, string_from_chars, trim_spec, views};
use vstd::prelude::*;

verus! {

/// Directory depth walked when a search sets none.
pub const DEFAULT_MAX_DEPTH: usize = 100;

/// At most this many exclusion diagnostics are recorded per discovery.
pub const MAX_EXCLUSION_DIAGNOSTICS: usize = 25;

/// Backend-neutral file kind.
#[derive(Debug, Clone, Copy, PartialEq, Eq, Structural)]
pub enum BackendFileType {
    File,
    Directory,
    Symlink,
    Other,
}

/// Backend-supplied metadata used by predicates, formatters and drift checks.
#[derive(Debug, Clone, PartialEq, Eq)]
pub struct BackendMetadata {
    pub size_bytes: u64,
    pub modified_unix_millis: Option<i64>,
    pub readonly: bool,
    pub permissions_display: String,
    pub file_type: BackendFileType,
    pub stable_token: Option<String>,
    pub device_id: Option<u64>,
    pub inode: Option<u64>,
}

impl BackendMetadata {
    /// The path metadata reported for this file.
    pub fn to_path_metadata(&self) -> (m: PathMetadata)
        ensures
            m.size_bytes == self.size_bytes,
            m.modified_unix_millis == self.modified_unix_millis,
            m.readonly == self.readonly,
            m.permissions_display@ == self.permissions_display@,
    {
        PathMetadata {
            size_bytes: self.size_bytes,
            modified_unix_millis: self.modified_unix_millis,
            readonly: self.readonly,
            permissions_display: self.permissions_display.clone(),
        }
    }
}

/// Path identity returned by a backend.
#[derive(Debug, Clone, PartialEq, Eq)]
pub struct BackendPathIdentity {
    /// Caller-facing path projection.
    pub display_path: String,
    /// Backend-stable identity path.
    pub resolved_path: String,
    /// Path relative to the backend root when available.
    pub root_relative_path: Option<String>,
    pub resolution: PathResolution,
}

impl BackendPathIdentity {
    /// The file identity of this path.
    pub fn to_file_identity(&self) -> (f: FileIdentity)
        ensures
            f.display_path@ == self.display_path@,
            f.resolved_path@ == self.resolved_path@,
            opt_view(f.root_relative_path) == opt_view(self.root_relative_path),
            f.resolution == self.resolution,
    {
        FileIdentity {
            display_path: self.display_path.clone(),
            resolved_path: self.resolved_path.clone(),
            root_relative_path: crate::content::clone_opt(&self.root_relative_path),
            resolution: self.resolution,
        }
    }
}

/// Discovery input handed to [`SearchBackend::discover`].
#[derive(Debug, Clone)]
pub struct DiscoveryRequest {
    pub root: String,
    pub display_root: String,
    pub no_ignore: bool,
    pub hidden: bool,
    pub max_depth: Option<usize>,
    pub ignore_debug: bool,
}

/// Candidate files and skip counters returned by discovery.
#[derive(Debug, Clone)]
pub struct DiscoveryReport {
    pub candidates: Vec<BackendPathIdentity>,
    pub diagnostics: Vec<SearchDiagnostic>,
    pub hidden_skipped: usize,
    pub ignore_skipped: usize,
    pub max_depth_skipped: usize,
    pub unreadable_entries: usize,
    pub root_boundary_excluded: usize,
}

impl Default for DiscoveryReport {
    fn default() -> (r: Self)
        ensures
            r.candidates@.len() == 0,
            r.diagnostics@.len() == 0,
            r.hidden_skipped == 0,
            r.ignore_skipped == 0,
            r.max_depth_skipped == 0,
            r.unreadable_entries == 0,
            r.root_boundary_excluded == 0,
    {
        DiscoveryReport {
            candidates: Vec::new(),
            diagnostics: Vec::new(),
            hidden_skipped: 0,
            ignore_skipped: 0,
            max_depth_skipped: 0,
            unreadable_entries: 0,
            root_boundary_excluded: 0,
        }
    }
}

/// Search storage: discovery, path normalization, metadata and byte reads.
/// Errors are reported as messages.
pub trait SearchBackend {
    /// Normalizes the caller-supplied root into a backend-stable root.
    fn normalize_root(&self, root: &str) -> Result<String, String>;

    /// Discovers candidate files plus skip diagnostics.
    fn discover(&self, request: &DiscoveryRequest) -> Result<DiscoveryReport, String>;

    /// Normalizes one path into its identity projections.
    fn normalize_path(&self, root: &str, display_root: &str, path: &str) -> Result<BackendPathIdentity, String>;

    /// `r` is an outcome that this backend's `stat` can give for `path`.
    /// A backend that does not state its outcomes leaves every outcome
    /// possible; callers are verified for every backend, so they rely on no
    /// particular one.
    closed spec fn stat_outcome(&self, path: Seq<char>, r: Result<BackendMetadata, String>) -> bool {
        true
    }

    /// `r` is an outcome that this backend's `read_bytes` can give for
    /// `path`.
    closed spec fn read_outcome(&self, path: Seq<char>, r: Result<Vec<u8>, String>) -> bool {
        true
    }

    /// Metadata of a file.
    fn stat(&self, path: &str) -> (r: Result<BackendMetadata, String>)
        ensures
            self.stat_outcome(path@, r),
    ;

    /// Raw bytes of a file.
    fn read_bytes(&self, path: &str) -> (r: Result<Vec<u8>, String>)
        ensures
            self.read_outcome(path@, r),
    ;
}

/// A search session bound to one backend.
#[derive(Debug, Clone)]
pub struct SearchRuntime<B> {
    backend: B,
}

impl<B: SearchBackend> SearchRuntime<B> {
    /// A runtime over the given backend.
    pub fn with_backend(backend: B) -> (r: Self)
        ensures
            r.backend_spec() == backend,
    {
        SearchRuntime { backend }
    }

    /// The backend of this runtime.
    pub closed spec fn backend_spec(&self) -> B {
        self.backend
    }

    /// The backend bound to this runtime.
    pub fn backend(&self) -> (b: &B)
        ensures
            *b == self.backend_spec(),
    {
        &self.backend
    }
}

// ---------------------------------------------------------------------------
// Content loading through a backend
// ---------------------------------------------------------------------------

/// The message of a failed metadata read.
pub open spec fn metadata_error_message(display_path: Seq<char>) -> Seq<char> {
    "Failed to read metadata for "@ + display_path
}

/// The message of a failed byte read.
pub open spec fn read_error_message(display_path: Seq<char>) -> Seq<char> {
    "Failed to read file "@ + display_path
}

/// `c` is the content record of a file suppressed as too large: no text,
/// and one warning that names the file and the size limit.
pub open spec fn is_too_large_record(c: LoadedContent, display_path: Seq<char>) -> bool {
    &&& c.content@ == Seq::<char>::empty()
    &&& c.state == (ContentState::Skipped { reason: ContentSkipReason::TooLarge })
    &&& c.diagnostics@.len() == 1
    &&& c.diagnostics@[0].kind == DiagnosticKind::ContentSkipped
    &&& c.diagnostics@[0].level == crate::content::DiagnosticLevel::Warn
    &&& opt_view(c.diagnostics@[0].path) == Some(display_path)
    &&& c.diagnostics@[0].message@ == "Skipping "@ + display_path + " because it exceeds the max file size of "@
        + crate::text::decimal(MAX_FILE_SIZE as nat) + " bytes"@ + " ("@ + "too_large"@ + ")"@
}

/// The diagnostics of a classified file: none when its text loaded as is;
/// one lossy-decoding warning; or one content-skipped warning naming the
/// file and why it was withheld.
pub open spec fn classified_diagnostics(c: LoadedContent, display_path: Seq<char>) -> bool {
    &&& c.state == ContentState::Loaded ==> c.diagnostics@.len() == 0
    &&& c.state != ContentState::Loaded ==> c.diagnostics@.len() == 1
    &&& c.state == ContentState::LoadedLossy ==> crate::content::diag_view(c.diagnostics@[0]) == crate::content::diag(
        crate::content::DiagnosticLevel::Warn,
        DiagnosticKind::ContentDecodedLossy,
        "Decoded "@ + display_path + " with lossy UTF-8 replacement"@,
        Some(display_path),
    )
    &&& c.state matches ContentState::Skipped { reason } ==> {
        &&& c.diagnostics@[0].kind == DiagnosticKind::ContentSkipped
        &&& opt_view(c.diagnostics@[0].path) == Some(display_path)
        &&& c.diagnostics@[0].message@ == (match reason {
            ContentSkipReason::Binary => "Skipping binary file "@ + display_path,
            _ => "Skipping possible secret-containing file "@ + display_path,
        }) + " ("@ + crate::content::skip_reason_label(reason) + ")"@
    }
}

/// `c` is the content record produced by the content policy for `bytes`
/// of the file shown as `display_path`.
pub open spec fn is_classified_record(c: LoadedContent, bytes: Seq<u8>, display_path: Seq<char>) -> bool {
    &&& c.state == content_state_for(0, bytes)
    &&& c.content@ == content_text_for(c.state, bytes)
    &&& classified_diagnostics(c, display_path)
}

/// What loading yields once the metadata is known: a too-large record when
/// the size exceeds [`MAX_FILE_SIZE`] (no read is made), else the failed
/// read's error, else the content policy applied to the bytes read.
pub open spec fn load_outcome_spec(
    display_path: Seq<char>,
    size_bytes: u64,
    read: Option<Result<Vec<u8>, String>>,
    r: Result<LoadedContent, String>,
) -> bool {
    if size_bytes > MAX_FILE_SIZE {
        r matches Ok(c) && is_too_large_record(c, display_path)
    } else {
        match read {
            Some(Ok(bytes)) => r matches Ok(c) && is_classified_record(c, bytes@, display_path),
            Some(Err(_)) => r matches Err(e) && e@ == read_error_message(display_path),
            None => false,
        }
    }
}

/// Finishes loading a file from its size and the outcome of reading it
/// (`None` when no read was made).
pub fn load_content_from_read(display_path: &str, size_bytes: u64, read: Option<Result<Vec<u8>, String>>) -> (r:
    Result<LoadedContent, String>)
    requires
        size_bytes <= MAX_FILE_SIZE ==> read is Some,
    ensures
        load_outcome_spec(display_path@, size_bytes, read, r),
{
    if size_bytes > MAX_FILE_SIZE {
        return Ok(too_large_content(display_path));
    }
    match read {
        Some(Ok(bytes)) => Ok(classify_file_bytes(display_path, bytes)),
        Some(Err(_)) => {
            let mut m: Vec<char> = Vec::new();
            push_str(&mut m, "Failed to read file ");
            push_str(&mut m, display_path);
            Err(string_from_chars(&m))
        },
        None => Err(String::new()),
    }
}

/// The read made for a file of `size_bytes` bytes at `path`: none when the
/// file is too large, else an outcome of the backend's `read_bytes`.
pub open spec fn read_made<B: SearchBackend>(
    backend: &B,
    path: Seq<char>,
    size_bytes: u64,
    read: Option<Result<Vec<u8>, String>>,
) -> bool {
    if size_bytes > MAX_FILE_SIZE {
        read is None
    } else {
        read matches Some(x) && backend.read_outcome(path, x)
    }
}

/// `r` is what loading the file at `resolved_path` through `backend` can
/// give: the metadata error after a failed `stat`, or, after a `stat` that
/// gave metadata, the outcome of the read made for its size.
pub open spec fn backend_load_holds<B: SearchBackend>(
    backend: &B,
    resolved_path: Seq<char>,
    display_path: Seq<char>,
    r: Result<LoadedContent, String>,
) -> bool {
    ||| exists|e: String|
        #[trigger] backend.stat_outcome(resolved_path, Err(e)) && (r matches Err(m) && m@ == metadata_error_message(
            display_path,
        ))
    ||| exists|md: BackendMetadata, read: Option<Result<Vec<u8>, String>>|
        #[trigger] backend.stat_outcome(resolved_path, Ok(md)) && #[trigger] read_made(
            backend,
            resolved_path,
            md.size_bytes,
            read,
        ) && load_outcome_spec(display_path, md.size_bytes, read, r)
}

/// Loads the content of a file through a backend: its metadata first (by
/// `stat` of the resolved path), then, unless the file is too large, its
/// bytes (by `read_bytes` of the resolved path), then the content policy.
/// A failed `stat` gives the metadata error.
pub fn load_search_content_with_backend<B: SearchBackend>(backend: &B, resolved_path: &str, display_path: &str) -> (r:
    Result<LoadedContent, String>)
    ensures
        backend_load_holds(backend, resolved_path@, display_path@, r),
{
    let stat = backend.stat(resolved_path);
    let metadata = match stat {
        Ok(m) => m,
        Err(se) => {
            let mut m: Vec<char> = Vec::new();
            push_str(&mut m, "Failed to read metadata for ");
            push_str(&mut m, display_path);
            let msg = string_from_chars(&m);
            assert(backend.stat_outcome(resolved_path@, Err(se)));
            assert(backend_load_holds(backend, resolved_path@, display_path@, Err(msg)));
            return Err(msg);
        },
    };
    let read = if metadata.size_bytes > MAX_FILE_SIZE {
        None
    } else {
        Some(backend.read_bytes(resolved_path))
    };
    let ghost read_copy = read;
    let r = load_content_from_read(display_path, metadata.size_bytes, read);
    assert(backend.stat_outcome(resolved_path@, Ok(metadata)));
    assert(read_made(backend, resolved_path@, metadata.size_bytes, read_copy));
    assert(backend_load_holds(backend, resolved_path@, display_path@, r));
    r
}

// ---------------------------------------------------------------------------
// Path segments
// ---------------------------------------------------------------------------

/// Index of the first `/` at or after `i`, or the length when there is none.
pub open spec fn seg_end(p: Seq<char>, i: int) -> int
    decreases p.len() - i,
{
    if i < 0 || i >= p.len() {
        p.len() as int
    } else if p[i] == '/' {
        i
    } else {
        seg_end(p, i + 1)
    }
}

/// Facts about [`seg_end`].
pub proof fn lemma_seg_end(p: Seq<char>, i: int, k: int)
    requires
        0 <= i <= k <= p.len(),
        forall|j: int| i <= j < k ==> p[j] != '/',
        k == p.len() || p[k] == '/',
    ensures
        seg_end(p, i) == k,
    decreases k - i,
{
    if i < k {
        lemma_seg_end(p, i + 1, k);
    }
}

/// [`seg_end`] lies between `i` and the length.
pub proof fn lemma_seg_end_bounds(p: Seq<char>, i: int)
    requires
        0 <= i,
    ensures
        i <= seg_end(p, i) <= p.len() || (i > p.len() && seg_end(p, i) == p.len()),
        seg_end(p, i) < p.len() ==> p[seg_end(p, i)] == '/',
        forall|j: int| i <= j < seg_end(p, i) ==> p[j] != '/',
    decreases p.len() - i,
{
    if i < p.len() && p[i] != '/' {
        lemma_seg_end_bounds(p, i + 1);
    }
}

/// A hidden component starts at `i`: a `/`-separated segment that starts
/// with `.` and is neither `.` nor `..`.
pub open spec fn hidden_segment_at(p: Seq<char>, i: int) -> bool {
    &&& 0 <= i < p.len()
    &&& (i == 0 || p[i - 1] == '/')
    &&& p[i] == '.'
    &&& seg_end(p, i) - i != 1
    &&& !(seg_end(p, i) - i == 2 && p[i + 1] == '.')
}

/// The path has a hidden component.
pub open spec fn has_hidden_component(p: Seq<char>) -> bool {
    exists|i: int| hidden_segment_at(p, i)
}

/// Number of non-empty `/`-separated segments at or after `i`.
pub open spec fn segment_count_from(p: Seq<char>, i: int) -> nat
    decreases p.len() + 1 - i,
{
    if i < 0 || i > p.len() {
        0
    } else {
        proof {
            lemma_seg_end_bounds(p, i);
        }
        let e = seg_end(p, i);
        (if e > i {
            1nat
        } else {
            0nat
        }) + segment_count_from(p, e + 1)
    }
}

/// Number of components of a relative path.
pub open spec fn component_count(p: Seq<char>) -> nat {
    segment_count_from(p, 0)
}

/// Scans the segments of a relative path: whether one is hidden, and how
/// many are non-empty.
pub fn scan_path_segments(path: &str) -> (r: (bool, usize))
    ensures
        r.0 == has_hidden_component(path@),
        r.1 == component_count(path@),
{
    let cs = crate::text::chars_of(path);
    let ghost p = cs@;
    let mut start: usize = 0;
    let mut hidden = false;
    let mut count: usize = 0;
    loop
        invariant_except_break
            start <= cs.len(),
            start == 0 || p[start - 1] == '/',
            count <= start,
            count + segment_count_from(p, start as int) == component_count(p),
            hidden == exists|i: int| 0 <= i < start && hidden_segment_at(p, i),
        invariant
            p == path@,
            p == cs@,
        ensures
            count == component_count(p),
            hidden == has_hidden_component(p),
        decreases cs.len() - start,
    {
        let mut end: usize = start;
        while end < cs.len() && cs[end] != '/'
            invariant
                start <= end <= cs.len(),
                p == cs@,
                forall|j: int| start <= j < end ==> p[j] != '/',
            decreases cs.len() - end,
        {
            end = end + 1;
        }
        proof {
            lemma_seg_end(p, start as int, end as int);
        }
        let seg_len = end - start;
        let is_hidden_here = start < cs.len() && cs[start] == '.' && seg_len != 1 && !(seg_len == 2 && cs[start
            + 1] == '.');
        proof {
            assert(is_hidden_here == hidden_segment_at(p, start as int));
            assert forall|i: int| start < i < end implies !hidden_segment_at(p, i) by {
                assert(p[i - 1] != '/');
            }
            if hidden {
                let w = choose|i: int| 0 <= i < start && hidden_segment_at(p, i);
                assert(0 <= w < end + 1 && hidden_segment_at(p, w));
            }
            if is_hidden_here {
                assert(0 <= start < end + 1 && hidden_segment_at(p, start as int));
            }
            assert((hidden || is_hidden_here) == exists|i: int| 0 <= i < end + 1 && hidden_segment_at(p, i));
        }
        if is_hidden_here {
            hidden = true;
        }
        if seg_len > 0 {
            count = count + 1;
        }
        if end == cs.len() {
            proof {
                assert(segment_count_from(p, end + 1) == 0);
                assert(hidden == has_hidden_component(p)) by {
                    if has_hidden_component(p) {
                        let w = choose|i: int| hidden_segment_at(p, i);
                        assert(0 <= w < end + 1);
                    }
                }
            }
            break;
        }
        start = end + 1;
    }
    (hidden, count)
}

/// Whether a relative path has a hidden component.
pub fn path_has_hidden_component(path: &str) -> (b: bool)
    ensures
        b == has_hidden_component(path@),
{
    scan_path_segments(path).0
}

// ---------------------------------------------------------------------------
// Glob matching
// ---------------------------------------------------------------------------

/// Whether a glob pattern compiles.
pub uninterp spec fn glob_compiles(pattern: Seq<char>) -> bool;

/// Whether `globset::GlobSet::new` builds a matcher from the compiled
/// pattern (it can refuse one whose regular expression is too large).
pub uninterp spec fn glob_set_builds(pattern: Seq<char>) -> bool;

/// Whether the matcher built from a pattern matches a path
/// (`GlobSet::is_match`).
pub uninterp spec fn glob_matches_path(pattern: Seq<char>, path: Seq<char>) -> bool;

/// A pattern compiles, its matcher builds, and it matches the path.
pub open spec fn glob_hits(pattern: Seq<char>, path: Seq<char>) -> bool {
    glob_compiles(pattern) && glob_set_builds(pattern) && glob_matches_path(pattern, path)
}

/// The message of the error that `globset::Glob::new` reports for a
/// pattern that does not compile.
pub uninterp spec fn glob_error_text(pattern: Seq<char>) -> Seq<char>;

/// Compiles a glob with `globset::Glob::new`: `Ok` when it compiles, else
/// the error's message.
#[verifier::external_body]
pub(crate) fn glob_compile(pattern: &str) -> (r: Result<(), String>)
    ensures
        r is Ok <==> glob_compiles(pattern@),
        r matches Err(m) ==> m@ == glob_error_text(pattern@),
{
    match globset::Glob::new(pattern) {
        Ok(_) => Ok(()),
        Err(e) => Err(e.to_string()),
    }
}

/// True when a glob compiles.
fn glob_check(pattern: &str) -> (ok: bool)
    ensures
        ok == glob_compiles(pattern@),
{
    glob_compile(pattern).is_ok()
}

/// Matches a path against a glob: `globset::Glob::new`, then
/// `GlobSet::new` on that one glob (which returns, rather than panics on,
/// a regular expression it cannot build), then `GlobSet::is_match`; false
/// when the pattern does not compile or its matcher does not build.
#[verifier::external_body]
pub(crate) fn glob_is_match(pattern: &str, path: &str) -> (b: bool)
    ensures
        b == (glob_compiles(pattern@) && glob_set_builds(pattern@) && glob_matches_path(pattern@, path@)),
{
    match globset::Glob::new(pattern) {
        Ok(glob) => match globset::GlobSet::new([glob]) {
            Ok(set) => set.is_match(path),
            Err(_) => false,
        },
        Err(_) => false,
    }
}

/// Some pattern of `patterns` matches `path`.
pub open spec fn any_glob_matches(patterns: Seq<Seq<char>>, path: Seq<char>) -> bool {
    exists|i: int| 0 <= i < patterns.len() && glob_hits(#[trigger] patterns[i], path)
}

/// Whether any pattern of a set matches a path.
pub fn any_pattern_matches(patterns: &Vec<String>, path: &str) -> (b: bool)
    ensures
        b == any_glob_matches(views(patterns@), path@),
{
    let mut i: usize = 0;
    while i < patterns.len()
        invariant
            i <= patterns.len(),
            forall|j: int| 0 <= j < i ==> !glob_hits(#[trigger] views(patterns@)[j], path@),
        decreases patterns.len() - i,
    {
        if glob_is_match(patterns[i].as_str(), path) {
            assert(views(patterns@)[i as int] == patterns@[i as int]@);
            return true;
        }
        assert(views(patterns@)[i as int] == patterns@[i as int]@);
        i = i + 1;
    }
    false
}

/// The built-in ignore patterns: dependency, build and VCS directories and
/// Python caches.
pub open spec fn default_ignore_patterns_spec() -> Seq<Seq<char>> {
    seq![
        "node_modules/**"@,
        "target/**"@,
        "dist/**"@,
        "build/**"@,
        ".git/**"@,
        ".svn/**"@,
        ".hg/**"@,
        "**/*.pyc"@,
        "**/__pycache__/**"@,
    ]
}

/// The built-in ignore patterns.
pub fn default_ignore_patterns() -> (v: Vec<String>)
    ensures
        views(v@) == default_ignore_patterns_spec(),
{
    let v = vec![
        owned("node_modules/**"),
        owned("target/**"),
        owned("dist/**"),
        owned("build/**"),
        owned(".git/**"),
        owned(".svn/**"),
        owned(".hg/**"),
        owned("**/*.pyc"),
        owned("**/__pycache__/**"),
    ];
    assert(views(v@) =~= default_ignore_patterns_spec());
    v
}


// ---------------------------------------------------------------------------
// Ignore files
// ---------------------------------------------------------------------------

/// `p` without any leading `./` prefixes.
pub open spec fn trim_dot_slash(p: Seq<char>) -> Seq<char>
    decreases p.len(),
{
    if p.len() >= 2 && p[0] == '.' && p[1] == '/' {
        trim_dot_slash(p.skip(2))
    } else {
        p
    }
}

/// The glob an ignore-file pattern stands for: a directory pattern (ending
/// in `/`) covers everything below it; a bare name matches at any depth;
/// anything with a `/`, a `*` or a leading `.` is taken as written.
pub open spec fn normalize_ignore_spec(pattern: Seq<char>) -> Seq<char> {
    let t = trim_dot_slash(pattern);
    if t.len() > 0 && t.last() == '/' {
        t + "**"@
    } else if t.contains('/') || t.contains('*') || (t.len() > 0 && t[0] == '.') {
        t
    } else {
        "**/"@ + t
    }
}

/// Normalizes one ignore-file pattern into a glob.
pub fn normalize_ignore_pattern(pattern: &str) -> (g: String)
    ensures
        g@ == normalize_ignore_spec(pattern@),
{
    let cs = crate::text::chars_of(pattern);
    let mut i: usize = 0;
    assert(cs@.skip(0) =~= cs@);
    while cs.len() - i >= 2 && cs[i] == '.' && cs[i + 1] == '/'
        invariant
            i <= cs.len(),
            cs@ == pattern@,
            trim_dot_slash(cs@) == trim_dot_slash(cs@.skip(i as int)),
        decreases cs.len() - i,
    {
        assert(cs@.skip(i as int).skip(2) =~= cs@.skip(i + 2));
        i = i + 2;
    }
    let t = crate::text::slice_chars(&cs, i, cs.len());
    assert(t@ =~= cs@.skip(i as int));
    let tl = t.as_str();
    let tcs = crate::text::chars_of(tl);
    if tcs.len() > 0 && tcs[tcs.len() - 1] == '/' {
        let mut out: Vec<char> = Vec::new();
        push_str(&mut out, tl);
        push_str(&mut out, "**");
        return string_from_chars(&out);
    }
    if crate::text::str_has_char(tl, '/') || crate::text::str_has_char(tl, '*') || (tcs.len() > 0 && tcs[0] == '.') {
        return t;
    }
    let mut out: Vec<char> = Vec::new();
    push_str(&mut out, "**/");
    push_str(&mut out, tl);
    string_from_chars(&out)
}

/// What one line of an ignore file contributes: nothing for blank lines and
/// comments, else whether it re-includes (`!`) and its normalized glob.
pub open spec fn ignore_line_rule(line: Seq<char>) -> Option<(bool, Seq<char>)> {
    let t = trim_spec(line);
    if t.len() == 0 || t[0] == '#' {
        None
    } else if t[0] == '!' {
        let target = trim_spec(t.drop_first());
        if target.len() == 0 {
            None
        } else {
            Some((true, normalize_ignore_spec(target)))
        }
    } else {
        Some((false, normalize_ignore_spec(t)))
    }
}

/// The compiling globs of the given polarity contributed by `lines`, in
/// order.
pub open spec fn ignore_globs(lines: Seq<Seq<char>>, unignore: bool) -> Seq<Seq<char>>
    decreases lines.len(),
{
    if lines.len() == 0 {
        Seq::empty()
    } else {
        let rest = ignore_globs(lines.drop_last(), unignore);
        match ignore_line_rule(lines.last()) {
            Some((u, g)) => if u == unignore && glob_compiles(g) {
                rest.push(g)
            } else {
                rest
            },
            None => rest,
        }
    }
}

/// Exclusion rules read from one ignore file at the root.
#[derive(Debug, Clone)]
pub struct IgnoreRules {
    /// The file the rules come from.
    pub source: String,
    /// Exclusion globs, in file order.
    pub patterns: Vec<String>,
    /// Re-inclusion globs (`!` lines).
    pub unignore_patterns: Vec<String>,
}

/// The rules of an ignore file with the given contents.
pub open spec fn ignore_rules_spec(rules: IgnoreRules, source: Seq<char>, contents: Seq<char>) -> bool {
    let lines = crate::text::lines_with_endings(contents);
    &&& rules.source@ == source
    &&& views(rules.patterns@) == ignore_globs(lines, false)
    &&& views(rules.unignore_patterns@) == ignore_globs(lines, true)
}

/// Rules of a missing ignore file: none.
pub fn empty_ignore_rules(source: &str) -> (r: IgnoreRules)
    ensures
        r.source@ == source@,
        r.patterns@.len() == 0,
        r.unignore_patterns@.len() == 0,
{
    IgnoreRules { source: owned(source), patterns: Vec::new(), unignore_patterns: Vec::new() }
}

/// Parses the contents of an ignore file (`.gitignore` syntax subset).
pub fn parse_ignore_rules(source: &str, contents: &str) -> (r: IgnoreRules)
    ensures
        ignore_rules_spec(r, source@, contents@),
{
    let lines = crate::text::split_lines_with_endings(contents);
    let ghost ls = crate::text::lines_with_endings(contents@);
    let mut patterns: Vec<String> = Vec::new();
    let mut unignore: Vec<String> = Vec::new();
    let mut i: usize = 0;
    while i < lines.len()
        invariant
            i <= lines.len(),
            views(lines@) == ls,
            views(patterns@) == ignore_globs(ls.take(i as int), false),
            views(unignore@) == ignore_globs(ls.take(i as int), true),
        decreases lines.len() - i,
    {
        let ghost prev = ls.take(i as int);
        proof {
            assert(ls.take(i + 1).drop_last() =~= prev);
            assert(ls.take(i + 1).last() == lines@[i as int]@);
        }
        let t = crate::text::trim_str(lines[i].as_str());
        let tl = t.as_str();
        let tcs = crate::text::chars_of(tl);
        if tcs.len() > 0 && tcs[0] != '#' {
            if tcs[0] == '!' {
                let rest = crate::text::slice_chars(&tcs, 1, tcs.len());
                assert(rest@ =~= t@.drop_first());
                let target = crate::text::trim_str(rest.as_str());
                if !target.as_str().is_empty() {
                    let g = normalize_ignore_pattern(target.as_str());
                    if glob_check(g.as_str()) {
                        let ghost before = unignore@;
                        unignore.push(g);
                        proof {
                            crate::text::lemma_views_push(before, unignore@[before.len() as int]);
                        }
                    }
                }
            } else {
                let g = normalize_ignore_pattern(tl);
                if glob_check(g.as_str()) {
                    let ghost before = patterns@;
                    patterns.push(g);
                    proof {
                        crate::text::lemma_views_push(before, patterns@[before.len() as int]);
                    }
                }
            }
        }
        i = i + 1;
    }
    proof {
        assert(ls.take(i as int) =~= ls);
    }
    IgnoreRules { source: owned(source), patterns, unignore_patterns: unignore }
}

/// The re-inclusion glob contributed by one line of the root `.rdumpignore`
/// when building the root re-inclusion set.
pub open spec fn root_unignore_line(line: Seq<char>) -> Option<Seq<char>> {
    let t = trim_spec(line);
    if t.len() == 0 || t[0] != '!' {
        None
    } else {
        let p = trim_spec(t.drop_first());
        if p.len() == 0 {
            None
        } else if p.last() == '/' {
            Some(p + "**"@)
        } else {
            Some(p)
        }
    }
}

/// The compiling re-inclusion globs of the root `.rdumpignore`, in order.
pub open spec fn root_unignore_globs(lines: Seq<Seq<char>>) -> Seq<Seq<char>>
    decreases lines.len(),
{
    if lines.len() == 0 {
        Seq::empty()
    } else {
        let rest = root_unignore_globs(lines.drop_last());
        match root_unignore_line(lines.last()) {
            Some(g) => if glob_compiles(g) {
                rest.push(g)
            } else {
                rest
            },
            None => rest,
        }
    }
}

/// Parses the re-inclusion globs of the root `.rdumpignore`.
pub fn parse_root_unignores(contents: &str) -> (r: Vec<String>)
    ensures
        views(r@) == root_unignore_globs(crate::text::lines_with_endings(contents@)),
{
    let lines = crate::text::split_lines_with_endings(contents);
    let ghost ls = crate::text::lines_with_endings(contents@);
    let mut out: Vec<String> = Vec::new();
    let mut i: usize = 0;
    while i < lines.len()
        invariant
            i <= lines.len(),
            views(lines@) == ls,
            views(out@) == root_unignore_globs(ls.take(i as int)),
        decreases lines.len() - i,
    {
        let ghost prev = ls.take(i as int);
        proof {
            assert(ls.take(i + 1).drop_last() =~= prev);
            assert(ls.take(i + 1).last() == lines@[i as int]@);
        }
        let t = crate::text::trim_str(lines[i].as_str());
        let tcs = crate::text::chars_of(t.as_str());
        if tcs.len() > 0 && tcs[0] == '!' {
            let rest = crate::text::slice_chars(&tcs, 1, tcs.len());
            assert(rest@ =~= t@.drop_first());
            let p = crate::text::trim_str(rest.as_str());
            let pcs = crate::text::chars_of(p.as_str());
            if pcs.len() > 0 {
                let g = if pcs[pcs.len() - 1] == '/' {
                    let mut o: Vec<char> = Vec::new();
                    push_str(&mut o, p.as_str());
                    push_str(&mut o, "**");
                    string_from_chars(&o)
                } else {
                    p
                };
                if glob_check(g.as_str()) {
                    let ghost before = out@;
                    out.push(g);
                    proof {
                        crate::text::lemma_views_push(before, out@[before.len() as int]);
                    }
                }
            }
        }
        i = i + 1;
    }
    proof {
        assert(ls.take(i as int) =~= ls);
    }
    out
}

/// The first compiling pattern of `patterns` that matches `path`.
pub open spec fn first_matching(patterns: Seq<Seq<char>>, path: Seq<char>) -> Option<Seq<char>>
    decreases patterns.len(),
{
    if patterns.len() == 0 {
        None
    } else if glob_hits(patterns[0], path) {
        Some(patterns[0])
    } else {
        first_matching(patterns.drop_first(), path)
    }
}

/// The pattern of an ignore file that excludes `path`: none when a `!` rule
/// re-includes it, else the first matching exclusion pattern.
pub open spec fn matching_pattern_spec(rules: IgnoreRules, path: Seq<char>) -> Option<Seq<char>> {
    if any_glob_matches(views(rules.unignore_patterns@), path) {
        None
    } else {
        first_matching(views(rules.patterns@), path)
    }
}

impl IgnoreRules {
    /// The pattern of these rules that excludes `relative`, if any.
    pub fn matching_pattern(&self, relative: &str) -> (r: Option<String>)
        ensures
            opt_view(r) == matching_pattern_spec(*self, relative@),
    {
        if any_pattern_matches(&self.unignore_patterns, relative) {
            return None;
        }
        let ghost ps = views(self.patterns@);
        let mut i: usize = 0;
        assert(ps.skip(0) =~= ps);
        while i < self.patterns.len()
            invariant
                i <= self.patterns.len(),
                ps == views(self.patterns@),
                !any_glob_matches(views(self.unignore_patterns@), relative@),
                first_matching(ps, relative@) == first_matching(ps.skip(i as int), relative@),
            decreases self.patterns.len() - i,
        {
            assert(ps.skip(i as int)[0] == self.patterns@[i as int]@);
            assert(ps.skip(i as int).drop_first() =~= ps.skip(i + 1));
            if glob_is_match(self.patterns[i].as_str(), relative) {
                return Some(self.patterns[i].clone());
            }
            i = i + 1;
        }
        assert(ps.skip(i as int) =~= Seq::<Seq<char>>::empty());
        None
    }
}

// ---------------------------------------------------------------------------
// Discovery decisions
// ---------------------------------------------------------------------------

/// Why a discovered file is skipped, or that it is a candidate.
#[derive(Debug, Clone, PartialEq, Eq)]
pub enum DiscoveryDecision {
    /// Deeper than the depth limit.
    TooDeep,
    /// Has a hidden component and hidden files are not searched.
    Hidden,
    /// Matched a built-in ignore pattern.
    DefaultIgnored,
    /// Excluded by an ignore file.
    Ignored { source: String, pattern: String },
    /// Kept as a candidate.
    Candidate,
}

/// Ignore state of one discovery: the root re-inclusions and the rules of
/// the root `.gitignore` and `.rdumpignore`.
#[derive(Debug, Clone)]
pub struct DiscoveryRules {
    pub root_unignores: Vec<String>,
    pub gitignore: IgnoreRules,
    pub rdumpignore: IgnoreRules,
}

/// The decision for a discovered file at `relative`, checked in order:
/// depth, hidden components, built-in patterns (unless re-included at the
/// root), `.gitignore`, `.rdumpignore`.
pub open spec fn discovery_decision_spec(
    relative: Seq<char>,
    max_depth: Option<usize>,
    hidden: bool,
    no_ignore: bool,
    rules: DiscoveryRules,
) -> (DiscoveryDecision, Seq<char>, Seq<char>) {
    let depth = match max_depth {
        Some(d) => d,
        None => DEFAULT_MAX_DEPTH,
    };
    if component_count(relative) > depth {
        (DiscoveryDecision::TooDeep, Seq::empty(), Seq::empty())
    } else if !hidden && has_hidden_component(relative) {
        (DiscoveryDecision::Hidden, Seq::empty(), Seq::empty())
    } else if !no_ignore && any_glob_matches(default_ignore_patterns_spec(), relative) && !any_glob_matches(
        views(rules.root_unignores@),
        relative,
    ) {
        (DiscoveryDecision::DefaultIgnored, Seq::empty(), Seq::empty())
    } else if !no_ignore && matching_pattern_spec(rules.gitignore, relative) is Some {
        (
            DiscoveryDecision::Ignored { source: rules.gitignore.source, pattern: rules.gitignore.source },
            rules.gitignore.source@,
            matching_pattern_spec(rules.gitignore, relative)->0,
        )
    } else if !no_ignore && matching_pattern_spec(rules.rdumpignore, relative) is Some {
        (
            DiscoveryDecision::Ignored { source: rules.rdumpignore.source, pattern: rules.rdumpignore.source },
            rules.rdumpignore.source@,
            matching_pattern_spec(rules.rdumpignore, relative)->0,
        )
    } else {
        (DiscoveryDecision::Candidate, Seq::empty(), Seq::empty())
    }
}

/// The decision matches the expected one: same variant and, for an ignore
/// file exclusion, the same source and pattern.
pub open spec fn decision_is(d: DiscoveryDecision, expected: (DiscoveryDecision, Seq<char>, Seq<char>)) -> bool {
    match expected.0 {
        DiscoveryDecision::Ignored { .. } => d matches DiscoveryDecision::Ignored { source, pattern } && source@
            == expected.1 && pattern@ == expected.2,
        _ => d == expected.0,
    }
}

/// Decides what discovery does with a file at `relative`.
pub fn classify_discovered_file(
    relative: &str,
    max_depth: Option<usize>,
    hidden: bool,
    no_ignore: bool,
    rules: &DiscoveryRules,
) -> (d: DiscoveryDecision)
    ensures
        decision_is(d, discovery_decision_spec(relative@, max_depth, hidden, no_ignore, *rules)),
{
    let depth = match max_depth {
        Some(d) => d,
        None => DEFAULT_MAX_DEPTH,
    };
    let (has_hidden, components) = scan_path_segments(relative);
    if components > depth {
        return DiscoveryDecision::TooDeep;
    }
    if !hidden && has_hidden {
        return DiscoveryDecision::Hidden;
    }
    if !no_ignore {
        let defaults = default_ignore_patterns();
        if any_pattern_matches(&defaults, relative) && !any_pattern_matches(&rules.root_unignores, relative) {
            return DiscoveryDecision::DefaultIgnored;
        }
        if let Some(pattern) = rules.gitignore.matching_pattern(relative) {
            return DiscoveryDecision::Ignored { source: rules.gitignore.source.clone(), pattern };
        }
        if let Some(pattern) = rules.rdumpignore.matching_pattern(relative) {
            return DiscoveryDecision::Ignored { source: rules.rdumpignore.source.clone(), pattern };
        }
    }
    DiscoveryDecision::Candidate
}

/// Records an exclusion diagnostic when ignore debugging is on and fewer
/// than [`MAX_EXCLUSION_DIAGNOSTICS`] diagnostics are recorded.
pub fn maybe_record_ignore_debug(
    report: &mut DiscoveryReport,
    ignore_debug: bool,
    path: &str,
    source: &str,
    pattern: &str,
)
    ensures
        final(report).candidates == old(report).candidates,
        final(report).hidden_skipped == old(report).hidden_skipped,
        final(report).ignore_skipped == old(report).ignore_skipped,
        final(report).max_depth_skipped == old(report).max_depth_skipped,
        final(report).unreadable_entries == old(report).unreadable_entries,
        final(report).root_boundary_excluded == old(report).root_boundary_excluded,
        !ignore_debug || old(report).diagnostics@.len() >= MAX_EXCLUSION_DIAGNOSTICS ==> final(report).diagnostics
            == old(report).diagnostics,
        ignore_debug && old(report).diagnostics@.len() < MAX_EXCLUSION_DIAGNOSTICS ==> {
            &&& final(report).diagnostics@.len() == old(report).diagnostics@.len() + 1
            &&& final(report).diagnostics@.take(old(report).diagnostics@.len() as int) == old(report).diagnostics@
            &&& diag_view(final(report).diagnostics@.last()) == diag(
                DiagnosticLevel::Info,
                DiagnosticKind::IgnoreExcluded,
                "Excluded by "@ + source@ + " pattern `"@ + pattern@ + "`"@,
                Some(path@),
            )
        },
{
    if !ignore_debug || report.diagnostics.len() >= MAX_EXCLUSION_DIAGNOSTICS {
        return;
    }
    let d = SearchDiagnostic::ignore_excluded(owned(path), source, pattern);
    report.diagnostics.push(d);
    assert(report.diagnostics@.take(old(report).diagnostics@.len() as int) =~= old(report).diagnostics@);
}

/// Counts a decision in the report: the matching skip counter goes up by
/// one and, for hidden and ignored files, an exclusion diagnostic may be
/// recorded. Candidates change nothing.
pub fn record_discovery_decision(
    report: &mut DiscoveryReport,
    decision: &DiscoveryDecision,
    ignore_debug: bool,
    path: &str,
    relative: &str,
)
    requires
        old(report).hidden_skipped < usize::MAX,
        old(report).ignore_skipped < usize::MAX,
        old(report).max_depth_skipped < usize::MAX,
    ensures
        final(report).candidates == old(report).candidates,
        final(report).unreadable_entries == old(report).unreadable_entries,
        final(report).root_boundary_excluded == old(report).root_boundary_excluded,
        final(report).max_depth_skipped == old(report).max_depth_skipped + if *decision
            == DiscoveryDecision::TooDeep {
            1int
        } else {
            0int
        },
        final(report).hidden_skipped == old(report).hidden_skipped + if *decision == DiscoveryDecision::Hidden {
            1int
        } else {
            0int
        },
        final(report).ignore_skipped == old(report).ignore_skipped + if *decision == DiscoveryDecision::DefaultIgnored
            || *decision is Ignored {
            1int
        } else {
            0int
        },
        *decision == DiscoveryDecision::TooDeep || *decision == DiscoveryDecision::Candidate ==> final(report).diagnostics == old(report).diagnostics,
        final(report).diagnostics@.len() <= old(report).diagnostics@.len() + 1,
        old(report).diagnostics@.len() >= MAX_EXCLUSION_DIAGNOSTICS ==> final(report).diagnostics == old(report).diagnostics,
{
    match decision {
        DiscoveryDecision::TooDeep => {
            report.max_depth_skipped = report.max_depth_skipped + 1;
        },
        DiscoveryDecision::Hidden => {
            report.hidden_skipped = report.hidden_skipped + 1;
            maybe_record_ignore_debug(report, ignore_debug, path, "hidden", "path contains hidden component");
        },
        DiscoveryDecision::DefaultIgnored => {
            report.ignore_skipped = report.ignore_skipped + 1;
            maybe_record_ignore_debug(report, ignore_debug, path, "default_ignore", relative);
        },
        DiscoveryDecision::Ignored { source, pattern } => {
            report.ignore_skipped = report.ignore_skipped + 1;
            maybe_record_ignore_debug(report, ignore_debug, path, source.as_str(), pattern.as_str());
        },
        DiscoveryDecision::Candidate => {},
    }
}

/// Counts an entry the walk could not read, with a warning.
pub fn record_unreadable_entry(report: &mut DiscoveryReport, error: &str)
    requires
        old(report).unreadable_entries < usize::MAX,
    ensures
        final(report).unreadable_entries == old(report).unreadable_entries + 1,
        final(report).candidates == old(report).candidates,
        final(report).hidden_skipped == old(report).hidden_skipped,
        final(report).ignore_skipped == old(report).ignore_skipped,
        final(report).max_depth_skipped == old(report).max_depth_skipped,
        final(report).root_boundary_excluded == old(report).root_boundary_excluded,
        final(report).diagnostics@ == old(report).diagnostics@.push(final(report).diagnostics@.last()),
        diag_view(final(report).diagnostics@.last()) == diag(
            DiagnosticLevel::Warn,
            DiagnosticKind::WalkWarning,
            "Could not access entry: "@ + error@,
            None,
        ),
{
    let mut m: Vec<char> = Vec::new();
    push_str(&mut m, "Could not access entry: ");
    push_str(&mut m, error);
    report.unreadable_entries = report.unreadable_entries + 1;
    report.diagnostics.push(SearchDiagnostic::walk_warning(None, string_from_chars(&m)));
    assert(report.diagnostics@ =~= old(report).diagnostics@.push(report.diagnostics@.last()));
}


// ---------------------------------------------------------------------------
// Directory hotspots
// ---------------------------------------------------------------------------

/// At most this many hotspots are reported.
pub const MAX_HOTSPOTS: usize = 10;

/// The bucket of a candidate: the first `/`-separated segment of its
/// root-relative path, or `.` when it has none.
pub open spec fn hotspot_bucket(c: BackendPathIdentity) -> Seq<char> {
    match c.root_relative_path {
        Some(p) => if seg_end(p@, 0) > 0 {
            p@.take(seg_end(p@, 0))
        } else {
            "."@
        },
        None => "."@,
    }
}

/// Number of candidates in bucket `b`.
pub open spec fn bucket_count(cands: Seq<BackendPathIdentity>, b: Seq<char>) -> nat
    decreases cands.len(),
{
    if cands.len() == 0 {
        0
    } else {
        bucket_count(cands.drop_last(), b) + if hotspot_bucket(cands.last()) == b {
            1nat
        } else {
            0nat
        }
    }
}

/// Hotspot order: more candidates first, then by path.
pub open spec fn key_before(c1: int, p1: Seq<char>, c2: int, p2: Seq<char>) -> bool {
    c1 > c2 || (c1 == c2 && crate::text::seq_lt(p1, p2))
}

/// `a` is reported before `b`.
pub open spec fn hotspot_before(
    a: crate::contracts::DirectoryHotspot,
    b: crate::contracts::DirectoryHotspot,
) -> bool {
    key_before(a.candidate_files as int, a.path@, b.candidate_files as int, b.path@)
}

/// The bucket of a candidate.
fn candidate_bucket(c: &BackendPathIdentity) -> (b: String)
    ensures
        b@ == hotspot_bucket(*c),
{
    match &c.root_relative_path {
        Some(p) => {
            let cs = crate::text::chars_of(p.as_str());
            let mut e: usize = 0;
            while e < cs.len() && cs[e] != '/'
                invariant
                    e <= cs.len(),
                    cs@ == p@,
                    forall|j: int| 0 <= j < e ==> cs@[j] != '/',
                decreases cs.len() - e,
            {
                e = e + 1;
            }
            proof {
                lemma_seg_end(cs@, 0, e as int);
            }
            if e > 0 {
                crate::text::slice_chars(&cs, 0, e)
            } else {
                owned(".")
            }
        },
        None => owned("."),
    }
}

/// The counts of the buckets of `cands` in `counts`: every bucket once, with
/// its number of candidates.
pub open spec fn counts_complete(
    counts: Seq<crate::contracts::DirectoryHotspot>,
    cands: Seq<BackendPathIdentity>,
) -> bool {
    &&& forall|k: int|
        0 <= k < counts.len() ==> #[trigger] counts[k].candidate_files == bucket_count(cands, counts[k].path@)
            && bucket_count(cands, counts[k].path@) > 0
    &&& forall|k: int, l: int| 0 <= k < l < counts.len() ==> #[trigger] counts[k].path@ != #[trigger] counts[l].path@
    &&& forall|b: Seq<char>|
        bucket_count(cands, b) > 0 ==> exists|k: int| 0 <= k < counts.len() && #[trigger] counts[k].path@ == b
}

/// Counting one more candidate adds one to its bucket only.
proof fn lemma_bucket_count_step(prev: Seq<BackendPathIdentity>, next: Seq<BackendPathIdentity>, b: Seq<char>)
    requires
        next.len() > 0,
        next.drop_last() == prev,
    ensures
        bucket_count(next, b) == bucket_count(prev, b) + (if hotspot_bucket(next.last()) == b {
            1nat
        } else {
            0nat
        }),
{
}

/// Counts the candidates of every bucket.
#[verifier::rlimit(60)]
fn count_buckets(candidates: &[BackendPathIdentity]) -> (counts: Vec<crate::contracts::DirectoryHotspot>)
    ensures
        counts_complete(counts@, candidates@),
{
    let mut counts: Vec<crate::contracts::DirectoryHotspot> = Vec::new();
    let mut i: usize = 0;
    while i < candidates.len()
        invariant
            i <= candidates.len(),
            counts@.len() <= i,
            counts_complete(counts@, candidates@.take(i as int)),
            forall|k: int| 0 <= k < counts@.len() ==> #[trigger] counts@[k].candidate_files <= i,
        decreases candidates.len() - i,
    {
        let ghost prev = candidates@.take(i as int);
        let ghost next = candidates@.take(i + 1);
        proof {
            assert(next.drop_last() =~= prev);
            assert(next.last() == candidates@[i as int]);
        }
        let b = candidate_bucket(&candidates[i]);
        assert(hotspot_bucket(next.last()) == b@);
        let mut k: usize = 0;
        while k < counts.len() && !crate::text::str_eq(counts[k].path.as_str(), b.as_str())
            invariant
                k <= counts.len(),
                forall|j: int| 0 <= j < k ==> counts@[j].path@ != b@,
            decreases counts.len() - k,
        {
            k = k + 1;
        }
        let ghost before = counts@;
        if k < counts.len() {
            let c = counts[k].candidate_files;
            let updated = crate::contracts::DirectoryHotspot { path: counts[k].path.clone(), candidate_files: c + 1 };
            counts.set(k, updated);
            proof {
                assert forall|j: int| 0 <= j < counts@.len() implies #[trigger] counts@[j].candidate_files
                    == bucket_count(next, counts@[j].path@) && bucket_count(next, counts@[j].path@) > 0 by {
                    assert(counts@[j].path@ == before[j].path@);
                    lemma_bucket_count_step(prev, next, before[j].path@);
                    assert(before[j].candidate_files == bucket_count(prev, before[j].path@));
                    assert(bucket_count(prev, before[j].path@) > 0);
                    assert(bucket_count(next, before[j].path@) == bucket_count(prev, before[j].path@) + (if hotspot_bucket(
                        next.last(),
                    ) == before[j].path@ {
                        1nat
                    } else {
                        0nat
                    }));
                    if j != k {
                        assert(before[j].path@ != before[k as int].path@);
                    }
                }
                assert forall|bb: Seq<char>| bucket_count(next, bb) > 0 implies exists|l: int|
                    0 <= l < counts@.len() && #[trigger] counts@[l].path@ == bb by {
                    lemma_bucket_count_step(prev, next, bb);
                    if bucket_count(prev, bb) > 0 {
                        let l = choose|l: int| 0 <= l < before.len() && #[trigger] before[l].path@ == bb;
                        assert(counts@[l].path@ == bb);
                    } else {
                        assert(counts@[k as int].path@ == bb);
                    }
                }
                assert forall|x: int, y: int| 0 <= x < y < counts@.len() implies #[trigger] counts@[x].path@
                    != #[trigger] counts@[y].path@ by {
                    assert(counts@[x].path@ == before[x].path@);
                    assert(counts@[y].path@ == before[y].path@);
                }
            }
        } else {
            counts.push(crate::contracts::DirectoryHotspot { path: b, candidate_files: 1 });
            proof {
                assert forall|j: int| 0 <= j < counts@.len() implies #[trigger] counts@[j].candidate_files
                    == bucket_count(next, counts@[j].path@) && bucket_count(next, counts@[j].path@) > 0 by {
                    lemma_bucket_count_step(prev, next, counts@[j].path@);
                    if j < before.len() {
                        assert(counts@[j] == before[j]);
                        assert(before[j].path@ != b@);
                        assert(before[j].candidate_files == bucket_count(prev, before[j].path@));
                    } else {
                        assert(bucket_count(prev, b@) == 0) by {
                            if bucket_count(prev, b@) > 0 {
                                let l = choose|l: int| 0 <= l < before.len() && #[trigger] before[l].path@ == b@;
                            }
                        }
                    }
                }
                assert forall|bb: Seq<char>| bucket_count(next, bb) > 0 implies exists|l: int|
                    0 <= l < counts@.len() && #[trigger] counts@[l].path@ == bb by {
                    lemma_bucket_count_step(prev, next, bb);
                    if bucket_count(prev, bb) > 0 {
                        let l = choose|l: int| 0 <= l < before.len() && #[trigger] before[l].path@ == bb;
                        assert(counts@[l].path@ == bb);
                    } else {
                        assert(counts@[before.len() as int].path@ == bb);
                    }
                }
                assert forall|x: int, y: int| 0 <= x < y < counts@.len() implies #[trigger] counts@[x].path@
                    != #[trigger] counts@[y].path@ by {
                    if y < before.len() {
                        assert(counts@[x] == before[x]);
                        assert(counts@[y] == before[y]);
                    } else {
                        assert(counts@[x] == before[x]);
                    }
                }
            }
        }
        i = i + 1;
    }
    proof {
        assert(candidates@.take(i as int) =~= candidates@);
    }
    counts
}

/// Hotspot order is a strict total order on hotspots with distinct paths.
pub proof fn lemma_hotspot_order(
    a: crate::contracts::DirectoryHotspot,
    b: crate::contracts::DirectoryHotspot,
    c: crate::contracts::DirectoryHotspot,
)
    ensures
        !hotspot_before(a, a),
        hotspot_before(a, b) ==> !hotspot_before(b, a),
        a.path@ != b.path@ ==> hotspot_before(a, b) || hotspot_before(b, a),
        hotspot_before(a, b) && hotspot_before(b, c) ==> hotspot_before(a, c),
{
    crate::text::lemma_seq_lt_asym(a.path@, b.path@);
    crate::text::lemma_seq_lt_total(a.path@, b.path@);
    if hotspot_before(a, b) && hotspot_before(b, c) && a.candidate_files == b.candidate_files
        && b.candidate_files == c.candidate_files {
        crate::text::lemma_seq_lt_trans(a.path@, b.path@, c.path@);
    }
}

/// Whether `a` is reported before `b`.
fn hotspot_less(a: &crate::contracts::DirectoryHotspot, b: &crate::contracts::DirectoryHotspot) -> (r: bool)
    ensures
        r == hotspot_before(*a, *b),
{
    a.candidate_files > b.candidate_files || (a.candidate_files == b.candidate_files && crate::text::str_less(
        a.path.as_str(),
        b.path.as_str(),
    ))
}

/// Strictly increasing in hotspot order.
pub open spec fn hotspots_sorted(s: Seq<crate::contracts::DirectoryHotspot>) -> bool {
    forall|a: int, b: int| 0 <= a < b < s.len() ==> hotspot_before(#[trigger] s[a], #[trigger] s[b])
}

/// Sorts hotspots with distinct paths into hotspot order.
fn sort_hotspots(counts: &Vec<crate::contracts::DirectoryHotspot>) -> (sorted: Vec<
    crate::contracts::DirectoryHotspot,
>)
    requires
        forall|k: int, l: int|
            0 <= k < l < counts@.len() ==> #[trigger] counts@[k].path@ != #[trigger] counts@[l].path@,
    ensures
        hotspots_sorted(sorted@),
        sorted@.len() == counts@.len(),
        forall|x: crate::contracts::DirectoryHotspot| sorted@.contains(x) <==> counts@.contains(x),
{
    let mut sorted: Vec<crate::contracts::DirectoryHotspot> = Vec::new();
    let mut i: usize = 0;
    while i < counts.len()
        invariant
            i <= counts.len(),
            sorted@.len() == i,
            hotspots_sorted(sorted@),
            forall|k: int, l: int|
                0 <= k < l < counts@.len() ==> #[trigger] counts@[k].path@ != #[trigger] counts@[l].path@,
            forall|x: crate::contracts::DirectoryHotspot| sorted@.contains(x) <==> counts@.take(i as int).contains(x),
        decreases counts.len() - i,
    {
        let e = crate::contracts::DirectoryHotspot {
            path: counts[i].path.clone(),
            candidate_files: counts[i].candidate_files,
        };
        assert(e == counts@[i as int]);
        let mut pos: usize = 0;
        while pos < sorted.len() && hotspot_less(&sorted[pos], &e)
            invariant
                pos <= sorted.len(),
                forall|j: int| 0 <= j < pos ==> hotspot_before(#[trigger] sorted@[j], e),
            decreases sorted.len() - pos,
        {
            pos = pos + 1;
        }
        let ghost before = sorted@;
        proof {
            assert(forall|x: crate::contracts::DirectoryHotspot| before.contains(x) <==> counts@.take(i as int).contains(x));
            assert forall|j: int| 0 <= j < before.len() implies #[trigger] before[j].path@ != e.path@ by {
                assert(before.contains(before[j]));
                assert(counts@.take(i as int).contains(before[j]));
                let k = choose|k: int| 0 <= k < i && counts@.take(i as int)[k] == before[j];
                assert(counts@[k] == before[j]);
            }
            if pos < before.len() {
                lemma_hotspot_order(before[pos as int], e, e);
                assert(hotspot_before(e, before[pos as int]));
                assert forall|j: int| pos <= j < before.len() implies hotspot_before(e, #[trigger] before[j]) by {
                    if j > pos {
                        lemma_hotspot_order(e, before[pos as int], before[j]);
                    }
                }
            }
        }
        sorted.insert(pos, e);
        proof {
            assert forall|a: int, b: int| 0 <= a < b < sorted@.len() implies hotspot_before(
                #[trigger] sorted@[a],
                #[trigger] sorted@[b],
            ) by {
                if b < pos {
                    assert(sorted@[a] == before[a] && sorted@[b] == before[b]);
                } else if b == pos {
                    assert(sorted@[a] == before[a]);
                } else if a < pos {
                    assert(sorted@[a] == before[a] && sorted@[b] == before[b - 1]);
                    lemma_hotspot_order(before[a], e, before[b - 1]);
                } else if a == pos {
                    assert(sorted@[b] == before[b - 1]);
                } else {
                    assert(sorted@[a] == before[a - 1] && sorted@[b] == before[b - 1]);
                }
            }
            assert forall|x: crate::contracts::DirectoryHotspot| sorted@.contains(x) <==> counts@.take(
                i + 1,
            ).contains(x) by {
                assert(counts@.take(i + 1) =~= counts@.take(i as int).push(e));
                if counts@.take(i + 1).contains(x) {
                    let k = choose|k: int| #![trigger counts@.take(i + 1)[k]] 0 <= k < i + 1 && counts@.take(i + 1)[k] == x;
                    if k < i {
                        assert(counts@.take(i as int)[k] == x);
                        assert(counts@.take(i as int).contains(x));
                        assert(before.contains(x));
                    } else {
                        assert(x == e);
                    }
                }
                if sorted@.contains(x) {
                    let k = choose|k: int| 0 <= k < sorted@.len() && sorted@[k] == x;
                    if k < pos {
                        assert(before[k] == x);
                    } else if k > pos {
                        assert(before[k - 1] == x);
                    }
                    if x != e {
                        assert(before.contains(x));
                        assert(counts@.take(i as int).contains(x));
                        let k2 = choose|k2: int| #![trigger counts@.take(i as int)[k2]] 0 <= k2 < i && counts@.take(i as int)[k2] == x;
                        assert(counts@.take(i + 1)[k2] == x);
                    } else {
                        assert(counts@.take(i + 1)[i as int] == x);
                    }
                }
                if before.contains(x) {
                    let k = choose|k: int| 0 <= k < before.len() && before[k] == x;
                    if k < pos {
                        assert(sorted@[k] == x);
                    } else {
                        assert(sorted@[k + 1] == x);
                    }
                }
                if x == e {
                    assert(sorted@[pos as int] == x);
                }
            }
        }
        i = i + 1;
    }
    proof {
        assert(counts@.take(i as int) =~= counts@);
    }
    sorted
}

/// The directories holding the most candidates: each first-level bucket of
/// the root-relative paths with its number of candidates, most first and
/// then by path, at most [`MAX_HOTSPOTS`] of them.
pub fn build_directory_hotspots(candidates: &[BackendPathIdentity]) -> (r: Vec<crate::contracts::DirectoryHotspot>)
    ensures
        r@.len() <= MAX_HOTSPOTS,
        hotspots_sorted(r@),
        forall|i: int|
            0 <= i < r@.len() ==> #[trigger] r@[i].candidate_files == bucket_count(candidates@, r@[i].path@)
                && bucket_count(candidates@, r@[i].path@) > 0,
        forall|b: Seq<char>|
            bucket_count(candidates@, b) > 0 && !(exists|i: int| 0 <= i < r@.len() && #[trigger] r@[i].path@ == b)
                ==> r@.len() == MAX_HOTSPOTS && key_before(
                r@[MAX_HOTSPOTS - 1].candidate_files as int,
                r@[MAX_HOTSPOTS - 1].path@,
                bucket_count(candidates@, b) as int,
                b,
            ),
{
    let counts = count_buckets(candidates);
    let sorted = sort_hotspots(&counts);
    let mut r: Vec<crate::contracts::DirectoryHotspot> = Vec::new();
    let mut i: usize = 0;
    while i < sorted.len() && i < MAX_HOTSPOTS
        invariant
            i <= sorted.len(),
            i <= MAX_HOTSPOTS,
            r@ == sorted@.take(i as int),
        decreases sorted.len() - i,
    {
        let h = crate::contracts::DirectoryHotspot {
            path: sorted[i].path.clone(),
            candidate_files: sorted[i].candidate_files,
        };
        r.push(h);
        i = i + 1;
        assert(r@ =~= sorted@.take(i as int));
    }
    proof {
        assert forall|k: int|
            0 <= k < r@.len() implies #[trigger] r@[k].candidate_files == bucket_count(candidates@, r@[k].path@)
            && bucket_count(candidates@, r@[k].path@) > 0 by {
            assert(sorted@.contains(r@[k]));
            let j = choose|j: int| 0 <= j < counts@.len() && counts@[j] == r@[k];
        }
        assert forall|b: Seq<char>|
            bucket_count(candidates@, b) > 0 && !(exists|k: int| 0 <= k < r@.len() && #[trigger] r@[k].path@ == b)
            implies r@.len() == MAX_HOTSPOTS && key_before(
            r@[MAX_HOTSPOTS - 1].candidate_files as int,
            r@[MAX_HOTSPOTS - 1].path@,
            bucket_count(candidates@, b) as int,
            b,
        ) by {
            let j = choose|j: int| 0 <= j < counts@.len() && #[trigger] counts@[j].path@ == b;
            assert(counts@.contains(counts@[j]));
            let t = choose|t: int| 0 <= t < sorted@.len() && sorted@[t] == counts@[j];
            if t < i {
                assert(r@[t].path@ == b);
            }
            assert(t >= i);
            assert(i == MAX_HOTSPOTS);
            assert(hotspot_before(sorted@[MAX_HOTSPOTS - 1], sorted@[t]));
        }
    }
    r
}

} // verus!

verus! {

/// Candidates are listed by display path, then by resolved path.
pub open spec fn identity_le(a: BackendPathIdentity, b: BackendPathIdentity) -> bool {
    crate::text::seq_lt(a.display_path@, b.display_path@) || (a.display_path@ == b.display_path@
        && !crate::text::seq_lt(b.resolved_path@, a.resolved_path@))
}

/// The candidate order is total and transitive.
pub proof fn lemma_identity_order(a: BackendPathIdentity, b: BackendPathIdentity, c: BackendPathIdentity)
    ensures
        identity_le(a, b) || identity_le(b, a),
        identity_le(a, b) && identity_le(b, c) ==> identity_le(a, c),
{
    crate::text::lemma_seq_lt_total(a.display_path@, b.display_path@);
    crate::text::lemma_seq_lt_asym(a.resolved_path@, b.resolved_path@);
    if identity_le(a, b) && identity_le(b, c) {
        let (ad, bd, cd) = (a.display_path@, b.display_path@, c.display_path@);
        let (ar, br, cr) = (a.resolved_path@, b.resolved_path@, c.resolved_path@);
        if crate::text::seq_lt(ad, bd) && crate::text::seq_lt(bd, cd) {
            crate::text::lemma_seq_lt_trans(ad, bd, cd);
        } else if ad == bd && bd == cd {
            crate::text::lemma_seq_lt_total(ar, br);
            if crate::text::seq_lt(cr, ar) {
                if ar != br {
                    crate::text::lemma_seq_lt_trans(cr, ar, br);
                }
            }
        }
    }
}

/// Sorted in candidate order.
pub open spec fn candidates_sorted(s: Seq<BackendPathIdentity>) -> bool {
    forall|a: int, b: int| 0 <= a < b < s.len() ==> identity_le(#[trigger] s[a], #[trigger] s[b])
}

/// Whether `a` may stay before `b`.
fn identity_le_exec(a: &BackendPathIdentity, b: &BackendPathIdentity) -> (r: bool)
    ensures
        r == identity_le(*a, *b),
{
    crate::text::str_less(a.display_path.as_str(), b.display_path.as_str()) || (crate::text::str_eq(
        a.display_path.as_str(),
        b.display_path.as_str(),
    ) && !crate::text::str_less(b.resolved_path.as_str(), a.resolved_path.as_str()))
}

/// Sorts discovered candidates by display path, then resolved path (a
/// stable insertion sort: equal keys keep their order).
pub fn sort_candidates(candidates: Vec<BackendPathIdentity>) -> (sorted: Vec<BackendPathIdentity>)
    ensures
        candidates_sorted(sorted@),
        sorted@.len() == candidates@.len(),
        forall|x: BackendPathIdentity| sorted@.contains(x) <==> candidates@.contains(x),
{
    let ghost orig = candidates@;
    assert(orig.len() == candidates.len());
    let mut rest = candidates;
    let mut sorted: Vec<BackendPathIdentity> = Vec::new();
    let mut i: usize = 0;
    while rest.len() > 0
        invariant
            i <= orig.len(),
            rest@ == orig.skip(i as int),
            rest@.len() == orig.len() - i,
            orig.len() <= usize::MAX,
            sorted@.len() == i,
            candidates_sorted(sorted@),
            forall|x: BackendPathIdentity| sorted@.contains(x) <==> orig.take(i as int).contains(x),
        decreases rest.len(),
    {
        let e = rest.remove(0);
        assert(e == orig[i as int]);
        let mut pos: usize = 0;
        while pos < sorted.len() && identity_le_exec(&sorted[pos], &e)
            invariant
                pos <= sorted.len(),
                forall|j: int| 0 <= j < pos ==> identity_le(#[trigger] sorted@[j], e),
            decreases sorted.len() - pos,
        {
            pos = pos + 1;
        }
        let ghost before = sorted@;
        proof {
            if pos < before.len() {
                lemma_identity_order(before[pos as int], e, e);
                assert forall|j: int| pos <= j < before.len() implies identity_le(e, #[trigger] before[j]) by {
                    if j > pos {
                        lemma_identity_order(e, before[pos as int], before[j]);
                    }
                }
            }
        }
        sorted.insert(pos, e);
        proof {
            assert forall|a: int, b: int| 0 <= a < b < sorted@.len() implies identity_le(
                #[trigger] sorted@[a],
                #[trigger] sorted@[b],
            ) by {
                if b < pos {
                    assert(sorted@[a] == before[a] && sorted@[b] == before[b]);
                } else if b == pos {
                    assert(sorted@[a] == before[a]);
                } else if a < pos {
                    assert(sorted@[a] == before[a] && sorted@[b] == before[b - 1]);
                    lemma_identity_order(before[a], e, before[b - 1]);
                } else if a == pos {
                    assert(sorted@[b] == before[b - 1]);
                } else {
                    assert(sorted@[a] == before[a - 1] && sorted@[b] == before[b - 1]);
                }
            }
            assert(orig.take(i + 1) =~= orig.take(i as int).push(e));
            assert forall|x: BackendPathIdentity| sorted@.contains(x) <==> orig.take(i + 1).contains(x) by {
                if orig.take(i + 1).contains(x) {
                    let k = choose|k: int| #![trigger orig.take(i + 1)[k]] 0 <= k < i + 1 && orig.take(i + 1)[k] == x;
                    if k < i {
                        assert(orig.take(i as int)[k] == x);
                        assert(before.contains(x));
                        let m = choose|m: int| 0 <= m < before.len() && before[m] == x;
                        if m < pos {
                            assert(sorted@[m] == x);
                        } else {
                            assert(sorted@[m + 1] == x);
                        }
                    } else {
                        assert(sorted@[pos as int] == x);
                    }
                }
                if sorted@.contains(x) {
                    let k = choose|k: int| 0 <= k < sorted@.len() && sorted@[k] == x;
                    if k == pos {
                        assert(orig.take(i + 1)[i as int] == x);
                    } else {
                        if k < pos {
                            assert(before[k] == x);
                        } else {
                            assert(before[k - 1] == x);
                        }
                        assert(before.contains(x));
                        let k2 = choose|k2: int| #![trigger orig.take(i as int)[k2]] 0 <= k2 < i && orig.take(i as int)[k2] == x;
                        assert(orig.take(i + 1)[k2] == x);
                    }
                }
            }
            assert(rest@ =~= orig.skip(i + 1));
        }
        i = i + 1;
    }
    proof {
        assert(orig.take(i as int) =~= orig);
    }
    sorted
}

/// A path lies under a root: the root is a whole-component prefix of it.
pub fn path_within_root(path: &str, root: &str) -> (b: bool)
    ensures
        b == crate::predicates::strip_root_spec(path@, root@) is Some,
{
    crate::predicates::strip_root(path, root).is_some()
}

/// The identity of a file that the backend resolved to `resolved`: under
/// the root, it is shown under the display root by its root-relative path
/// (a canonical identity); elsewhere, it is shown by its resolved path and
/// has no root-relative path (a fallback identity).
pub fn identity_from_resolved(resolved: &str, root: &str, display_root: &str) -> (id: BackendPathIdentity)
    ensures
        id.resolved_path@ == resolved@,
        match crate::predicates::strip_root_spec(resolved@, root@) {
            Some(rel) => {
                &&& id.display_path@ == crate::predicates::path_join_spec(display_root@, rel)
                &&& opt_view(id.root_relative_path) == Some(rel)
                &&& id.resolution == PathResolution::Canonical
            },
            None => {
                &&& id.display_path@ == resolved@
                &&& id.root_relative_path is None
                &&& id.resolution == PathResolution::Fallback
            },
        },
{
    match crate::predicates::strip_root(resolved, root) {
        Some(rel) => BackendPathIdentity {
            display_path: crate::predicates::path_join(display_root, rel.as_str()),
            resolved_path: owned(resolved),
            root_relative_path: Some(rel),
            resolution: PathResolution::Canonical,
        },
        None => BackendPathIdentity {
            display_path: owned(resolved),
            resolved_path: owned(resolved),
            root_relative_path: None,
            resolution: PathResolution::Fallback,
        },
    }
}

} // verus!

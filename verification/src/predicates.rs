//! Predicate inventory and the metadata predicates evaluated on paths.

use crate::backend::{glob_compile, glob_compiles, glob_error_text, glob_is_match, glob_matches_path, glob_set_builds};
use crate::profiles::PredicateKey;
use crate::text::{chars_of, has_substring, owned, slice_chars, string_from_chars, views};
use vstd::prelude::*;

verus! {

/// Names of the metadata predicates.
pub open spec fn metadata_keys_spec() -> Seq<Seq<char>> {
    seq!["ext"@, "name"@, "path"@, "path_exact"@, "in"@, "size"@, "modified"@]
}

/// Names of the content predicates.
pub open spec fn content_keys_spec() -> Seq<Seq<char>> {
    seq!["contains"@, "matches"@]
}

/// Names of the language-core semantic predicates.
pub open spec fn semantic_keys_spec() -> Seq<Seq<char>> {
    seq![
        "def"@,
        "func"@,
        "import"@,
        "class"@,
        "struct"@,
        "enum"@,
        "interface"@,
        "trait"@,
        "type"@,
        "impl"@,
        "macro"@,
        "module"@,
        "object"@,
        "protocol"@,
        "comment"@,
        "str"@,
        "call"@,
    ]
}

/// Names of the React predicates.
pub open spec fn react_keys_spec() -> Seq<Seq<char>> {
    seq!["component"@, "element"@, "hook"@, "customhook"@, "prop"@]
}

/// Owned copies of string literals.
pub fn strings(items: &Vec<&str>) -> (v: Vec<String>)
    ensures
        views(v@) == items@.map_values(|s: &str| s@),
{
    let mut v: Vec<String> = Vec::new();
    let mut i: usize = 0;
    while i < items.len()
        invariant
            i <= items.len(),
            views(v@) == items@.take(i as int).map_values(|s: &str| s@),
        decreases items.len() - i,
    {
        let ghost v0 = v@;
        v.push(owned(items[i]));
        i = i + 1;
        proof {
            crate::text::lemma_views_push(v0, v@.last());
            assert(views(v@) =~= items@.take(i as int).map_values(|s: &str| s@));
        }
    }
    assert(items@.take(i as int) =~= items@);
    v
}

/// The metadata predicate names.
pub fn metadata_predicate_keys() -> (v: Vec<String>)
    ensures
        views(v@) == metadata_keys_spec(),
{
    let v = strings(&vec!["ext", "name", "path", "path_exact", "in", "size", "modified"]);
    assert(views(v@) =~= metadata_keys_spec());
    v
}

/// The content predicate names.
pub fn content_predicate_keys() -> (v: Vec<String>)
    ensures
        views(v@) == content_keys_spec(),
{
    let v = strings(&vec!["contains", "matches"]);
    assert(views(v@) =~= content_keys_spec());
    v
}

/// The language-core semantic predicate names.
pub fn semantic_predicate_keys() -> (v: Vec<String>)
    ensures
        views(v@) == semantic_keys_spec(),
{
    let v = strings(
        &vec![
            "def",
            "func",
            "import",
            "class",
            "struct",
            "enum",
            "interface",
            "trait",
            "type",
            "impl",
            "macro",
            "module",
            "object",
            "protocol",
            "comment",
            "str",
            "call",
        ],
    );
    assert(views(v@) =~= semantic_keys_spec());
    v
}

/// The React predicate names.
pub fn react_predicate_keys() -> (v: Vec<String>)
    ensures
        views(v@) == react_keys_spec(),
{
    let v = strings(&vec!["component", "element", "hook", "customhook", "prop"]);
    assert(views(v@) =~= react_keys_spec());
    v
}


/// The file a predicate is evaluated on: its path and the search root,
/// its text once loaded, and what evaluation records about it.
#[derive(Debug, Clone)]
pub struct FileContext {
    pub path: String,
    pub root: String,
    /// The file's text, when it has been loaded.
    pub content: Option<String>,
    /// The SQL profile chosen for this file, once chosen.
    pub sql_profile_key: Option<String>,
    /// Diagnostics recorded while evaluating this file.
    pub diagnostics: Vec<crate::content::SearchDiagnostic>,
    /// Why semantic evaluation was skipped for this file.
    pub semantic_skip_reasons: Vec<crate::model::SemanticSkipReason>,
}

/// The error for content that was needed before it was loaded.
pub open spec fn content_not_loaded(path: Seq<char>) -> Seq<char> {
    "content of "@ + path + " has not been loaded"@
}

impl FileContext {
    /// A context for `path` under `root`, with nothing loaded or recorded.
    pub fn new(path: String, root: String) -> (c: FileContext)
        ensures
            c.path@ == path@,
            c.root@ == root@,
            c.content is None,
            c.sql_profile_key is None,
            c.diagnostics@.len() == 0,
            c.semantic_skip_reasons@.len() == 0,
    {
        FileContext {
            path,
            root,
            content: None,
            sql_profile_key: None,
            diagnostics: Vec::new(),
            semantic_skip_reasons: Vec::new(),
        }
    }

    /// The file's text; an error when it has not been loaded.
    pub fn get_content(&self) -> (r: Result<&str, String>)
        ensures
            match self.content {
                Some(c) => r matches Ok(t) && t@ == c@,
                None => r matches Err(e) && e@ == content_not_loaded(self.path@),
            },
    {
        match &self.content {
            Some(c) => Ok(c.as_str()),
            None => {
                let mut out: Vec<char> = Vec::new();
                crate::text::push_str(&mut out, "content of ");
                crate::text::push_str(&mut out, self.path.as_str());
                crate::text::push_str(&mut out, " has not been loaded");
                Err(string_from_chars(&out))
            },
        }
    }
}

/// One matching line: its 0-based row, byte offsets and length in bytes.
#[derive(Debug, Clone, Copy, PartialEq, Eq, Structural)]
pub struct LineHunk {
    pub row: usize,
    pub start_byte: usize,
    pub end_byte: usize,
}

/// What a predicate yields: a yes/no answer, or the matching lines.
#[derive(Debug, Clone, PartialEq, Eq)]
pub enum MatchResult {
    Boolean(bool),
    Hunks(Vec<LineHunk>),
}

/// Whether a result counts as a match.
pub open spec fn is_match_spec(r: MatchResult) -> bool {
    match r {
        MatchResult::Boolean(b) => b,
        MatchResult::Hunks(h) => h@.len() > 0,
    }
}

impl MatchResult {
    /// True for `Boolean(true)` and for a non-empty list of hunks.
    pub fn is_match(&self) -> (b: bool)
        ensures
            b == is_match_spec(*self),
    {
        match self {
            MatchResult::Boolean(b) => *b,
            MatchResult::Hunks(h) => h.len() > 0,
        }
    }
}

/// Number of characters of `s[..n]` left after removing trailing `/`.
pub open spec fn trimmed_len(s: Seq<char>, n: int) -> int
    decreases n,
{
    if n > 0 && s[n - 1] == '/' {
        trimmed_len(s, n - 1)
    } else {
        n
    }
}

/// Index of the last occurrence of `c` in `s[..n]`, or -1.
pub open spec fn last_index_of(s: Seq<char>, c: char, n: int) -> int
    decreases n,
{
    if n <= 0 {
        -1
    } else if s[n - 1] == c {
        n - 1
    } else {
        last_index_of(s, c, n - 1)
    }
}

/// The last segment of a path, after trailing separators are dropped.
pub open spec fn last_segment(s: Seq<char>) -> Seq<char> {
    let n = trimmed_len(s, s.len() as int);
    s.subrange(last_index_of(s, '/', n) + 1, n)
}

/// The file name of a path: its last segment, unless that is empty, `.`
/// or `..`.
pub open spec fn file_name_spec(s: Seq<char>) -> Option<Seq<char>> {
    let seg = last_segment(s);
    if seg.len() == 0 || seg == "."@ || seg == ".."@ {
        None
    } else {
        Some(seg)
    }
}

/// The extension of a path: what follows the last `.` of its file name,
/// when that dot is not the name's first character.
pub open spec fn extension_spec(s: Seq<char>) -> Option<Seq<char>> {
    match file_name_spec(s) {
        None => None,
        Some(f) => {
            let k = last_index_of(f, '.', f.len() as int);
            if k <= 0 {
                None
            } else {
                Some(f.subrange(k + 1, f.len() as int))
            }
        },
    }
}

proof fn lemma_trimmed_len_bounds(s: Seq<char>, n: int)
    requires
        0 <= n <= s.len(),
    ensures
        0 <= trimmed_len(s, n) <= n,
    decreases n,
{
    if n > 0 && s[n - 1] == '/' {
        lemma_trimmed_len_bounds(s, n - 1);
    }
}

proof fn lemma_last_index_bounds(s: Seq<char>, c: char, n: int)
    requires
        0 <= n <= s.len(),
    ensures
        -1 <= last_index_of(s, c, n) < n,
        last_index_of(s, c, n) >= 0 ==> s[last_index_of(s, c, n)] == c,
    decreases n,
{
    if n > 0 && s[n - 1] != c {
        lemma_last_index_bounds(s, c, n - 1);
    }
}

/// Computes `trimmed_len(s, s.len())`.
fn trimmed_end(cs: &Vec<char>) -> (n: usize)
    ensures
        n == trimmed_len(cs@, cs@.len() as int),
        n <= cs.len(),
{
    let mut i: usize = cs.len();
    while i > 0 && cs[i - 1] == '/'
        invariant
            i <= cs.len(),
            trimmed_len(cs@, cs@.len() as int) == trimmed_len(cs@, i as int),
        decreases i,
    {
        i = i - 1;
    }
    i
}

/// Computes `last_index_of(s, c, n)` as an offset one past the found index
/// (0 when there is none).
fn last_index_after(cs: &Vec<char>, c: char, n: usize) -> (k: usize)
    requires
        n <= cs.len(),
    ensures
        k as int == last_index_of(cs@, c, n as int) + 1,
        k <= n,
{
    proof {
        lemma_last_index_bounds(cs@, c, n as int);
    }
    let mut i: usize = n;
    while i > 0 && cs[i - 1] != c
        invariant
            i <= n <= cs.len(),
            last_index_of(cs@, c, n as int) == last_index_of(cs@, c, i as int),
        decreases i,
    {
        i = i - 1;
    }
    i
}

/// The file name of a path (see `file_name_spec`).
pub fn path_file_name(path: &str) -> (r: Option<String>)
    ensures
        crate::content::opt_view(r) == file_name_spec(path@),
{
    let cs = chars_of(path);
    let n = trimmed_end(&cs);
    let k = last_index_after(&cs, '/', n);
    let seg = slice_chars(&cs, k, n);
    if k == n || crate::text::str_eq(seg.as_str(), ".") || crate::text::str_eq(seg.as_str(), "..") {
        proof {
            reveal_strlit(".");
            reveal_strlit("..");
        }
        None
    } else {
        proof {
            reveal_strlit(".");
            reveal_strlit("..");
        }
        Some(seg)
    }
}

/// The extension of a path (see `extension_spec`).
pub fn path_extension(path: &str) -> (r: Option<String>)
    ensures
        crate::content::opt_view(r) == extension_spec(path@),
{
    match path_file_name(path) {
        None => None,
        Some(name) => {
            let cs = chars_of(name.as_str());
            let k = last_index_after(&cs, '.', cs.len());
            if k <= 1 {
                None
            } else {
                Some(slice_chars(&cs, k, cs.len()))
            }
        },
    }
}

/// Evaluates `ext:`, comparing the file's extension with the value,
/// ignoring ASCII case; a path without extension compares as empty.
pub struct ExtEvaluator;

/// The `ext:` predicate on a path.
pub open spec fn ext_matches(path: Seq<char>, value: Seq<char>) -> bool {
    let ext = match extension_spec(path) {
        Some(e) => e,
        None => Seq::<char>::empty(),
    };
    crate::text::ascii_lower_seq(ext) == crate::text::ascii_lower_seq(value)
}

impl ExtEvaluator {
    /// Evaluates the predicate on a file.
    pub fn evaluate(&self, context: &mut FileContext, key: &PredicateKey, value: &str) -> (r: Result<MatchResult, String>)
        ensures
            *final(context) == *old(context),
            r matches Ok(MatchResult::Boolean(b)) && b == ext_matches(old(context).path@, value@),
    {
        let ext = match path_extension(context.path.as_str()) {
            Some(e) => e,
            None => String::new(),
        };
        Ok(MatchResult::Boolean(crate::text::eq_ignore_ascii_case(ext.as_str(), value)))
    }
}


/// Whether `glob::Pattern::new` accepts a pattern.
pub uninterp spec fn unix_glob_compiles(pattern: Seq<char>) -> bool;

/// Whether a compiled `glob` pattern matches a text with case-insensitive
/// matching (`MatchOptions { case_sensitive: false, .. }`).
pub uninterp spec fn unix_glob_matches_ignoring_case(pattern: Seq<char>, text: Seq<char>) -> bool;

/// The message of the error `glob::Pattern::new` reports for a pattern.
pub uninterp spec fn unix_glob_error_text(pattern: Seq<char>) -> Seq<char>;

/// Compiles `pattern` with `glob::Pattern::new` and matches `text` with
/// `Pattern::matches_with`, ASCII case ignored and the other options at
/// their defaults; the compile error's message when the pattern is invalid.
#[verifier::external_body]
fn unix_glob_match_ignoring_case(pattern: &str, text: &str) -> (r: Result<bool, String>)
    ensures
        r is Ok <==> unix_glob_compiles(pattern@),
        r matches Ok(b) ==> b == unix_glob_matches_ignoring_case(pattern@, text@),
        r matches Err(m) ==> m@ == unix_glob_error_text(pattern@),
{
    match glob::Pattern::new(pattern) {
        Ok(p) => Ok(p.matches_with(text, glob::MatchOptions { case_sensitive: false, require_literal_separator: false, require_literal_leading_dot: false })),
        Err(e) => Err(e.to_string()),
    }
}

/// Evaluates `name:`, matching the file name against a glob pattern with
/// ASCII case ignored.
pub struct NameEvaluator;

/// The file name of a path, or empty.
pub open spec fn name_or_empty(path: Seq<char>) -> Seq<char> {
    match file_name_spec(path) {
        Some(n) => n,
        None => Seq::<char>::empty(),
    }
}

impl NameEvaluator {
    /// Evaluates the predicate on a file. An empty pattern and a pattern
    /// that does not compile are errors.
    pub fn evaluate(&self, context: &mut FileContext, key: &PredicateKey, value: &str) -> (r: Result<MatchResult, String>)
        ensures
            *final(context) == *old(context),
            value@.len() == 0 ==> (r matches Err(m) && m@ == "Invalid glob pattern: cannot be empty."@),
            value@.len() > 0 && !unix_glob_compiles(value@) ==> (r matches Err(m) && m@ == unix_glob_error_text(value@)),
            value@.len() > 0 && unix_glob_compiles(value@) ==> (r matches Ok(MatchResult::Boolean(b)) && b
                == unix_glob_matches_ignoring_case(value@, name_or_empty(old(context).path@))),
    {
        if value.is_empty() {
            return Err(owned("Invalid glob pattern: cannot be empty."));
        }
        let name = match path_file_name(context.path.as_str()) {
            Some(n) => n,
            None => String::new(),
        };
        match unix_glob_match_ignoring_case(value, name.as_str()) {
            Ok(b) => Ok(MatchResult::Boolean(b)),
            Err(e) => Err(e),
        }
    }
}

/// A path is absolute when it starts with `/`.
pub open spec fn is_absolute_spec(s: Seq<char>) -> bool {
    s.len() > 0 && s[0] == '/'
}

/// `s` without its leading `/` characters.
pub open spec fn strip_leading_slashes(s: Seq<char>) -> Seq<char>
    decreases s.len(),
{
    if s.len() > 0 && s[0] == '/' {
        strip_leading_slashes(s.drop_first())
    } else {
        s
    }
}

/// The part of `path` below `root`, compared segment-wise: `None` when
/// `root` is not a leading run of whole segments of `path`.
pub open spec fn strip_root_spec(path: Seq<char>, root: Seq<char>) -> Option<Seq<char>> {
    let n = trimmed_len(root, root.len() as int);
    if root.len() == 0 {
        Some(path)
    } else if n == 0 {
        if is_absolute_spec(path) {
            Some(strip_leading_slashes(path))
        } else {
            None
        }
    } else if path.len() >= n && path.take(n) == root.take(n) && (path.len() == n || path[n] == '/') {
        Some(strip_leading_slashes(path.skip(n)))
    } else {
        None
    }
}

/// `root` joined with `value`: an absolute value stands alone.
pub open spec fn path_join_spec(root: Seq<char>, value: Seq<char>) -> Seq<char> {
    if is_absolute_spec(value) || root.len() == 0 {
        value
    } else if root.last() == '/' {
        root + value
    } else {
        root + "/"@ + value
    }
}

/// Index of the first character of `s[i..]` that is not `/`.
fn skip_slashes(cs: &Vec<char>, i: usize) -> (j: usize)
    requires
        i <= cs.len(),
    ensures
        i <= j <= cs.len(),
        strip_leading_slashes(cs@.skip(i as int)) == cs@.skip(j as int),
{
    let mut j = i;
    while j < cs.len() && cs[j] == '/'
        invariant
            i <= j <= cs.len(),
            strip_leading_slashes(cs@.skip(i as int)) == strip_leading_slashes(cs@.skip(j as int)),
        decreases cs.len() - j,
    {
        assert(cs@.skip(j as int).drop_first() =~= cs@.skip(j + 1));
        j = j + 1;
    }
    j
}

/// Whether `cs[..n]` equals `ds[..n]`.
fn prefix_equal(cs: &Vec<char>, ds: &Vec<char>, n: usize) -> (b: bool)
    requires
        n <= cs.len(),
        n <= ds.len(),
    ensures
        b == (cs@.take(n as int) == ds@.take(n as int)),
{
    let mut i: usize = 0;
    while i < n
        invariant
            i <= n <= cs.len(),
            n <= ds.len(),
            forall|j: int| 0 <= j < i ==> cs@[j] == ds@[j],
        decreases n - i,
    {
        if cs[i] != ds[i] {
            assert(cs@.take(n as int)[i as int] != ds@.take(n as int)[i as int]);
            return false;
        }
        i = i + 1;
    }
    assert(cs@.take(n as int) =~= ds@.take(n as int));
    true
}

/// The part of `path` below `root` (see `strip_root_spec`).
pub fn strip_root(path: &str, root: &str) -> (r: Option<String>)
    ensures
        crate::content::opt_view(r) == strip_root_spec(path@, root@),
{
    let ps = chars_of(path);
    let rs = chars_of(root);
    let n = trimmed_end(&rs);
    proof {
        lemma_trimmed_len_bounds(rs@, rs@.len() as int);
    }
    if rs.len() == 0 {
        assert(ps@.skip(0) =~= ps@);
        return Some(slice_chars(&ps, 0, ps.len()));
    }
    if n == 0 {
        if ps.len() > 0 && ps[0] == '/' {
            let j = skip_slashes(&ps, 0);
            assert(ps@.skip(0) =~= ps@);
            return Some(slice_chars(&ps, j, ps.len()));
        }
        return None;
    }
    if ps.len() >= n && prefix_equal(&ps, &rs, n) && (ps.len() == n || ps[n] == '/') {
        let j = skip_slashes(&ps, n);
        Some(slice_chars(&ps, j, ps.len()))
    } else {
        None
    }
}

/// `root` joined with `value` (see `path_join_spec`).
pub fn path_join(root: &str, value: &str) -> (r: String)
    ensures
        r@ == path_join_spec(root@, value@),
{
    let vs = chars_of(value);
    let rs = chars_of(root);
    if (vs.len() > 0 && vs[0] == '/') || rs.len() == 0 {
        return owned(value);
    }
    let mut out = rs.clone();
    if rs[rs.len() - 1] != '/' {
        out.push('/');
    }
    crate::text::push_str(&mut out, value);
    proof {
        reveal_strlit("/");
    }
    string_from_chars(&out)
}

/// Resolves a path on disk with `dunce::canonicalize`, as a lossy UTF-8
/// string; `None` when that fails. What comes back depends on the file
/// system, so nothing is stated of it.
#[verifier::external_body]
fn canonicalize_path(path: &str) -> (r: Option<String>) {
    match dunce::canonicalize(path) {
        Ok(p) => Some(p.to_string_lossy().into_owned()),
        Err(_) => None,
    }
}

/// The canonical form of a path, given what resolving it on disk gave, or
/// the path itself when it could not be resolved.
fn canonical_or_same(path: &str, resolved: Option<String>) -> (r: String)
    ensures
        r@ == match resolved {
            Some(c) => c@,
            None => path@,
        },
{
    match resolved {
        Some(c) => c,
        None => owned(path),
    }
}

/// A path as compared by `path_exact:`: its resolved form when it
/// resolved, else the path as given.
pub open spec fn compared_path(path: Seq<char>, resolved: Option<String>) -> Seq<char> {
    match resolved {
        Some(c) => c@,
        None => path,
    }
}

/// The answer of `path_exact:` given what resolving each path on disk gave:
/// the compared forms are equal.
pub fn path_exact_matches(actual: &str, expected: &str, actual_resolved: Option<String>, expected_resolved: Option<String>) -> (b:
    bool)
    ensures
        b == (compared_path(actual@, actual_resolved) == compared_path(expected@, expected_resolved)),
{
    let a = canonical_or_same(actual, actual_resolved);
    let e = canonical_or_same(expected, expected_resolved);
    crate::text::str_eq(a.as_str(), e.as_str())
}

/// A value is a glob when it holds one of `*`, `?`, `[` or `{`.
pub open spec fn is_glob_value(value: Seq<char>) -> bool {
    value.contains('*') || value.contains('?') || value.contains('[') || value.contains('{')
}

/// The answer of `path:` for a file whose root-relative path is
/// `relative` and whose path as given is `absolute`.
pub open spec fn path_match_spec(relative: Seq<char>, absolute: Seq<char>, value: Seq<char>) -> Result<bool, Seq<char>> {
    let target = if is_absolute_spec(value) {
        absolute
    } else {
        relative
    };
    if is_glob_value(value) {
        if glob_compiles(value) {
            Ok(glob_set_builds(value) && glob_matches_path(value, target))
        } else {
            Err(glob_error_text(value))
        }
    } else {
        Ok(has_substring(target, value))
    }
}

/// Matches `path:`'s value against a file: an absolute value against the
/// path as given, a relative one against the root-relative path; a glob
/// value by glob matching, any other by substring search.
pub fn match_path_value(relative: &str, absolute: &str, value: &str) -> (r: Result<bool, String>)
    ensures
        match (r, path_match_spec(relative@, absolute@, value@)) {
            (Ok(b), Ok(c)) => b == c,
            (Err(m), Err(n)) => m@ == n,
            _ => false,
        },
{
    proof {
        reveal_strlit("/");
    }
    let use_absolute = crate::text::str_starts_with(value, "/");
    assert(use_absolute == is_absolute_spec(value@)) by {
        reveal_strlit("/");
        assert("/"@.len() == 1);
        assert("/"@[0] == '/');
        if value@.len() > 0 {
            assert(value@.take(1)[0] == value@[0]);
            if value@[0] == '/' {
                assert(value@.take(1) =~= "/"@);
            }
        }
    }
    let target = if use_absolute {
        absolute
    } else {
        relative
    };
    if crate::text::str_has_char(value, '*') || crate::text::str_has_char(value, '?') || crate::text::str_has_char(
        value,
        '[',
    ) || crate::text::str_has_char(value, '{') {
        match glob_compile(value) {
            Ok(()) => Ok(glob_is_match(value, target)),
            Err(e) => Err(e),
        }
    } else {
        Ok(crate::text::str_contains(target, value))
    }
}

/// Evaluates `path:` and `path_exact:`.
pub struct PathEvaluator;

/// The path a `path_exact:` value names: relative values are taken from
/// the search root.
pub fn path_exact_target(root: &str, value: &str) -> (r: String)
    ensures
        r@ == path_join_spec(root@, value@),
{
    path_join(root, value)
}

impl PathEvaluator {
    /// Evaluates the predicate on a file.
    ///
    /// `path_exact:` compares the file's path with the named path, both
    /// resolved on disk where they exist. `path:` matches the value against
    /// the path relative to the root (falling back to paths resolved on disk,
    /// then to the path as given); see `match_path_value`.
    pub fn evaluate(&self, context: &mut FileContext, key: &PredicateKey, value: &str) -> (r: Result<MatchResult, String>)
        ensures
            *final(context) == *old(context),
            *key == PredicateKey::PathExact ==> exists|actual: Option<String>, expected: Option<String>|
                r == Ok::<MatchResult, String>(MatchResult::Boolean(
                    #[trigger] compared_path(old(context).path@, actual) == #[trigger] compared_path(
                        path_join_spec(old(context).root@, value@),
                        expected,
                    ),
                )),
            *key != PredicateKey::PathExact ==> exists|relative: Seq<char>|
                #![trigger path_match_spec(relative, old(context).path@, value@)]
                {
                    &&& (strip_root_spec(old(context).path@, old(context).root@) matches Some(rel) ==> relative == rel)
                    &&& match (r, path_match_spec(relative, old(context).path@, value@)) {
                        (Ok(MatchResult::Boolean(b)), Ok(c)) => b == c,
                        (Err(m), Err(n)) => m@ == n,
                        _ => false,
                    }
                },
    {
        if *key == PredicateKey::PathExact {
            let expected = path_exact_target(context.root.as_str(), value);
            let expected_resolved = canonicalize_path(expected.as_str());
            let actual_resolved = canonicalize_path(context.path.as_str());
            return Ok(
                MatchResult::Boolean(
                    path_exact_matches(context.path.as_str(), expected.as_str(), actual_resolved, expected_resolved),
                ),
            );
        }
        let relative = match strip_root(context.path.as_str(), context.root.as_str()) {
            Some(rel) => rel,
            None => {
                let canonical_root = canonical_or_same(context.root.as_str(), canonicalize_path(context.root.as_str()));
                let canonical_path = canonical_or_same(context.path.as_str(), canonicalize_path(context.path.as_str()));
                match strip_root(canonical_path.as_str(), canonical_root.as_str()) {
                    Some(rel) => rel,
                    None => context.path.clone(),
                }
            },
        };
        let m = match_path_value(relative.as_str(), context.path.as_str(), value);
        let r = match m {
            Ok(b) => Ok(MatchResult::Boolean(b)),
            Err(e) => Err(e),
        };
        assert(strip_root_spec(context.path@, context.root@) matches Some(rel) ==> relative@ == rel);
        r
    }
}


/// A line as `str::lines` yields it: without its `\n`, and without a `\r`
/// right before that `\n`.
pub open spec fn strip_line(l: Seq<char>) -> Seq<char> {
    if l.len() > 0 && l.last() == '\n' {
        let m = l.drop_last();
        if m.len() > 0 && m.last() == '\r' {
            m.drop_last()
        } else {
            m
        }
    } else {
        l
    }
}

/// The lines of a text as `str::lines` yields them.
pub open spec fn text_lines(s: Seq<char>) -> Seq<Seq<char>> {
    crate::text::lines_with_endings(s).map_values(|l: Seq<char>| strip_line(l))
}

/// The byte offset of line `i`, counting each earlier line's bytes plus one
/// byte for its line break.
pub open spec fn line_offset(lines: Seq<Seq<char>>, i: int) -> int
    decreases i,
{
    if i <= 0 {
        0
    } else {
        line_offset(lines, i - 1) + crate::text::utf8_len(lines[i - 1]) + 1
    }
}

/// The lines among the first `n` whose lowercase form contains `needle`,
/// as (row, start byte, end byte).
pub open spec fn contains_rows(lines: Seq<Seq<char>>, needle: Seq<char>, n: int) -> Seq<(int, int, int)>
    decreases n,
{
    if n <= 0 {
        Seq::empty()
    } else {
        let prev = contains_rows(lines, needle, n - 1);
        let l = lines[n - 1];
        if has_substring(crate::profiles::unicode_lowercase(l), needle) {
            prev.push((n - 1, line_offset(lines, n - 1), line_offset(lines, n - 1) + crate::text::utf8_len(l)))
        } else {
            prev
        }
    }
}

/// The integer view of hunks.
pub open spec fn hunk_rows(v: Seq<LineHunk>) -> Seq<(int, int, int)> {
    v.map_values(|h: LineHunk| (h.row as int, h.start_byte as int, h.end_byte as int))
}

fn strip_line_text(l: &str) -> (r: String)
    ensures
        r@ == strip_line(l@),
{
    let cs = chars_of(l);
    let mut end = cs.len();
    if end > 0 && cs[end - 1] == '\n' {
        end = end - 1;
        if end > 0 && cs[end - 1] == '\r' {
            end = end - 1;
        }
    }
    let r = slice_chars(&cs, 0, end);
    proof {
        if cs@.len() > 0 && cs@.last() == '\n' {
            let m = cs@.drop_last();
            if m.len() > 0 && m.last() == '\r' {
                assert(r@ =~= m.drop_last());
            } else {
                assert(r@ =~= m);
            }
        } else {
            assert(r@ =~= cs@);
        }
    }
    r
}

/// The lines of `content` whose lowercase form contains the lowercase
/// `value`, with their byte spans; `None` when an offset would not fit in
/// `usize`.
pub fn contains_hunks(content: &str, value: &str) -> (r: Option<Vec<LineHunk>>)
    ensures
        match r {
            Some(v) => hunk_rows(v@) == contains_rows(
                text_lines(content@),
                crate::profiles::unicode_lowercase(value@),
                text_lines(content@).len() as int,
            ),
            None => exists|i: int| 0 <= i <= text_lines(content@).len() && #[trigger] line_offset(text_lines(content@), i) + 1 > usize::MAX,
        },
{
    let raw = crate::text::split_lines_with_endings(content);
    let needle = crate::profiles::to_lowercase(value);
    let ghost lines = text_lines(content@);
    let mut v: Vec<LineHunk> = Vec::new();
    let mut offset: usize = 0;
    let mut i: usize = 0;
    while i < raw.len()
        invariant
            i <= raw.len(),
            views(raw@) == crate::text::lines_with_endings(content@),
            lines == text_lines(content@),
            lines.len() == raw@.len(),
            needle@ == crate::profiles::unicode_lowercase(value@),
            offset as int == line_offset(lines, i as int),
            hunk_rows(v@) == contains_rows(lines, needle@, i as int),
        decreases raw.len() - i,
    {
        let line = strip_line_text(raw[i].as_str());
        assert(line@ == lines[i as int]);
        let len = crate::text::utf8_byte_len(line.as_str());
        let lower = crate::profiles::to_lowercase(line.as_str());
        let end = match offset.checked_add(len) {
            Some(e) => e,
            None => {
                assert(line_offset(lines, i as int + 1) + 1 > usize::MAX);
                return None;
            },
        };
        if crate::text::str_contains(lower.as_str(), needle.as_str()) {
            let ghost before = v@;
            v.push(LineHunk { row: i, start_byte: offset, end_byte: end });
            proof {
                assert(hunk_rows(v@) =~= hunk_rows(before).push((i as int, offset as int, end as int)));
            }
        }
        match end.checked_add(1) {
            Some(next) => {
                offset = next;
            },
            None => {
                assert(line_offset(lines, i as int + 1) + 1 > usize::MAX);
                return None;
            },
        }
        i = i + 1;
    }
    Some(v)
}

/// The message when a file's content is too large to index by lines.
pub open spec fn too_large_to_index(path: Seq<char>) -> Seq<char> {
    "content of "@ + path + " is too large to index"@
}

/// What `contains:` gives on a loaded file: the hunks of the lines that
/// contain the value ignoring case (never a bare yes/no), or, when the
/// line offsets do not fit in a `usize`, the too-large error.
pub open spec fn contains_result(c: Seq<char>, path: Seq<char>, value: Seq<char>, r: Result<MatchResult, String>) -> bool {
    match r {
        Ok(MatchResult::Hunks(v)) => hunk_rows(v@) == contains_rows(
            text_lines(c),
            crate::profiles::unicode_lowercase(value),
            text_lines(c).len() as int,
        ),
        Ok(MatchResult::Boolean(_)) => false,
        Err(e) => e@ == too_large_to_index(path) && exists|i: int|
            0 <= i <= text_lines(c).len() && #[trigger] line_offset(text_lines(c), i) + 1 > usize::MAX,
    }
}

/// The rows picked among the first `n` lines: each in range and holding
/// the needle, in increasing order, spanning its line's bytes; and every
/// line among the first `n` that holds the needle is picked.
proof fn lemma_contains_rows(lines: Seq<Seq<char>>, needle: Seq<char>, n: int)
    requires
        0 <= n <= lines.len(),
    ensures
        forall|j: int|
            0 <= j < contains_rows(lines, needle, n).len() ==> {
                let row = (#[trigger] contains_rows(lines, needle, n)[j]).0;
                &&& 0 <= row < n
                &&& has_substring(crate::profiles::unicode_lowercase(lines[row]), needle)
                &&& contains_rows(lines, needle, n)[j].2 - contains_rows(lines, needle, n)[j].1 == crate::text::utf8_len(
                    lines[row],
                )
            },
        forall|i: int, j: int|
            0 <= i < j < contains_rows(lines, needle, n).len() ==> (#[trigger] contains_rows(lines, needle, n)[i]).0
                < (#[trigger] contains_rows(lines, needle, n)[j]).0,
        forall|k: int|
            0 <= k < n && has_substring(crate::profiles::unicode_lowercase(#[trigger] lines[k]), needle) ==> exists|j: int|
                0 <= j < contains_rows(lines, needle, n).len() && contains_rows(lines, needle, n)[j].0 == k,
    decreases n,
{
    if n > 0 {
        lemma_contains_rows(lines, needle, n - 1);
        let prev = contains_rows(lines, needle, n - 1);
        let cur = contains_rows(lines, needle, n);
        if has_substring(crate::profiles::unicode_lowercase(lines[n - 1]), needle) {
            assert(cur == prev.push((n - 1, line_offset(lines, n - 1), line_offset(lines, n - 1) + crate::text::utf8_len(lines[n - 1]))));
            assert forall|k: int|
                0 <= k < n && has_substring(crate::profiles::unicode_lowercase(#[trigger] lines[k]), needle) implies exists|j: int|
                    0 <= j < cur.len() && cur[j].0 == k by {
                if k < n - 1 {
                    let j = choose|j: int| 0 <= j < prev.len() && prev[j].0 == k;
                    assert(cur[j] == prev[j]);
                } else {
                    assert(cur[prev.len() as int].0 == k);
                }
            }
            assert forall|i: int, j: int| 0 <= i < j < cur.len() implies (#[trigger] cur[i]).0 < (#[trigger] cur[j]).0 by {
                if j < prev.len() {
                    assert(cur[i] == prev[i] && cur[j] == prev[j]);
                } else {
                    assert(cur[i] == prev[i]);
                }
            }
            assert forall|j: int| 0 <= j < cur.len() implies {
                let row = (#[trigger] cur[j]).0;
                &&& 0 <= row < n
                &&& has_substring(crate::profiles::unicode_lowercase(lines[row]), needle)
                &&& cur[j].2 - cur[j].1 == crate::text::utf8_len(lines[row])
            } by {
                if j < prev.len() {
                    assert(cur[j] == prev[j]);
                }
            }
        } else {
            assert forall|k: int|
                0 <= k < n && has_substring(crate::profiles::unicode_lowercase(#[trigger] lines[k]), needle) implies exists|j: int|
                    0 <= j < cur.len() && cur[j].0 == k by {
                assert(k < n - 1);
            }
        }
    }
}

/// `contains:` on a loaded file answers with the matching lines, never a
/// bare yes/no: a hunk for exactly each line whose lowercase text holds
/// the lowercase value, in line order, each spanning its line's bytes. It
/// fails only when the file is too large to index by byte offsets.
pub proof fn law_contains_gives_matching_lines(c: Seq<char>, path: Seq<char>, value: Seq<char>, r: Result<MatchResult, String>)
    requires
        contains_result(c, path, value, r),
    ensures
        r matches Ok(res) ==> res is Hunks,
        r matches Ok(MatchResult::Hunks(v)) ==> {
            let lines = text_lines(c);
            let needle = crate::profiles::unicode_lowercase(value);
            &&& forall|j: int|
                0 <= j < v@.len() ==> (#[trigger] v@[j]).row < lines.len() && has_substring(
                    crate::profiles::unicode_lowercase(lines[v@[j].row as int]),
                    needle,
                ) && v@[j].end_byte - v@[j].start_byte == crate::text::utf8_len(lines[v@[j].row as int])
            &&& forall|i: int, j: int| 0 <= i < j < v@.len() ==> (#[trigger] v@[i]).row < (#[trigger] v@[j]).row
            &&& forall|k: int|
                0 <= k < lines.len() && has_substring(crate::profiles::unicode_lowercase(#[trigger] lines[k]), needle)
                    ==> exists|j: int| 0 <= j < v@.len() && v@[j].row == k
        },
        r is Err ==> exists|i: int|
            0 <= i <= text_lines(c).len() && #[trigger] line_offset(text_lines(c), i) + 1 > usize::MAX,
{
    if let Ok(MatchResult::Hunks(v)) = r {
        let lines = text_lines(c);
        let needle = crate::profiles::unicode_lowercase(value);
        let rows = contains_rows(lines, needle, lines.len() as int);
        lemma_contains_rows(lines, needle, lines.len() as int);
        assert(hunk_rows(v@) == rows);
        assert forall|j: int| 0 <= j < v@.len() implies #[trigger] hunk_rows(v@)[j] == rows[j] by {}
        assert forall|k: int|
            0 <= k < lines.len() && has_substring(crate::profiles::unicode_lowercase(#[trigger] lines[k]), needle)
                implies exists|j: int| 0 <= j < v@.len() && v@[j].row == k by {
            let j = choose|j: int| 0 <= j < rows.len() && rows[j].0 == k;
            assert(hunk_rows(v@)[j] == rows[j]);
        }
        assert forall|i: int, j: int| 0 <= i < j < v@.len() implies (#[trigger] v@[i]).row < (#[trigger] v@[j]).row by {
            assert(hunk_rows(v@)[i] == rows[i]);
            assert(hunk_rows(v@)[j] == rows[j]);
        }
        assert forall|j: int| 0 <= j < v@.len() implies (#[trigger] v@[j]).row < lines.len() && has_substring(
            crate::profiles::unicode_lowercase(lines[v@[j].row as int]),
            needle,
        ) && v@[j].end_byte - v@[j].start_byte == crate::text::utf8_len(lines[v@[j].row as int]) by {
            assert(hunk_rows(v@)[j] == rows[j]);
        }
    }
}

/// Evaluates `contains:` on a loaded file: the lines that contain the
/// value, ignoring case.
pub struct ContainsEvaluator;

impl ContainsEvaluator {
    /// Evaluates the predicate; an error when the content is not loaded.
    pub fn evaluate(&self, context: &mut FileContext, key: &PredicateKey, value: &str) -> (r: Result<MatchResult, String>)
        ensures
            *final(context) == *old(context),
            old(context).content is None ==> (r matches Err(e) && e@ == content_not_loaded(old(context).path@)),
            old(context).content matches Some(c) ==> (r matches Ok(MatchResult::Hunks(v)) ==> hunk_rows(v@)
                == contains_rows(text_lines(c@), crate::profiles::unicode_lowercase(value@), text_lines(c@).len() as int)),
            old(context).content matches Some(c) ==> contains_result(c@, old(context).path@, value@, r),
    {
        let content = match context.get_content() {
            Ok(c) => owned(c),
            Err(e) => return Err(e),
        };
        match contains_hunks(content.as_str(), value) {
            Some(v) => Ok(MatchResult::Hunks(v)),
            None => {
                let mut out: Vec<char> = Vec::new();
                crate::text::push_str(&mut out, "content of ");
                crate::text::push_str(&mut out, context.path.as_str());
                crate::text::push_str(&mut out, " is too large to index");
                Err(string_from_chars(&out))
            },
        }
    }
}

} // verus!

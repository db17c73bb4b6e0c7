//! The search loop's bookkeeping around the predicate evaluator: candidate
//! files and their estimated memory, statistics, time budgets, and what
//! each evaluation outcome turns into.

use crate::backend::{BackendPathIdentity, DiscoveryReport};
use crate::content::{opt_view, SearchDiagnostic};
use crate::model::{FileSnapshot, PathResolution, ResultKind, SearchResult, SearchStats, SemanticSkipReason, TextRange};
use std::collections::hash_map::DefaultHasher;
use std::hash::Hasher;
use crate::text::{byte_len, cap_usize, owned, push_str, string_from_chars};
use vstd::prelude::*;

verus! {

/// The view of a path identity.
pub open spec fn identity_view(id: BackendPathIdentity) -> (Seq<char>, Seq<char>, Option<Seq<char>>, PathResolution) {
    (id.display_path@, id.resolved_path@, opt_view(id.root_relative_path), id.resolution)
}

/// Copies a path identity.
pub fn clone_identity(id: &BackendPathIdentity) -> (r: BackendPathIdentity)
    ensures
        identity_view(r) == identity_view(*id),
{
    BackendPathIdentity {
        display_path: id.display_path.clone(),
        resolved_path: id.resolved_path.clone(),
        root_relative_path: crate::content::clone_opt(&id.root_relative_path),
        resolution: id.resolution,
    }
}

/// A file still to evaluate, with the memory its entry is estimated to hold.
#[derive(Debug)]
pub struct CandidateEntry {
    pub identity: BackendPathIdentity,
    pub estimated_bytes: usize,
}

/// The estimated memory of a candidate: its paths' bytes plus a fixed 64.
pub open spec fn candidate_cost(id: BackendPathIdentity) -> int {
    byte_len(id.resolved_path@) + byte_len(id.display_path@) + (match id.root_relative_path {
        Some(p) => byte_len(p@),
        None => 0,
    }) + 64
}

/// A candidate entry for a discovered file (the estimate saturates).
pub fn candidate_entry(identity: BackendPathIdentity) -> (c: CandidateEntry)
    ensures
        c.identity == identity,
        c.estimated_bytes == cap_usize(candidate_cost(identity)),
{
    let a = crate::text::utf8_byte_len(identity.resolved_path.as_str());
    let b = crate::text::utf8_byte_len(identity.display_path.as_str());
    let c = match &identity.root_relative_path {
        Some(p) => crate::text::utf8_byte_len(p.as_str()),
        None => 0,
    };
    let estimated_bytes = a.saturating_add(b).saturating_add(c).saturating_add(64);
    CandidateEntry { identity, estimated_bytes }
}

/// The sum of candidate estimates, saturating.
pub open spec fn estimates_total(v: Seq<CandidateEntry>) -> int
    decreases v.len(),
{
    if v.len() == 0 {
        0
    } else {
        cap_usize(estimates_total(v.drop_last()) + v.last().estimated_bytes)
    }
}

/// The estimated memory of diagnostics: each message's and path's bytes
/// plus 32.
pub open spec fn diagnostics_cost(ds: Seq<SearchDiagnostic>) -> int
    decreases ds.len(),
{
    if ds.len() == 0 {
        0
    } else {
        diagnostics_cost(ds.drop_last()) + byte_len(ds.last().message@) + (match ds.last().path {
            Some(p) => byte_len(p@),
            None => 0,
        }) + 32
    }
}

proof fn lemma_diagnostics_cost_nonneg(ds: Seq<SearchDiagnostic>)
    ensures
        diagnostics_cost(ds) >= 0,
    decreases ds.len(),
{
    if ds.len() > 0 {
        lemma_diagnostics_cost_nonneg(ds.drop_last());
    }
}

/// The state of a search between candidates.
#[derive(Debug)]
pub struct EngineState {
    pub candidates: Vec<CandidateEntry>,
    pub next_candidate: usize,
    pub stats: SearchStats,
    pub diagnostics: Vec<SearchDiagnostic>,
    pub remaining_candidate_bytes: usize,
    pub cancelled: bool,
}

/// What one candidate's evaluation came to.
#[derive(Debug)]
pub enum Evaluation {
    /// The whole file matches, or not.
    Boolean(bool),
    /// The file matches at these ranges (none: no match).
    Hunks(Vec<TextRange>),
    /// Evaluation failed with this message.
    Failed(String),
}

/// A file that matched, before its content is loaded.
#[derive(Debug)]
pub struct RawSearchItem {
    pub display_path: String,
    pub resolved_path: String,
    pub root_relative_path: Option<String>,
    pub resolution: PathResolution,
    pub ranges: Vec<TextRange>,
    pub diagnostics: Vec<SearchDiagnostic>,
    pub semantic_skip_reasons: Vec<SemanticSkipReason>,
    pub snapshot: Option<FileSnapshot>,
}

/// What the search yields after a candidate.
#[derive(Debug)]
pub enum StepOutcome {
    /// Nothing to yield; go on with the next candidate.
    Continue,
    /// A matching file.
    Item(RawSearchItem),
    /// The search fails with this message.
    Error(String),
}

/// The message for a search that ran past its time budget.
pub open spec fn budget_message(budget_ms: u64) -> Seq<char> {
    "Search exceeded configured time budget of "@ + crate::text::decimal(budget_ms as nat) + "ms"@
}

/// The error once `elapsed_ms` exceeds the budget, if there is one.
pub fn budget_error(elapsed_ms: u64, budget_ms: Option<u64>) -> (r: Option<String>)
    ensures
        match budget_ms {
            Some(b) => if elapsed_ms > b {
                r matches Some(m) && m@ == budget_message(b)
            } else {
                r is None
            },
            None => r is None,
        },
{
    match budget_ms {
        Some(b) => {
            if elapsed_ms <= b {
                return None;
            }
            let mut out: Vec<char> = Vec::new();
            push_str(&mut out, "Search exceeded configured time budget of ");
            let d = crate::text::decimal_chars(b);
            crate::text::push_chars(&mut out, &d);
            push_str(&mut out, "ms");
            Some(string_from_chars(&out))
        },
        None => None,
    }
}

/// The time budget of a search: the option when positive, else a positive
/// number from the environment's setting, else none.
pub open spec fn time_budget_spec(option_ms: Option<u64>, env_value: Option<Seq<char>>) -> Option<int> {
    match option_ms {
        Some(v) if v > 0 => Some(v as int),
        _ => match env_value {
            Some(text) => match crate::mcp::parse_usize_spec(text) {
                Some(v) if v > 0 && v <= u64::MAX => Some(v),
                _ => None,
            },
            None => None,
        },
    }
}

/// Settles the time budget (see `time_budget_spec`); `env_value` is the
/// environment's budget setting as read by the caller.
pub fn search_time_budget(option_ms: Option<u64>, env_value: Option<&str>) -> (r: Option<u64>)
    ensures
        match time_budget_spec(option_ms, match env_value {
            Some(t) => Some(t@),
            None => None,
        }) {
            Some(v) => r matches Some(x) && x as int == v,
            None => r is None,
        },
{
    if let Some(v) = option_ms {
        if v > 0 {
            return Some(v);
        }
    }
    match env_value {
        Some(text) => match crate::mcp::parse_usize(text) {
            Some(v) => {
                if v > 0 && (v as u128) <= (u64::MAX as u128) {
                    Some(v as u64)
                } else {
                    None
                }
            },
            None => None,
        },
        None => None,
    }
}

/// `r` is `diagnostics`, followed, when the path fell back to a
/// non-canonical form, by a note that says so.
pub open spec fn resolution_noted(
    r: Seq<SearchDiagnostic>,
    diagnostics: Seq<SearchDiagnostic>,
    resolution: PathResolution,
    display_path: Seq<char>,
) -> bool {
    match resolution {
        PathResolution::Canonical => r == diagnostics,
        PathResolution::Fallback => {
            &&& r.len() == diagnostics.len() + 1
            &&& r.drop_last() == diagnostics
            &&& r.last().kind == crate::content::DiagnosticKind::PathResolutionFallback
            &&& r.last().message@ == "Fell back to a non-canonical display path because root-relative rewriting was not possible."@
            &&& opt_view(r.last().path) == Some(display_path)
        },
    }
}

/// The diagnostics of a match, with a note when its path fell back to a
/// non-canonical form.
pub fn attach_resolution_diagnostics(display_path: String, resolution: PathResolution, diagnostics: Vec<SearchDiagnostic>) -> (r: Vec<
    SearchDiagnostic,
>)
    ensures
        resolution_noted(r@, diagnostics@, resolution, display_path@),
{
    let ghost given = diagnostics@;
    let mut diagnostics = diagnostics;
    if resolution == PathResolution::Fallback {
        let d = SearchDiagnostic::path_resolution_fallback(
            display_path,
            owned("Fell back to a non-canonical display path because root-relative rewriting was not possible."),
        );
        diagnostics.push(d);
        assert(diagnostics@.drop_last() =~= given);
    }
    diagnostics
}


/// Appends diagnostics.
fn extend_diagnostics(out: &mut Vec<SearchDiagnostic>, more: Vec<SearchDiagnostic>)
    ensures
        final(out)@ == old(out)@ + more@,
{
    let mut more = more;
    out.append(&mut more);
}

/// The statistics counters that the loop keeps, in order: prefiltered,
/// evaluated, matched files, whole-file results, ranged results, matched
/// ranges, diagnostics.
pub open spec fn counters(s: SearchStats) -> (usize, usize, usize, usize, usize, usize, usize) {
    (s.prefiltered_files, s.evaluated_files, s.matched_files, s.whole_file_results, s.ranged_results, s.matched_ranges, s.diagnostics)
}

/// `a + b`, saturating at `usize::MAX`.
pub open spec fn sat_add(a: usize, b: int) -> usize {
    cap_usize(a + b) as usize
}

/// The fields of statistics other than the loop's counters are equal.
pub open spec fn same_totals(a: SearchStats, b: SearchStats) -> bool {
    &&& a.candidate_files == b.candidate_files
    &&& a.hidden_skipped == b.hidden_skipped
    &&& a.ignore_skipped == b.ignore_skipped
    &&& a.max_depth_skipped == b.max_depth_skipped
    &&& a.unreadable_entries == b.unreadable_entries
    &&& a.root_boundary_excluded == b.root_boundary_excluded
    &&& a.suppressed_too_large == b.suppressed_too_large
    &&& a.suppressed_binary == b.suppressed_binary
    &&& a.suppressed_secret_like == b.suppressed_secret_like
    &&& a.walk_millis == b.walk_millis
    &&& a.directory_hotspots == b.directory_hotspots
}

/// The message of a failed pre-filter.
pub open spec fn prefilter_error_spec(path: Seq<char>, err: Seq<char>) -> Seq<char> {
    "Error during pre-filter on "@ + path + ": "@ + err
}

/// The message of a failed pre-filter.
pub fn prefilter_error(path: &str, err: &str) -> (s: String)
    ensures
        s@ == prefilter_error_spec(path@, err@),
{
    let mut out: Vec<char> = Vec::new();
    push_str(&mut out, "Error during pre-filter on ");
    push_str(&mut out, path);
    push_str(&mut out, ": ");
    push_str(&mut out, err);
    string_from_chars(&out)
}

/// The item a matching candidate yields.
pub open spec fn item_holds(
    item: RawSearchItem,
    id: BackendPathIdentity,
    ranges: Seq<TextRange>,
    diagnostics: Seq<SearchDiagnostic>,
    skips: Seq<SemanticSkipReason>,
    snapshot: Option<FileSnapshot>,
) -> bool {
    &&& item.display_path@ == id.display_path@
    &&& resolution_noted(item.diagnostics@, diagnostics, id.resolution, id.display_path@)
    &&& item.resolved_path@ == id.resolved_path@
    &&& opt_view(item.root_relative_path) == opt_view(id.root_relative_path)
    &&& item.resolution == id.resolution
    &&& item.ranges@ == ranges
    &&& item.semantic_skip_reasons@ == skips
    &&& item.snapshot == snapshot
}

impl EngineState {
    /// The state at the start of a search over the discovered files.
    pub fn new(discovery: DiscoveryReport, walk_millis: u64) -> (st: EngineState)
        ensures
            st.candidates@.len() == discovery.candidates@.len(),
            forall|i: int|
                0 <= i < st.candidates@.len() ==> identity_view((#[trigger] st.candidates@[i]).identity) == identity_view(
                    discovery.candidates@[i],
                ) && st.candidates@[i].estimated_bytes == cap_usize(candidate_cost(discovery.candidates@[i])),
            st.remaining_candidate_bytes == estimates_total(st.candidates@),
            st.next_candidate == 0,
            !st.cancelled,
            st.diagnostics@ == discovery.diagnostics@,
            st.stats.candidate_files == discovery.candidates@.len(),
            st.stats.hidden_skipped == discovery.hidden_skipped,
            st.stats.ignore_skipped == discovery.ignore_skipped,
            st.stats.max_depth_skipped == discovery.max_depth_skipped,
            st.stats.unreadable_entries == discovery.unreadable_entries,
            st.stats.root_boundary_excluded == discovery.root_boundary_excluded,
            st.stats.walk_millis == walk_millis,
            counters(st.stats) == (0usize, 0usize, 0usize, 0usize, 0usize, 0usize, 0usize),
            crate::backend::hotspots_sorted(st.stats.directory_hotspots@),
    {
        let hotspots = crate::backend::build_directory_hotspots(discovery.candidates.as_slice());
        let mut candidates: Vec<CandidateEntry> = Vec::new();
        let mut total: usize = 0;
        let mut i: usize = 0;
        while i < discovery.candidates.len()
            invariant
                i <= discovery.candidates@.len(),
                candidates@.len() == i,
                forall|k: int|
                    0 <= k < i ==> identity_view((#[trigger] candidates@[k]).identity) == identity_view(discovery.candidates@[k])
                        && candidates@[k].estimated_bytes == cap_usize(candidate_cost(discovery.candidates@[k])),
                total == estimates_total(candidates@),
            decreases discovery.candidates@.len() - i,
        {
            let entry = candidate_entry(clone_identity(&discovery.candidates[i]));
            let ghost before = candidates@;
            total = total.saturating_add(entry.estimated_bytes);
            candidates.push(entry);
            proof {
                assert(candidates@.drop_last() =~= before);
            }
            i = i + 1;
        }
        let mut stats = SearchStats::default();
        stats.candidate_files = candidates.len();
        stats.hidden_skipped = discovery.hidden_skipped;
        stats.ignore_skipped = discovery.ignore_skipped;
        stats.max_depth_skipped = discovery.max_depth_skipped;
        stats.unreadable_entries = discovery.unreadable_entries;
        stats.root_boundary_excluded = discovery.root_boundary_excluded;
        stats.directory_hotspots = hotspots;
        stats.walk_millis = walk_millis;
        EngineState {
            candidates,
            next_candidate: 0,
            stats,
            diagnostics: discovery.diagnostics,
            remaining_candidate_bytes: total,
            cancelled: false,
        }
    }

    /// The memory the search state is estimated to hold: the remaining
    /// candidates' estimates plus each diagnostic's message and path bytes
    /// and 32 (saturating).
    pub fn estimated_state_bytes(&self) -> (n: usize)
        ensures
            n == cap_usize(self.remaining_candidate_bytes + diagnostics_cost(self.diagnostics@)),
    {
        let mut total: usize = 0;
        let mut i: usize = 0;
        while i < self.diagnostics.len()
            invariant
                i <= self.diagnostics@.len(),
                total == cap_usize(diagnostics_cost(self.diagnostics@.take(i as int))),
            decreases self.diagnostics@.len() - i,
        {
            let d = &self.diagnostics[i];
            let m = crate::text::utf8_byte_len(d.message.as_str());
            let p = match &d.path {
                Some(p) => crate::text::utf8_byte_len(p.as_str()),
                None => 0,
            };
            proof {
                assert(self.diagnostics@.take(i + 1).drop_last() =~= self.diagnostics@.take(i as int));
                lemma_diagnostics_cost_nonneg(self.diagnostics@.take(i as int));
            }
            total = total.saturating_add(m).saturating_add(p).saturating_add(32);
            i = i + 1;
        }
        assert(self.diagnostics@.take(i as int) =~= self.diagnostics@);
        proof {
            lemma_diagnostics_cost_nonneg(self.diagnostics@);
        }
        self.remaining_candidate_bytes.saturating_add(total)
    }

    /// Candidates not yet handed out.
    pub fn remaining_hint(&self) -> (n: usize)
        ensures
            n == crate::request::sat_sub(self.candidates@.len() as int, self.next_candidate as int),
    {
        self.candidates.len().saturating_sub(self.next_candidate)
    }

    /// Hands out the next candidate, if any, and stops counting its
    /// estimated memory.
    pub fn next_candidate(&mut self) -> (c: Option<CandidateEntry>)
        ensures
            old(self).next_candidate < old(self).candidates@.len() ==> (c matches Some(e) && identity_view(e.identity)
                == identity_view(old(self).candidates@[old(self).next_candidate as int].identity) && e.estimated_bytes
                == old(self).candidates@[old(self).next_candidate as int].estimated_bytes && final(self).next_candidate
                == old(self).next_candidate + 1 && final(self).remaining_candidate_bytes == crate::request::sat_sub(
                old(self).remaining_candidate_bytes as int,
                e.estimated_bytes as int,
            )),
            old(self).next_candidate >= old(self).candidates@.len() ==> c is None && final(self).next_candidate
                == old(self).next_candidate && final(self).remaining_candidate_bytes == old(self).remaining_candidate_bytes,
            final(self).candidates@ == old(self).candidates@,
            final(self).stats == old(self).stats,
            final(self).diagnostics@ == old(self).diagnostics@,
            final(self).cancelled == old(self).cancelled,
    {
        if self.next_candidate >= self.candidates.len() {
            return None;
        }
        let k = self.next_candidate;
        let identity = clone_identity(&self.candidates[k].identity);
        let estimated_bytes = self.candidates[k].estimated_bytes;
        self.next_candidate = k + 1;
        self.remaining_candidate_bytes = self.remaining_candidate_bytes.saturating_sub(estimated_bytes);
        Some(CandidateEntry { identity, estimated_bytes })
    }

    /// Records the diagnostics of a candidate that the pre-filter rejected.
    pub fn note_prefilter_rejected(&mut self, diagnostics: Vec<SearchDiagnostic>)
        ensures
            final(self).diagnostics@ == old(self).diagnostics@ + diagnostics@,
            diagnostics@.len() > 0 ==> final(self).stats.diagnostics == final(self).diagnostics@.len(),
            diagnostics@.len() == 0 ==> final(self).stats == old(self).stats,
            same_totals(final(self).stats, old(self).stats),
            final(self).candidates@ == old(self).candidates@,
            final(self).next_candidate == old(self).next_candidate,
            final(self).remaining_candidate_bytes == old(self).remaining_candidate_bytes,
    {
        if diagnostics.len() > 0 {
            extend_diagnostics(&mut self.diagnostics, diagnostics);
            self.stats.diagnostics = self.diagnostics.len();
        }
    }

    /// Counts a candidate that passed the pre-filter.
    pub fn note_prefilter_passed(&mut self)
        ensures
            final(self).stats.prefiltered_files == sat_add(old(self).stats.prefiltered_files, 1),
            final(self).stats.evaluated_files == old(self).stats.evaluated_files,
            final(self).stats.matched_files == old(self).stats.matched_files,
            same_totals(final(self).stats, old(self).stats),
            final(self).diagnostics@ == old(self).diagnostics@,
            final(self).next_candidate == old(self).next_candidate,
    {
        self.stats.prefiltered_files = self.stats.prefiltered_files.saturating_add(1);
    }

    /// Turns a candidate's evaluation into what the search yields: a match
    /// becomes an item (an error under strict path resolution when its path
    /// fell back), no match records its diagnostics, and a failure ends the
    /// search.
    pub fn finish_evaluation(
        &mut self,
        candidate: CandidateEntry,
        evaluation: Evaluation,
        path_diagnostics: Vec<SearchDiagnostic>,
        semantic_skip_reasons: Vec<SemanticSkipReason>,
        snapshot: Option<FileSnapshot>,
        strict_path_resolution: bool,
    ) -> (out: StepOutcome)
        ensures
            final(self).stats.evaluated_files == sat_add(old(self).stats.evaluated_files, 1),
            same_totals(final(self).stats, old(self).stats),
            final(self).next_candidate == old(self).next_candidate,
            final(self).candidates@ == old(self).candidates@,
            final(self).stats.diagnostics == final(self).diagnostics@.len(),
            match evaluation {
                Evaluation::Failed(e) => out matches StepOutcome::Error(m) && m@ == "Error evaluating file "@
                    + candidate.identity.resolved_path@ + ": "@ + e@,
                Evaluation::Boolean(false) => out is Continue && final(self).diagnostics@ == old(self).diagnostics@
                    + path_diagnostics@,
                Evaluation::Hunks(h) if h@.len() == 0 => out is Continue && final(self).diagnostics@
                    == old(self).diagnostics@ + path_diagnostics@,
                _ => if strict_path_resolution && candidate.identity.resolution == PathResolution::Fallback {
                    out matches StepOutcome::Error(m) && m@ == "Strict path resolution failed for "@
                        + candidate.identity.resolved_path@
                } else {
                    &&& final(self).stats.matched_files == sat_add(old(self).stats.matched_files, 1)
                    &&& out matches StepOutcome::Item(item) && item_holds(
                        item,
                        candidate.identity,
                        match evaluation {
                            Evaluation::Hunks(h) => h@,
                            _ => Seq::empty(),
                        },
                        path_diagnostics@,
                        semantic_skip_reasons@,
                        snapshot,
                    )
                    &&& (evaluation is Boolean ==> final(self).stats.whole_file_results == sat_add(
                        old(self).stats.whole_file_results,
                        1,
                    ))
                    &&& (evaluation matches Evaluation::Hunks(h) ==> final(self).stats.ranged_results == sat_add(
                        old(self).stats.ranged_results,
                        1,
                    ) && final(self).stats.matched_ranges == sat_add(old(self).stats.matched_ranges, h@.len() as int))
                },
            },
    {
        self.stats.evaluated_files = self.stats.evaluated_files.saturating_add(1);
        let ranges = match evaluation {
            Evaluation::Failed(e) => {
                self.stats.diagnostics = self.diagnostics.len();
                let mut out: Vec<char> = Vec::new();
                push_str(&mut out, "Error evaluating file ");
                push_str(&mut out, candidate.identity.resolved_path.as_str());
                push_str(&mut out, ": ");
                push_str(&mut out, e.as_str());
                return StepOutcome::Error(string_from_chars(&out));
            },
            Evaluation::Boolean(false) => {
                extend_diagnostics(&mut self.diagnostics, path_diagnostics);
                self.stats.diagnostics = self.diagnostics.len();
                return StepOutcome::Continue;
            },
            Evaluation::Boolean(true) => None,
            Evaluation::Hunks(h) => {
                if h.len() == 0 {
                    extend_diagnostics(&mut self.diagnostics, path_diagnostics);
                    self.stats.diagnostics = self.diagnostics.len();
                    return StepOutcome::Continue;
                }
                Some(h)
            },
        };
        if strict_path_resolution && candidate.identity.resolution == PathResolution::Fallback {
            self.stats.diagnostics = self.diagnostics.len();
            let mut out: Vec<char> = Vec::new();
            push_str(&mut out, "Strict path resolution failed for ");
            push_str(&mut out, candidate.identity.resolved_path.as_str());
            return StepOutcome::Error(string_from_chars(&out));
        }
        self.stats.matched_files = self.stats.matched_files.saturating_add(1);
        let ranges = match ranges {
            None => {
                self.stats.whole_file_results = self.stats.whole_file_results.saturating_add(1);
                Vec::new()
            },
            Some(h) => {
                self.stats.ranged_results = self.stats.ranged_results.saturating_add(1);
                self.stats.matched_ranges = self.stats.matched_ranges.saturating_add(h.len());
                h
            },
        };
        self.stats.diagnostics = self.diagnostics.len();
        let identity = candidate.identity;
        let diagnostics = attach_resolution_diagnostics(identity.display_path.clone(), identity.resolution, path_diagnostics);
        StepOutcome::Item(
            RawSearchItem {
                display_path: identity.display_path,
                resolved_path: identity.resolved_path,
                root_relative_path: identity.root_relative_path,
                resolution: identity.resolution,
                ranges,
                diagnostics,
                semantic_skip_reasons,
                snapshot,
            },
        )
    }
}


/// The view of a snapshot.
pub open spec fn snapshot_view(s: Option<FileSnapshot>) -> Option<(u64, Option<i64>, bool, Seq<char>, Option<Seq<char>>, Option<u64>, Option<u64>)> {
    match s {
        Some(x) => Some((x.len, x.modified_unix_millis, x.readonly, x.permissions_display@, opt_view(x.stable_token), x.device_id, x.inode)),
        None => None,
    }
}

/// Sixteen lowercase hexadecimal digits.
pub open spec fn hex16(s: Seq<char>) -> bool {
    &&& s.len() == 16
    &&& forall|i: int| 0 <= i < 16 ==> ('0' <= #[trigger] s[i] <= '9' || 'a' <= s[i] <= 'f')
}

/// The lowercase hexadecimal digits, by value.
pub open spec fn hex_digits() -> Seq<char> {
    seq!['0', '1', '2', '3', '4', '5', '6', '7', '8', '9', 'a', 'b', 'c', 'd', 'e', 'f']
}

/// The last `n` hexadecimal digits of `h`, most significant first.
pub open spec fn hex_text(h: nat, n: nat) -> Seq<char>
    decreases n,
{
    if n == 0 {
        Seq::empty()
    } else {
        hex_text(h / 16, (n - 1) as nat).push(hex_digits()[(h % 16) as int])
    }
}

/// The digit of a value below sixteen.
fn hex_char(d: u64) -> (c: char)
    requires
        d < 16,
    ensures
        c == hex_digits()[d as int],
{
    match d {
        0 => '0',
        1 => '1',
        2 => '2',
        3 => '3',
        4 => '4',
        5 => '5',
        6 => '6',
        7 => '7',
        8 => '8',
        9 => '9',
        10 => 'a',
        11 => 'b',
        12 => 'c',
        13 => 'd',
        14 => 'e',
        _ => 'f',
    }
}

/// Appends the last `n` hexadecimal digits of `h`.
fn push_hex(out: &mut Vec<char>, h: u64, n: usize)
    ensures
        final(out)@ == old(out)@ + hex_text(h as nat, n as nat),
    decreases n,
{
    if n > 0 {
        push_hex(out, h / 16, n - 1);
        let ghost mid = out@;
        out.push(hex_char(h % 16));
        assert(out@ =~= old(out)@ + hex_text(h as nat, n as nat));
    }
}

/// The last `n` hexadecimal digits of any value are `n` digits.
proof fn lemma_hex_text_digits(h: nat, n: nat)
    ensures
        hex_text(h, n).len() == n,
        forall|i: int| 0 <= i < n ==> ('0' <= #[trigger] hex_text(h, n)[i] <= '9' || 'a' <= hex_text(h, n)[i] <= 'f'),
    decreases n,
{
    if n > 0 {
        lemma_hex_text_digits(h / 16, (n - 1) as nat);
        let d = (h % 16) as int;
        assert('0' <= hex_digits()[d] <= '9' || 'a' <= hex_digits()[d] <= 'f');
    }
}

/// `h` as sixteen lowercase hexadecimal digits (what `{:016x}` renders).
pub fn hex16_text(h: u64) -> (s: String)
    ensures
        s@ == hex_text(h as nat, 16),
        hex16(s@),
{
    let mut out: Vec<char> = Vec::new();
    push_hex(&mut out, h, 16);
    proof {
        lemma_hex_text_digits(h as nat, 16);
        assert(out@ =~= hex_text(h as nat, 16));
    }
    string_from_chars(&out)
}

/// The last `n` bytes of `x`, least significant first.
pub open spec fn le_bytes(x: nat, n: nat) -> Seq<u8>
    decreases n,
{
    if n == 0 {
        Seq::empty()
    } else {
        seq![(x % 256) as u8] + le_bytes(x / 256, (n - 1) as nat)
    }
}

/// Appends the last `n` bytes of `x`, least significant first.
fn push_le(out: &mut Vec<u8>, x: u64, n: usize)
    ensures
        final(out)@ == old(out)@ + le_bytes(x as nat, n as nat),
    decreases n,
{
    if n > 0 {
        out.push((x % 256) as u8);
        let ghost mid = out@;
        push_le(out, x / 256, n - 1);
        assert(out@ =~= old(out)@ + le_bytes(x as nat, n as nat));
    }
}

/// The eight bytes of `x`.
fn word_bytes(x: u64) -> (v: Vec<u8>)
    ensures
        v@ == le_bytes(x as nat, 8),
{
    let mut v: Vec<u8> = Vec::new();
    push_le(&mut v, x, 8);
    assert(v@ =~= le_bytes(x as nat, 8));
    v
}

/// One byte.
fn byte_chunk(b: u8) -> (v: Vec<u8>)
    ensures
        v@ == seq![b],
{
    let mut v: Vec<u8> = Vec::new();
    v.push(b);
    assert(v@ =~= seq![b]);
    v
}

/// The hash code of a result kind.
pub open spec fn kind_code(k: ResultKind) -> u8 {
    match k {
        ResultKind::WholeFile => 0,
        ResultKind::Ranged => 1,
    }
}

/// The hash code of a semantic skip reason.
pub open spec fn reason_code(r: SemanticSkipReason) -> u8 {
    match r {
        SemanticSkipReason::UnsupportedLanguage => 0,
        SemanticSkipReason::ParseFailed => 1,
        SemanticSkipReason::ContentUnavailable => 2,
        SemanticSkipReason::BudgetExhausted => 3,
    }
}

/// The chunks of a text: its UTF-8 bytes, then the byte 0xff.
pub open spec fn text_chunks(t: Seq<char>) -> Seq<Seq<u8>> {
    seq![vstd::utf8::encode_utf8(t), seq![0xffu8]]
}

/// The chunks of an optional number: 0, or 1 and its eight bytes.
pub open spec fn opt_word_chunks(o: Option<u64>) -> Seq<Seq<u8>> {
    match o {
        None => seq![seq![0u8]],
        Some(v) => seq![seq![1u8], le_bytes(v as nat, 8)],
    }
}

/// The chunks of an optional text: 0, or 1 and the text's chunks.
pub open spec fn opt_text_chunks(o: Option<Seq<char>>) -> Seq<Seq<u8>> {
    match o {
        None => seq![seq![0u8]],
        Some(t) => seq![seq![1u8]] + text_chunks(t),
    }
}

/// The chunks of an optional snapshot: 0, or 1 and its fields in order.
pub open spec fn snapshot_chunks(s: Option<FileSnapshot>) -> Seq<Seq<u8>> {
    match s {
        None => seq![seq![0u8]],
        Some(x) => seq![seq![1u8], le_bytes(x.len as nat, 8)] + opt_word_chunks(
            match x.modified_unix_millis {
                Some(m) => Some(m as u64),
                None => None,
            },
        ) + seq![seq![if x.readonly { 1u8 } else { 0u8 }]] + text_chunks(x.permissions_display@) + opt_text_chunks(
            opt_view(x.stable_token),
        ) + opt_word_chunks(x.device_id) + opt_word_chunks(x.inode),
    }
}

/// The chunks of the skip reasons: their count, then one code each.
pub open spec fn reason_chunks(rs: Seq<SemanticSkipReason>) -> Seq<Seq<u8>> {
    seq![le_bytes(rs.len(), 8)] + rs.map_values(|r: SemanticSkipReason| seq![reason_code(r)])
}

/// What is written to the hasher for a result's identity, chunk by chunk:
/// both paths, the kind, the snapshot, then the skip reasons.
pub open spec fn identity_chunks(
    display_path: Seq<char>,
    resolved_path: Seq<char>,
    kind: ResultKind,
    snapshot: Option<FileSnapshot>,
    reasons: Seq<SemanticSkipReason>,
) -> Seq<Seq<u8>> {
    text_chunks(display_path) + text_chunks(resolved_path) + seq![seq![kind_code(kind)]] + snapshot_chunks(snapshot)
        + reason_chunks(reasons)
}

fn write_chunk(h: &mut DefaultHasher, bytes: &Vec<u8>)
    ensures
        final(h)@ == old(h)@.push(bytes@),
{
    h.write(bytes.as_slice());
}

fn write_text(h: &mut DefaultHasher, t: &str)
    ensures
        final(h)@ == old(h)@ + text_chunks(t@),
{
    h.write(t.as_bytes());
    write_chunk(h, &byte_chunk(0xff));
    assert(final(h)@ =~= old(h)@ + text_chunks(t@));
}

fn write_opt_word(h: &mut DefaultHasher, o: Option<u64>)
    ensures
        final(h)@ == old(h)@ + opt_word_chunks(o),
{
    match o {
        None => write_chunk(h, &byte_chunk(0)),
        Some(v) => {
            write_chunk(h, &byte_chunk(1));
            write_chunk(h, &word_bytes(v));
        },
    }
    assert(final(h)@ =~= old(h)@ + opt_word_chunks(o));
}

fn write_opt_text(h: &mut DefaultHasher, o: &Option<String>)
    ensures
        final(h)@ == old(h)@ + opt_text_chunks(opt_view(*o)),
{
    match o {
        None => write_chunk(h, &byte_chunk(0)),
        Some(t) => {
            write_chunk(h, &byte_chunk(1));
            write_text(h, t.as_str());
        },
    }
    assert(final(h)@ =~= old(h)@ + opt_text_chunks(opt_view(*o)));
}

#[verifier::rlimit(50)]
fn write_snapshot(h: &mut DefaultHasher, s: &Option<FileSnapshot>)
    ensures
        final(h)@ == old(h)@ + snapshot_chunks(*s),
{
    match s {
        None => {
            write_chunk(h, &byte_chunk(0));
            assert(final(h)@ =~= old(h)@ + snapshot_chunks(*s));
        },
        Some(x) => {
            let ghost h0 = h@;
            write_chunk(h, &byte_chunk(1));
            write_chunk(h, &word_bytes(x.len));
            let ghost h1 = h@;
            assert(h1 =~= h0 + seq![seq![1u8], le_bytes(x.len as nat, 8)]);
            let m = match x.modified_unix_millis {
                Some(m) => Some(m as u64),
                None => None,
            };
            write_opt_word(h, m);
            write_chunk(h, &byte_chunk(if x.readonly { 1 } else { 0 }));
            let ghost h2 = h@;
            write_text(h, x.permissions_display.as_str());
            write_opt_text(h, &x.stable_token);
            let ghost h3 = h@;
            write_opt_word(h, x.device_id);
            write_opt_word(h, x.inode);
            let ghost h4 = h@;
            assert(h4 =~= h3 + opt_word_chunks(x.device_id) + opt_word_chunks(x.inode));
            assert(h3 =~= h2 + text_chunks(x.permissions_display@) + opt_text_chunks(opt_view(x.stable_token)));
            assert(h2 =~= h1 + opt_word_chunks(m) + seq![seq![if x.readonly { 1u8 } else { 0u8 }]]);
            assert(final(h)@ =~= old(h)@ + snapshot_chunks(*s));
        },
    }
}

fn write_reasons(h: &mut DefaultHasher, rs: &Vec<SemanticSkipReason>)
    ensures
        final(h)@ == old(h)@ + reason_chunks(rs@),
{
    write_chunk(h, &word_bytes(rs.len() as u64));
    let ghost start = h@;
    let mut i: usize = 0;
    while i < rs.len()
        invariant
            i <= rs@.len(),
            h@ == start + rs@.take(i as int).map_values(|r: SemanticSkipReason| seq![reason_code(r)]),
        decreases rs.len() - i,
    {
        let code: u8 = match rs[i] {
            SemanticSkipReason::UnsupportedLanguage => 0,
            SemanticSkipReason::ParseFailed => 1,
            SemanticSkipReason::ContentUnavailable => 2,
            SemanticSkipReason::BudgetExhausted => 3,
        };
        write_chunk(h, &byte_chunk(code));
        assert(rs@.take(i + 1).map_values(|r: SemanticSkipReason| seq![reason_code(r)]) =~= rs@.take(
            i as int,
        ).map_values(|r: SemanticSkipReason| seq![reason_code(r)]).push(seq![code]));
        i = i + 1;
    }
    assert(rs@.take(i as int) =~= rs@);
    assert(final(h)@ =~= old(h)@ + reason_chunks(rs@));
}

/// Hashes a result's identity with a fresh `DefaultHasher`: both paths,
/// the kind, the snapshot's fields in order when there is a snapshot, then
/// the skip reasons (see [`identity_chunks`]).
fn identity_hash(
    display_path: &str,
    resolved_path: &str,
    kind: ResultKind,
    snapshot: &Option<FileSnapshot>,
    reasons: &Vec<SemanticSkipReason>,
) -> (h: u64)
    ensures
        h == <DefaultHasher as vstd::std_specs::hash::DefaultHasherAdditionalSpecFns>::spec_finish(identity_chunks(display_path@, resolved_path@, kind, *snapshot, reasons@)),
{
    let mut hasher = DefaultHasher::new();
    write_text(&mut hasher, display_path);
    write_text(&mut hasher, resolved_path);
    let code: u8 = match kind {
        ResultKind::WholeFile => 0,
        ResultKind::Ranged => 1,
    };
    write_chunk(&mut hasher, &byte_chunk(code));
    write_snapshot(&mut hasher, snapshot);
    write_reasons(&mut hasher, reasons);
    assert(hasher@ =~= identity_chunks(display_path@, resolved_path@, kind, *snapshot, reasons@));
    hasher.finish()
}

/// The fingerprint of a result: its identity's hash as sixteen hexadecimal
/// digits.
fn result_fingerprint(
    display_path: &str,
    resolved_path: &str,
    kind: ResultKind,
    snapshot: &Option<FileSnapshot>,
    reasons: &Vec<SemanticSkipReason>,
) -> (r: String)
    ensures
        hex16(r@),
        r@ == hex_text(<DefaultHasher as vstd::std_specs::hash::DefaultHasherAdditionalSpecFns>::spec_finish(identity_chunks(display_path@, resolved_path@, kind, *snapshot, reasons@))
            as nat, 16),
{
    let h = identity_hash(display_path, resolved_path, kind, snapshot, reasons);
    hex16_text(h)
}

/// Two snapshots record the same metadata.
pub fn same_snapshot(a: &FileSnapshot, b: &FileSnapshot) -> (r: bool)
    ensures
        r == (snapshot_view(Some(*a)) == snapshot_view(Some(*b))),
{
    let tokens = match (&a.stable_token, &b.stable_token) {
        (Some(x), Some(y)) => crate::text::str_eq(x.as_str(), y.as_str()),
        (None, None) => true,
        _ => false,
    };
    a.len == b.len && a.modified_unix_millis == b.modified_unix_millis && a.readonly == b.readonly
        && crate::text::str_eq(a.permissions_display.as_str(), b.permissions_display.as_str()) && tokens && a.device_id
        == b.device_id && a.inode == b.inode
}

/// The message of a content read that failed after evaluation.
pub open spec fn materialization_message(resolved: Seq<char>, err: Seq<char>, drift: bool) -> Seq<char> {
    if drift {
        "Materialization for "@ + resolved + " may have drifted since evaluation: "@ + err
    } else {
        err
    }
}

/// What a loaded result holds of the matched file it was built from:
/// matches from the ranges when content was loaded, the file's identity,
/// its fingerprint, its skip reasons and snapshot, and its diagnostics
/// after those of the match.
pub open spec fn materialization_holds(res: SearchResult, raw: RawSearchItem) -> bool {
    &&& res.path@ == raw.display_path@
    &&& (raw.ranges@.len() == 0 || !crate::content::state_is_loaded(res.content_state)) ==> res.matches@.len() == 0
    &&& (raw.ranges@.len() > 0 && crate::content::state_is_loaded(res.content_state) && res.content@.len() > 0)
        ==> res.matches@.map_values(|m: crate::model::Match| crate::model::match_view(m))
        == crate::model::ranges_matches(res.content@, raw.ranges@)
    &&& res.metadata.result_kind == (if res.matches@.len() == 0 {
        ResultKind::WholeFile
    } else {
        ResultKind::Ranged
    })
    &&& hex16(res.metadata.fingerprint@)
    &&& res.metadata.file.display_path@ == raw.display_path@
    &&& res.metadata.file.resolved_path@ == raw.resolved_path@
    &&& opt_view(res.metadata.file.root_relative_path) == opt_view(raw.root_relative_path)
    &&& res.metadata.file.resolution == raw.resolution
    &&& res.metadata.semantic_skip_reasons@ == raw.semantic_skip_reasons@
    &&& res.metadata.snapshot == raw.snapshot
    &&& (res.metadata.snapshot_drift ==> raw.snapshot is Some)
    &&& res.diagnostics@.take(raw.diagnostics@.len() as int) == raw.diagnostics@
}

/// The snapshot that backend metadata records.
pub open spec fn metadata_snapshot(md: crate::backend::BackendMetadata) -> FileSnapshot {
    FileSnapshot {
        len: md.size_bytes,
        modified_unix_millis: md.modified_unix_millis,
        readonly: md.readonly,
        permissions_display: md.permissions_display,
        stable_token: md.stable_token,
        device_id: md.device_id,
        inode: md.inode,
    }
}

/// Loads a matched file's content through the backend and builds its
/// result: matches from the ranges when content was loaded, diagnostics of
/// the match and of loading, a drift note when the file's metadata changed
/// since evaluation, and its identity and fingerprint.
pub fn materialize_raw_search_item<B: crate::backend::SearchBackend>(backend: &B, raw: RawSearchItem) -> (r: Result<
    SearchResult,
    crate::model::SearchMaterializationError,
>)
    requires
        forall|i: int|
            0 <= i < raw.ranges@.len() ==> (#[trigger] raw.ranges@[i]).start_point.row < usize::MAX
                && raw.ranges@[i].end_point.row < usize::MAX,
    ensures
        match r {
            Err(e) => {
                &&& e.path@ == raw.display_path@
                &&& e.kind == crate::model::SearchMaterializationFailureKind::ContentReadFailed
                &&& e.snapshot_drift == (raw.snapshot is Some)
                &&& (e.message@ == materialization_message(
                    raw.resolved_path@,
                    crate::backend::metadata_error_message(raw.display_path@),
                    raw.snapshot is Some,
                ) || e.message@ == materialization_message(
                    raw.resolved_path@,
                    crate::backend::read_error_message(raw.display_path@),
                    raw.snapshot is Some,
                ))
            },
            Ok(res) => materialization_holds(res, raw),
        },
        r matches Err(e) ==> exists|m: String|
            crate::backend::backend_load_holds(backend, raw.resolved_path@, raw.display_path@, Err(m))
                && #[trigger] materialization_message(raw.resolved_path@, m@, raw.snapshot is Some) == e.message@,
        r matches Ok(res) ==> exists|c: crate::content::LoadedContent|
            #[trigger] crate::backend::backend_load_holds(backend, raw.resolved_path@, raw.display_path@, Ok(c))
                && res.content@ == c.content@ && res.content_state == c.state,
        r matches Ok(res) ==> (res.metadata.snapshot_drift ==> exists|md: crate::backend::BackendMetadata|
            #[trigger] backend.stat_outcome(raw.resolved_path@, Ok(md)) && snapshot_view(
                Some(metadata_snapshot(md)),
            ) != snapshot_view(raw.snapshot)),
        r matches Ok(res) ==> (raw.snapshot is Some && !res.metadata.snapshot_drift ==> (exists|e: String|
            #[trigger] backend.stat_outcome(raw.resolved_path@, Err(e))) || exists|md: crate::backend::BackendMetadata|
            #[trigger] backend.stat_outcome(raw.resolved_path@, Ok(md)) && snapshot_view(Some(metadata_snapshot(md)))
                == snapshot_view(raw.snapshot)),
{
    let loaded = match crate::backend::load_search_content_with_backend(backend, raw.resolved_path.as_str(), raw.display_path.as_str()) {
        Ok(c) => c,
        Err(e) => {
            let snapshot_drift = raw.snapshot.is_some();
            let message = if snapshot_drift {
                let mut out: Vec<char> = Vec::new();
                push_str(&mut out, "Materialization for ");
                push_str(&mut out, raw.resolved_path.as_str());
                push_str(&mut out, " may have drifted since evaluation: ");
                push_str(&mut out, e.as_str());
                string_from_chars(&out)
            } else {
                e
            };
            assert(materialization_message(raw.resolved_path@, e@, snapshot_drift) == message@);
            return Err(
                crate::model::SearchMaterializationError {
                    path: raw.display_path,
                    kind: crate::model::SearchMaterializationFailureKind::ContentReadFailed,
                    snapshot_drift,
                    message,
                },
            );
        },
    };
    let loaded_ok = loaded.state.is_loaded();
    let content = loaded.content;
    let matches = if raw.ranges.len() == 0 || !loaded_ok {
        Vec::new()
    } else {
        crate::model::ranges_to_matches(content.as_str(), &raw.ranges)
    };
    let mut diagnostics = raw.diagnostics;
    let ghost raw_diags = diagnostics@;
    extend_diagnostics(&mut diagnostics, loaded.diagnostics);
    let mut snapshot_drift = false;
    if let Some(snapshot) = &raw.snapshot {
        let stat = backend.stat(raw.resolved_path.as_str());
        if let Ok(metadata) = stat {
            let current = FileSnapshot::from_backend_metadata(&metadata);
            assert(snapshot_view(Some(current)) == snapshot_view(Some(metadata_snapshot(metadata))));
            if !same_snapshot(&current, snapshot) {
                snapshot_drift = true;
                let d = SearchDiagnostic::snapshot_drift(
                    raw.display_path.clone(),
                    owned("File identity or metadata changed between evaluation and content materialization."),
                );
                let ghost before = diagnostics@;
                diagnostics.push(d);
                assert(diagnostics@.take(raw_diags.len() as int) =~= before.take(raw_diags.len() as int));
            }
        }
    }
    assert(diagnostics@.take(raw_diags.len() as int) =~= raw_diags);
    let result_kind = if matches.len() == 0 {
        ResultKind::WholeFile
    } else {
        ResultKind::Ranged
    };
    let fingerprint = result_fingerprint(
        raw.display_path.as_str(),
        raw.resolved_path.as_str(),
        result_kind,
        &raw.snapshot,
        &raw.semantic_skip_reasons,
    );
    let path = raw.display_path.clone();
    Ok(
        SearchResult {
            path,
            matches,
            content,
            content_state: loaded.state,
            diagnostics,
            metadata: crate::model::SearchResultMetadata {
                file: crate::model::FileIdentity {
                    display_path: raw.display_path,
                    resolved_path: raw.resolved_path,
                    root_relative_path: raw.root_relative_path,
                    resolution: raw.resolution,
                },
                fingerprint,
                result_kind,
                semantic_skip_reasons: raw.semantic_skip_reasons,
                snapshot: raw.snapshot,
                snapshot_drift,
            },
        },
    )
}

} // verus!

verus! {

/// The number of results that satisfy `p`.
pub open spec fn count_results(s: Seq<SearchResult>, p: spec_fn(SearchResult) -> bool) -> nat
    decreases s.len(),
{
    if s.len() == 0 {
        0
    } else {
        count_results(s.drop_last(), p) + (if p(s.last()) {
            1nat
        } else {
            0nat
        })
    }
}

/// A result's content was withheld for this reason.
pub open spec fn skipped_for(r: SearchResult, reason: crate::content::ContentSkipReason) -> bool {
    r.content_state == crate::content::ContentState::Skipped { reason }
}

/// Counting a prefix never exceeds its length.
proof fn lemma_count_results_le(s: Seq<SearchResult>, p: spec_fn(SearchResult) -> bool)
    ensures
        count_results(s, p) <= s.len(),
    decreases s.len(),
{
    if s.len() > 0 {
        lemma_count_results_le(s.drop_last(), p);
    }
}

/// Counts the results that satisfy a content test.
fn count_matching(results: &Vec<SearchResult>, which: u8) -> (n: usize)
    requires
        which < 4,
    ensures
        n == count_results(results@, result_test(which)),
{
    let mut n: usize = 0;
    let mut i: usize = 0;
    while i < results.len()
        invariant
            i <= results@.len(),
            which < 4,
            n == count_results(results@.take(i as int), result_test(which)),
        decreases results.len() - i,
    {
        proof {
            assert(results@.take(i + 1).drop_last() =~= results@.take(i as int));
            lemma_count_results_le(results@.take(i as int), result_test(which));
        }
        let r = &results[i];
        let hit = match which {
            0 => r.matches.len() == 0,
            1 => matches!(r.content_state, crate::content::ContentState::Skipped { reason: crate::content::ContentSkipReason::TooLarge }),
            2 => matches!(r.content_state, crate::content::ContentState::Skipped { reason: crate::content::ContentSkipReason::Binary }),
            _ => matches!(r.content_state, crate::content::ContentState::Skipped { reason: crate::content::ContentSkipReason::SecretLike }),
        };
        if hit {
            n = n + 1;
        }
        i = i + 1;
    }
    assert(results@.take(i as int) =~= results@);
    n
}

/// The tests by which results are counted: whole-file, then withheld as
/// too large, binary and secret-like.
pub open spec fn result_test(which: u8) -> spec_fn(SearchResult) -> bool {
    |r: SearchResult|
        if which == 0 {
            r.matches@.len() == 0
        } else if which == 1 {
            skipped_for(r, crate::content::ContentSkipReason::TooLarge)
        } else if which == 2 {
            skipped_for(r, crate::content::ContentSkipReason::Binary)
        } else {
            skipped_for(r, crate::content::ContentSkipReason::SecretLike)
        }
}

/// The message recorded for a result skipped after a per-file error.
pub open spec fn skipped_result_message(err: Seq<char>) -> Seq<char> {
    "Skipping result after per-file error: "@ + err
}

/// Takes in the outcome of loading one matched file while a report is
/// collected: a result is kept and its diagnostics recorded; an error ends
/// the collection under fail-fast (or when strict semantics force it),
/// otherwise it is recorded as a warning and skipped.
pub fn absorb_loaded_result(
    results: &mut Vec<SearchResult>,
    result_diagnostics: &mut Vec<SearchDiagnostic>,
    outcome: Result<SearchResult, String>,
    error_mode: crate::contracts::ErrorMode,
    force_fail_fast: bool,
) -> (r: Result<(), String>)
    ensures
        match outcome {
            Ok(res) => {
                &&& r is Ok
                &&& final(results)@ == old(results)@.push(res)
                &&& final(result_diagnostics)@.map_values(|d: SearchDiagnostic| crate::content::diag_view(d))
                    == (old(result_diagnostics)@ + res.diagnostics@).map_values(|d: SearchDiagnostic| crate::content::diag_view(d))
            },
            Err(e) => if error_mode == crate::contracts::ErrorMode::FailFast || force_fail_fast {
                &&& r matches Err(m) && m@ == e@
                &&& final(results)@ == old(results)@
                &&& final(result_diagnostics)@ == old(result_diagnostics)@
            } else {
                &&& r is Ok
                &&& final(results)@ == old(results)@
                &&& final(result_diagnostics)@.len() == old(result_diagnostics)@.len() + 1
                &&& final(result_diagnostics)@.drop_last() == old(result_diagnostics)@
                &&& final(result_diagnostics)@.last().kind == crate::content::DiagnosticKind::WalkWarning
                &&& final(result_diagnostics)@.last().path is None
                &&& final(result_diagnostics)@.last().message@ == skipped_result_message(e@)
            },
        },
{
    match outcome {
        Ok(res) => {
            let mut copies: Vec<SearchDiagnostic> = Vec::new();
            let mut i: usize = 0;
            while i < res.diagnostics.len()
                invariant
                    i <= res.diagnostics@.len(),
                    copies@.len() == i,
                    forall|k: int| 0 <= k < i ==> crate::content::diag_view(#[trigger] copies@[k]) == crate::content::diag_view(res.diagnostics@[k]),
                decreases res.diagnostics.len() - i,
            {
                let d = clone_diagnostic(&res.diagnostics[i]);
                copies.push(d);
                i = i + 1;
            }
            let ghost before = result_diagnostics@;
            result_diagnostics.append(&mut copies);
            assert(result_diagnostics@.map_values(|d: SearchDiagnostic| crate::content::diag_view(d))
                =~= (before + res.diagnostics@).map_values(|d: SearchDiagnostic| crate::content::diag_view(d)));
            results.push(res);
            Ok(())
        },
        Err(e) => {
            if error_mode == crate::contracts::ErrorMode::FailFast || force_fail_fast {
                return Err(e);
            }
            let mut out: Vec<char> = Vec::new();
            push_str(&mut out, "Skipping result after per-file error: ");
            push_str(&mut out, e.as_str());
            let d = SearchDiagnostic::walk_warning(None, string_from_chars(&out));
            let ghost before = result_diagnostics@;
            result_diagnostics.push(d);
            assert(result_diagnostics@.drop_last() =~= before);
            Ok(())
        },
    }
}

/// A copy of a diagnostic.
fn clone_diagnostic(d: &SearchDiagnostic) -> (c: SearchDiagnostic)
    ensures
        crate::content::diag_view(c) == crate::content::diag_view(*d),
{
    SearchDiagnostic {
        level: d.level,
        kind: d.kind,
        message: d.message.clone(),
        path: crate::content::clone_opt(&d.path),
    }
}

/// Assembles the report of a finished search: the kept results, the
/// engine's diagnostics followed by those of the results, and the engine's
/// statistics with the result counts filled in.
pub fn finish_search_report(
    results: Vec<SearchResult>,
    engine_stats: SearchStats,
    engine_diagnostics: Vec<SearchDiagnostic>,
    result_diagnostics: Vec<SearchDiagnostic>,
    materialize_millis: u64,
) -> (report: crate::model::SearchReport)
    ensures
        report.results@ == results@,
        report.diagnostics@ == engine_diagnostics@ + result_diagnostics@,
        report.stats.whole_file_results == count_results(results@, result_test(0)),
        report.stats.ranged_results == results@.len() - count_results(results@, result_test(0)),
        report.stats.suppressed_too_large == count_results(results@, result_test(1)),
        report.stats.suppressed_binary == count_results(results@, result_test(2)),
        report.stats.suppressed_secret_like == count_results(results@, result_test(3)),
        report.stats.diagnostics == report.diagnostics@.len(),
        report.stats.materialize_millis == materialize_millis,
        counters_kept(report.stats, engine_stats),
{
    let mut diagnostics = engine_diagnostics;
    let mut more = result_diagnostics;
    diagnostics.append(&mut more);
    let mut stats = engine_stats;
    let whole = count_matching(&results, 0);
    proof {
        lemma_count_results_le(results@, result_test(0));
    }
    stats.whole_file_results = whole;
    stats.ranged_results = results.len() - whole;
    stats.suppressed_too_large = count_matching(&results, 1);
    stats.suppressed_binary = count_matching(&results, 2);
    stats.suppressed_secret_like = count_matching(&results, 3);
    stats.diagnostics = diagnostics.len();
    stats.materialize_millis = materialize_millis;
    crate::model::SearchReport { results, stats, diagnostics }
}

/// The engine's own counters carry over into a report's statistics.
pub open spec fn counters_kept(a: SearchStats, b: SearchStats) -> bool {
    &&& a.candidate_files == b.candidate_files
    &&& a.prefiltered_files == b.prefiltered_files
    &&& a.evaluated_files == b.evaluated_files
    &&& a.matched_files == b.matched_files
    &&& a.matched_ranges == b.matched_ranges
    &&& a.hidden_skipped == b.hidden_skipped
    &&& a.ignore_skipped == b.ignore_skipped
    &&& a.max_depth_skipped == b.max_depth_skipped
    &&& a.unreadable_entries == b.unreadable_entries
    &&& a.root_boundary_excluded == b.root_boundary_excluded
    &&& a.walk_millis == b.walk_millis
    &&& a.prefilter_millis == b.prefilter_millis
    &&& a.evaluate_millis == b.evaluate_millis
    &&& a.directory_hotspots == b.directory_hotspots
}

} // verus!

verus! {

/// Where the search stands before the next candidate.
#[derive(Debug)]
pub enum CandidateStep {
    /// Cancellation was requested: the search stops.
    Cancelled,
    /// No candidate is left: the search is done.
    Exhausted,
    /// The time budget ran out: the search fails with this message.
    BudgetExceeded(String),
    /// Evaluate this candidate.
    Evaluate(CandidateEntry),
}

/// The runtime counters that the code-aware layer keeps, read after a step.
#[derive(Debug)]
pub struct RuntimeCounters {
    pub semantic_parse_failures: usize,
    pub semantic_budget_exhaustions: usize,
    pub semantic_parse_failures_by_language: std::collections::BTreeMap<String, usize>,
    pub tree_cache_hits: usize,
    pub tree_cache_misses: usize,
    pub query_cache_hits: usize,
    pub query_cache_misses: usize,
}

impl EngineState {
    /// The head of each step: stop when cancellation was requested, finish
    /// when no candidate is left, else take the next candidate and fail
    /// if the search has run past its time budget.
    pub fn begin_candidate(&mut self, cancel_requested: bool, elapsed_ms: u64, budget_ms: Option<u64>) -> (s: CandidateStep)
        ensures
            cancel_requested ==> s is Cancelled && final(self).cancelled && final(self).next_candidate
                == old(self).next_candidate,
            !cancel_requested && old(self).next_candidate >= old(self).candidates@.len() ==> s is Exhausted
                && final(self).next_candidate == old(self).next_candidate,
            !cancel_requested && old(self).next_candidate < old(self).candidates@.len() ==> {
                &&& final(self).next_candidate == old(self).next_candidate + 1
                &&& match budget_ms {
                    Some(b) if elapsed_ms > b => s matches CandidateStep::BudgetExceeded(m) && m@ == budget_message(b),
                    _ => s matches CandidateStep::Evaluate(c) && identity_view(c.identity) == identity_view(
                        old(self).candidates@[old(self).next_candidate as int].identity,
                    ),
                }
            },
            !cancel_requested ==> final(self).cancelled == old(self).cancelled,
            final(self).candidates@ == old(self).candidates@,
            final(self).stats == old(self).stats,
            final(self).diagnostics@ == old(self).diagnostics@,
    {
        if cancel_requested {
            self.cancelled = true;
            return CandidateStep::Cancelled;
        }
        let candidate = match self.next_candidate() {
            Some(c) => c,
            None => return CandidateStep::Exhausted,
        };
        match budget_error(elapsed_ms, budget_ms) {
            Some(m) => CandidateStep::BudgetExceeded(m),
            None => CandidateStep::Evaluate(candidate),
        }
    }

    /// Adds the time spent in the pre-filter and in evaluation
    /// (saturating).
    pub fn add_phase_millis(&mut self, prefilter_ms: u64, evaluate_ms: u64)
        ensures
            final(self).stats.prefilter_millis == cap_u64(old(self).stats.prefilter_millis + prefilter_ms),
            final(self).stats.evaluate_millis == cap_u64(old(self).stats.evaluate_millis + evaluate_ms),
            counters(final(self).stats) == counters(old(self).stats),
            same_totals(final(self).stats, old(self).stats),
            final(self).candidates@ == old(self).candidates@,
            final(self).next_candidate == old(self).next_candidate,
            final(self).diagnostics@ == old(self).diagnostics@,
    {
        self.stats.prefilter_millis = self.stats.prefilter_millis.saturating_add(prefilter_ms);
        self.stats.evaluate_millis = self.stats.evaluate_millis.saturating_add(evaluate_ms);
    }

    /// Refreshes the statistics from the code-aware layer's counters: the
    /// query cache counts only what happened since the search started
    /// (`before`), saturating at zero, and the diagnostic count follows the
    /// diagnostics.
    pub fn refresh_runtime_stats(&mut self, now: RuntimeCounters, query_hits_before: usize, query_misses_before: usize)
        ensures
            final(self).stats.semantic_parse_failures == now.semantic_parse_failures,
            final(self).stats.semantic_budget_exhaustions == now.semantic_budget_exhaustions,
            final(self).stats.semantic_parse_failures_by_language == now.semantic_parse_failures_by_language,
            final(self).stats.tree_cache_hits == now.tree_cache_hits,
            final(self).stats.tree_cache_misses == now.tree_cache_misses,
            final(self).stats.query_cache_hits == crate::request::sat_sub(now.query_cache_hits as int, query_hits_before as int),
            final(self).stats.query_cache_misses == crate::request::sat_sub(now.query_cache_misses as int, query_misses_before as int),
            final(self).stats.diagnostics == final(self).diagnostics@.len(),
            same_totals(final(self).stats, old(self).stats),
            final(self).candidates@ == old(self).candidates@,
            final(self).next_candidate == old(self).next_candidate,
            final(self).diagnostics@ == old(self).diagnostics@,
    {
        self.stats.semantic_parse_failures = now.semantic_parse_failures;
        self.stats.semantic_budget_exhaustions = now.semantic_budget_exhaustions;
        self.stats.semantic_parse_failures_by_language = now.semantic_parse_failures_by_language;
        self.stats.tree_cache_hits = now.tree_cache_hits;
        self.stats.tree_cache_misses = now.tree_cache_misses;
        self.stats.query_cache_hits = now.query_cache_hits.saturating_sub(query_hits_before);
        self.stats.query_cache_misses = now.query_cache_misses.saturating_sub(query_misses_before);
        self.stats.diagnostics = self.diagnostics.len();
    }

    /// True once the search stopped on a cancellation request.
    pub fn was_cancelled(&self) -> (b: bool)
        ensures
            b == self.cancelled,
    {
        self.cancelled
    }

    /// The bounds on the number of items still to come: none at least, at
    /// most one per remaining candidate.
    pub fn size_hint(&self) -> (r: (usize, Option<usize>))
        ensures
            r.0 == 0,
            r.1 == Some(crate::request::sat_sub(self.candidates@.len() as int, self.next_candidate as int) as usize),
    {
        (0, Some(self.remaining_hint()))
    }
}

/// The snapshot recorded for a matched file: its metadata when drift
/// detection is on and the metadata could be read.
pub fn evaluation_snapshot(drift_detection: bool, metadata: Option<crate::backend::BackendMetadata>) -> (s: Option<FileSnapshot>)
    ensures
        s is Some <==> drift_detection && metadata is Some,
        s matches Some(x) ==> (metadata matches Some(m) && x.len == m.size_bytes && x.modified_unix_millis
            == m.modified_unix_millis && x.readonly == m.readonly && x.permissions_display@ == m.permissions_display@
            && opt_view(x.stable_token) == opt_view(m.stable_token) && x.device_id == m.device_id && x.inode == m.inode),
{
    if !drift_detection {
        return None;
    }
    match metadata {
        Some(m) => Some(FileSnapshot::from_backend_metadata(&m)),
        None => None,
    }
}

/// `n` capped at `u64::MAX`.
pub open spec fn cap_u64(n: int) -> int {
    if n <= u64::MAX {
        n
    } else {
        u64::MAX as int
    }
}

} // verus!

verus! {

/// The ranges of a matched file have rows that can be counted from one.
pub open spec fn ranges_countable(raw: RawSearchItem) -> bool {
    forall|i: int|
        0 <= i < raw.ranges@.len() ==> (#[trigger] raw.ranges@[i]).start_point.row < usize::MAX
            && raw.ranges@[i].end_point.row < usize::MAX
}

/// Matched files handed out one at a time, each loaded through the backend
/// as it is taken, with the statistics and diagnostics of the search that
/// found them.
#[derive(Debug)]
pub struct SearchResultIterator<B> {
    backend: B,
    items: Vec<RawSearchItem>,
    stats: SearchStats,
    diagnostics: Vec<SearchDiagnostic>,
}

impl<B: crate::backend::SearchBackend> SearchResultIterator<B> {
    /// The matched files still to hand out, in order.
    pub closed spec fn queued(&self) -> Seq<RawSearchItem> {
        self.items@
    }

    /// The statistics of the search that found the files.
    pub closed spec fn recorded_stats(&self) -> SearchStats {
        self.stats
    }

    /// The diagnostics of the search that found the files.
    pub closed spec fn recorded_diagnostics(&self) -> Seq<SearchDiagnostic> {
        self.diagnostics@
    }

    /// Every queued file has countable ranges.
    pub closed spec fn well_formed(&self) -> bool {
        forall|i: int| 0 <= i < self.items@.len() ==> ranges_countable(#[trigger] self.items@[i])
    }

    /// An iterator over the given matched files.
    pub fn new(backend: B, results: Vec<RawSearchItem>, stats: SearchStats, diagnostics: Vec<SearchDiagnostic>) -> (it: Self)
        requires
            forall|i: int| 0 <= i < results@.len() ==> ranges_countable(#[trigger] results@[i]),
        ensures
            it.queued() == results@,
            it.recorded_stats() == stats,
            it.recorded_diagnostics() == diagnostics@,
            it.well_formed(),
    {
        SearchResultIterator { backend, items: results, stats, diagnostics }
    }

    /// The number of files still to hand out.
    pub fn remaining(&self) -> (n: usize)
        ensures
            n == self.queued().len(),
    {
        self.items.len()
    }

    /// Exactly the remaining number of items is still to come.
    pub fn size_hint(&self) -> (r: (usize, Option<usize>))
        ensures
            r.0 == self.queued().len(),
            r.1 == Some(self.queued().len() as usize),
    {
        let n = self.items.len();
        (n, Some(n))
    }

    /// The statistics of the search.
    pub fn stats(&self) -> (s: &SearchStats)
        ensures
            *s == self.recorded_stats(),
    {
        &self.stats
    }

    /// The diagnostics of the search.
    pub fn diagnostics(&self) -> (d: &[SearchDiagnostic])
        ensures
            d@ == self.recorded_diagnostics(),
    {
        self.diagnostics.as_slice()
    }

    /// A buffered iterator is never cancelled.
    pub fn was_cancelled(&self) -> (b: bool)
        ensures
            !b,
    {
        false
    }

    /// Takes the next matched file and loads it.
    pub fn next_result(&mut self) -> (r: Option<Result<SearchResult, crate::model::SearchMaterializationError>>)
        requires
            old(self).well_formed(),
        ensures
            final(self).well_formed(),
            final(self).recorded_stats() == old(self).recorded_stats(),
            final(self).recorded_diagnostics() == old(self).recorded_diagnostics(),
            old(self).queued().len() == 0 ==> r is None && final(self).queued() == old(self).queued(),
            old(self).queued().len() > 0 ==> {
                &&& final(self).queued() == old(self).queued().drop_first()
                &&& r is Some
                &&& (r matches Some(Ok(res)) ==> materialization_holds(res, old(self).queued()[0]))
                &&& (r matches Some(Err(e)) ==> e.path@ == old(self).queued()[0].display_path@)
            },
    {
        if self.items.len() == 0 {
            return None;
        }
        let raw = self.items.remove(0);
        assert(self.items@ =~= old(self).items@.drop_first());
        assert(forall|i: int| 0 <= i < self.items@.len() ==> self.items@[i] == old(self).items@[i + 1]);
        Some(materialize_raw_search_item(&self.backend, raw))
    }
}

/// Matched paths handed out one at a time, with the statistics and
/// diagnostics of the search that found them.
#[derive(Debug)]
pub struct SearchPathIterator {
    paths: Vec<String>,
    stats: SearchStats,
    diagnostics: Vec<SearchDiagnostic>,
}

impl SearchPathIterator {
    /// The paths still to hand out, in order.
    pub closed spec fn queued(&self) -> Seq<String> {
        self.paths@
    }

    /// The statistics of the search that found the paths.
    pub closed spec fn recorded_stats(&self) -> SearchStats {
        self.stats
    }

    /// The diagnostics of the search that found the paths.
    pub closed spec fn recorded_diagnostics(&self) -> Seq<SearchDiagnostic> {
        self.diagnostics@
    }

    /// An iterator over the given paths.
    pub fn new(paths: Vec<String>, stats: SearchStats, diagnostics: Vec<SearchDiagnostic>) -> (it: Self)
        ensures
            it.queued() == paths@,
            it.recorded_stats() == stats,
            it.recorded_diagnostics() == diagnostics@,
    {
        SearchPathIterator { paths, stats, diagnostics }
    }

    /// The number of paths still to hand out.
    pub fn remaining(&self) -> (n: usize)
        ensures
            n == self.queued().len(),
    {
        self.paths.len()
    }

    /// Exactly the remaining number of paths is still to come.
    pub fn size_hint(&self) -> (r: (usize, Option<usize>))
        ensures
            r.0 == self.queued().len(),
            r.1 == Some(self.queued().len() as usize),
    {
        let n = self.paths.len();
        (n, Some(n))
    }

    /// The statistics of the search.
    pub fn stats(&self) -> (s: &SearchStats)
        ensures
            *s == self.recorded_stats(),
    {
        &self.stats
    }

    /// The diagnostics of the search.
    pub fn diagnostics(&self) -> (d: &[SearchDiagnostic])
        ensures
            d@ == self.recorded_diagnostics(),
    {
        self.diagnostics.as_slice()
    }

    /// A buffered iterator is never cancelled.
    pub fn was_cancelled(&self) -> (b: bool)
        ensures
            !b,
    {
        false
    }

    /// Takes the next path.
    pub fn next_path(&mut self) -> (r: Option<Result<String, String>>)
        ensures
            final(self).recorded_stats() == old(self).recorded_stats(),
            final(self).recorded_diagnostics() == old(self).recorded_diagnostics(),
            old(self).queued().len() == 0 ==> r is None && final(self).queued() == old(self).queued(),
            old(self).queued().len() > 0 ==> final(self).queued() == old(self).queued().drop_first() && r == Some(
                Ok::<String, String>(old(self).queued()[0]),
            ),
    {
        if self.paths.len() == 0 {
            return None;
        }
        let p = self.paths.remove(0);
        assert(self.paths@ =~= old(self).paths@.drop_first());
        Some(Ok(p))
    }
}

} // verus!

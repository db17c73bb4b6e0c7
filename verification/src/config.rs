//! Configuration: presets, their normalization, layered merging, and
//! resolution of preset references into queries.

use crate::content::opt_view;
use crate::text::{owned, push_str, seq_lt, string_from_chars, views};
use vstd::prelude::*;

verus! {

/// Version of the configuration schema this library reads and writes.
pub const CONFIG_SCHEMA_VERSION: u32 = 1;

/// The schema version assumed when a file omits it.
pub fn default_config_schema_version() -> (v: u32)
    ensures
        v == CONFIG_SCHEMA_VERSION,
{
    CONFIG_SCHEMA_VERSION
}

/// Which configuration layer a value comes from.
#[derive(Debug, Clone, Copy, PartialEq, Eq, Structural)]
pub enum ConfigScope {
    Global,
    Local,
}

/// Where a configuration layer was read from.
#[derive(Debug, Clone, PartialEq, Eq)]
pub struct ConfigSource {
    pub scope: ConfigScope,
    pub path: String,
}

/// Copies a configuration source.
pub fn clone_source(s: &ConfigSource) -> (r: ConfigSource)
    ensures
        r == *s,
{
    ConfigSource { scope: s.scope, path: s.path.clone() }
}

/// A warning about a configuration layer.
#[derive(Debug, Clone, PartialEq, Eq)]
pub struct ConfigDiagnostic {
    pub code: String,
    pub message: String,
    pub path: Option<String>,
}

impl ConfigDiagnostic {
    /// A warning with a code, a message and an optional path.
    pub fn warning(code: String, message: String, path: Option<String>) -> (d: Self)
        ensures
            d == (ConfigDiagnostic { code, message, path }),
    {
        ConfigDiagnostic { code, message, path }
    }
}

// ---------------------------------------------------------------------------
// Sorted, deduplicated string lists
// ---------------------------------------------------------------------------

/// `x` inserted into a sorted list, unless it is already there.
pub open spec fn insert_unique(s: Seq<Seq<char>>, x: Seq<char>) -> Seq<Seq<char>>
    decreases s.len(),
{
    if s.len() == 0 {
        seq![x]
    } else if s[0] == x {
        s
    } else if seq_lt(x, s[0]) {
        seq![x] + s
    } else {
        seq![s[0]] + insert_unique(s.drop_first(), x)
    }
}

/// The sorted list of the distinct items of `v`.
pub open spec fn sort_unique(v: Seq<Seq<char>>) -> Seq<Seq<char>>
    decreases v.len(),
{
    if v.len() == 0 {
        Seq::empty()
    } else {
        insert_unique(sort_unique(v.drop_last()), v.last())
    }
}

/// Strictly increasing in `str` order.
pub open spec fn strictly_sorted(s: Seq<Seq<char>>) -> bool {
    forall|i: int, j: int| 0 <= i < j < s.len() ==> seq_lt(#[trigger] s[i], #[trigger] s[j])
}

/// Inserting skips the prefix of smaller items.
proof fn lemma_insert_unique_skip(s: Seq<Seq<char>>, x: Seq<char>, k: int)
    requires
        0 <= k <= s.len(),
        forall|j: int| 0 <= j < k ==> seq_lt(#[trigger] s[j], x),
    ensures
        insert_unique(s, x) == s.take(k) + insert_unique(s.skip(k), x),
    decreases k,
{
    if k == 0 {
        assert(s.skip(0) =~= s);
        assert(s.take(0) + insert_unique(s, x) =~= insert_unique(s, x));
    } else {
        crate::text::lemma_seq_lt_asym(s[0], x);
        assert(s[0] != x);
        assert(!seq_lt(x, s[0]));
        lemma_insert_unique_skip(s.drop_first(), x, k - 1);
        assert(s.drop_first().skip(k - 1) =~= s.skip(k));
        assert(seq![s[0]] + s.drop_first().take(k - 1) =~= s.take(k));
        assert(seq![s[0]] + (s.drop_first().take(k - 1) + insert_unique(s.skip(k), x)) =~= s.take(k)
            + insert_unique(s.skip(k), x));
    }
}

/// Insertion keeps a list strictly sorted and adds exactly `x`.
pub proof fn lemma_insert_unique_sorted(s: Seq<Seq<char>>, x: Seq<char>)
    requires
        strictly_sorted(s),
    ensures
        strictly_sorted(insert_unique(s, x)),
        forall|y: Seq<char>|
            #![trigger insert_unique(s, x).contains(y)]
            #![trigger s.contains(y)]
            insert_unique(s, x).contains(y) <==> (s.contains(y) || y == x),
    decreases s.len(),
{
    let r = insert_unique(s, x);
    if s.len() == 0 {
        assert(r =~= seq![x]);
        assert forall|y: Seq<char>| r.contains(y) <==> (s.contains(y) || y == x) by {
            if r.contains(y) {
                assert(r[0] == y);
            }
            if y == x {
                assert(r[0] == y);
            }
        }
    } else if s[0] == x {
    } else if seq_lt(x, s[0]) {
        assert forall|i: int, j: int| 0 <= i < j < r.len() implies seq_lt(#[trigger] r[i], #[trigger] r[j]) by {
            if i == 0 {
                if j > 1 {
                    crate::text::lemma_seq_lt_trans(x, s[0], s[j - 1]);
                }
            } else {
                assert(r[i] == s[i - 1] && r[j] == s[j - 1]);
            }
        }
        assert forall|y: Seq<char>| r.contains(y) <==> (s.contains(y) || y == x) by {
            if r.contains(y) {
                let k = choose|k: int| 0 <= k < r.len() && r[k] == y;
                if k > 0 {
                    assert(s[k - 1] == y);
                }
            }
            if s.contains(y) {
                let k = choose|k: int| 0 <= k < s.len() && s[k] == y;
                assert(r[k + 1] == y);
            }
            if y == x {
                assert(r[0] == y);
            }
        }
    } else {
        let t = s.drop_first();
        assert(strictly_sorted(t)) by {
            assert forall|i: int, j: int| 0 <= i < j < t.len() implies seq_lt(#[trigger] t[i], #[trigger] t[j]) by {
                assert(t[i] == s[i + 1] && t[j] == s[j + 1]);
            }
        }
        lemma_insert_unique_sorted(t, x);
        let rt = insert_unique(t, x);
        crate::text::lemma_seq_lt_total(x, s[0]);
        assert(seq_lt(s[0], x));
        assert forall|k: int| 0 <= k < rt.len() implies seq_lt(s[0], #[trigger] rt[k]) by {
            assert(rt.contains(rt[k]));
            if rt[k] == x {
            } else {
                assert(t.contains(rt[k]));
                let m = choose|m: int| 0 <= m < t.len() && t[m] == rt[k];
                assert(s[m + 1] == rt[k]);
            }
        }
        assert forall|i: int, j: int| 0 <= i < j < r.len() implies seq_lt(#[trigger] r[i], #[trigger] r[j]) by {
            if i == 0 {
                assert(r[j] == rt[j - 1]);
            } else {
                assert(r[i] == rt[i - 1] && r[j] == rt[j - 1]);
            }
        }
        assert forall|y: Seq<char>| r.contains(y) <==> (s.contains(y) || y == x) by {
            if r.contains(y) {
                let k = choose|k: int| 0 <= k < r.len() && r[k] == y;
                if k > 0 {
                    assert(r[k] == rt[k - 1]);
                    assert(rt.contains(y));
                    assert(t.contains(y) || y == x);
                    if y != x {
                        let m = choose|m: int| 0 <= m < t.len() && t[m] == y;
                        assert(s[m + 1] == y);
                    }
                } else {
                    assert(s[0] == y);
                }
            }
            if s.contains(y) {
                let k = choose|k: int| 0 <= k < s.len() && s[k] == y;
                if k == 0 {
                    assert(r[0] == y);
                } else {
                    assert(t[k - 1] == y);
                    assert(t.contains(y));
                    assert(rt.contains(y));
                    let m = choose|m: int| 0 <= m < rt.len() && rt[m] == y;
                    assert(r[m + 1] == y);
                }
            }
            if y == x {
                assert(rt.contains(x));
                let m = choose|m: int| 0 <= m < rt.len() && rt[m] == x;
                assert(r[m + 1] == x);
            }
        }
    }
}

/// The sorted distinct list is strictly sorted and holds exactly the items
/// of the input.
pub proof fn lemma_sort_unique(v: Seq<Seq<char>>)
    ensures
        strictly_sorted(sort_unique(v)),
        forall|y: Seq<char>|
            #![trigger sort_unique(v).contains(y)]
            #![trigger v.contains(y)]
            sort_unique(v).contains(y) <==> v.contains(y),
    decreases v.len(),
{
    if v.len() > 0 {
        lemma_sort_unique(v.drop_last());
        lemma_insert_unique_sorted(sort_unique(v.drop_last()), v.last());
        assert forall|y: Seq<char>| sort_unique(v).contains(y) <==> v.contains(y) by {
            if v.drop_last().contains(y) {
                let k = choose|k: int| 0 <= k < v.drop_last().len() && v.drop_last()[k] == y;
                assert(v[k] == y);
            }
            if v.contains(y) {
                let k = choose|k: int| 0 <= k < v.len() && v[k] == y;
                if k < v.len() - 1 {
                    assert(v.drop_last()[k] == y);
                }
            }
        }
    }
}

/// Inserts `x` into a list at its sorted place, unless already present.
fn insert_unique_exec(v: &mut Vec<String>, x: String)
    ensures
        views(final(v)@) == insert_unique(views(old(v)@), x@),
{
    let ghost s = views(v@);
    let mut k: usize = 0;
    while k < v.len() && crate::text::str_less(v[k].as_str(), x.as_str())
        invariant
            k <= v.len(),
            s == views(v@),
            forall|j: int| 0 <= j < k ==> seq_lt(#[trigger] s[j], x@),
        decreases v.len() - k,
    {
        k = k + 1;
    }
    proof {
        lemma_insert_unique_skip(s, x@, k as int);
    }
    if k < v.len() && crate::text::str_eq(v[k].as_str(), x.as_str()) {
        proof {
            assert(s.skip(k as int)[0] == x@);
            assert(s.take(k as int) + s.skip(k as int) =~= s);
        }
        return;
    }
    proof {
        if k < v.len() {
            crate::text::lemma_seq_lt_total(x@, s[k as int]);
            assert(s.skip(k as int)[0] == s[k as int]);
        } else {
            assert(s.skip(k as int) =~= Seq::<Seq<char>>::empty());
        }
    }
    let ghost xv = x@;
    v.insert(k, x);
    proof {
        assert(views(v@) =~= s.take(k as int) + (seq![xv] + s.skip(k as int)));
    }
}

/// The distinct items of `v`, sorted.
pub fn sort_dedup(v: &Vec<String>) -> (r: Vec<String>)
    ensures
        views(r@) == sort_unique(views(v@)),
{
    let mut r: Vec<String> = Vec::new();
    let mut i: usize = 0;
    while i < v.len()
        invariant
            i <= v.len(),
            views(r@) == sort_unique(views(v@).take(i as int)),
        decreases v.len() - i,
    {
        proof {
            assert(views(v@).take(i + 1).drop_last() =~= views(v@).take(i as int));
            assert(views(v@).take(i + 1).last() == v@[i as int]@);
        }
        insert_unique_exec(&mut r, v[i].clone());
        i = i + 1;
    }
    assert(views(v@).take(i as int) =~= views(v@));
    r
}

// ---------------------------------------------------------------------------
// Presets
// ---------------------------------------------------------------------------

/// A preset: an optional query, documentation, and other presets it
/// includes.
#[derive(Debug, Clone, PartialEq, Eq)]
pub struct PresetSpec {
    pub query: Option<String>,
    pub description: Option<String>,
    pub tags: Vec<String>,
    pub examples: Vec<String>,
    pub includes: Vec<String>,
}

impl Default for PresetSpec {
    fn default() -> (s: Self)
        ensures
            s.query is None,
            s.description is None,
            s.tags@.len() == 0,
            s.examples@.len() == 0,
            s.includes@.len() == 0,
    {
        PresetSpec { query: None, description: None, tags: Vec::new(), examples: Vec::new(), includes: Vec::new() }
    }
}

/// A text holds something besides whitespace.
pub open spec fn non_blank(s: Seq<char>) -> bool {
    crate::text::trim_spec(s).len() > 0
}

/// Sorting and deduplicating a list that is already strictly sorted
/// leaves it as it is.
pub proof fn lemma_sort_unique_sorted(s: Seq<Seq<char>>)
    requires
        strictly_sorted(s),
    ensures
        sort_unique(s) == s,
    decreases s.len(),
{
    if s.len() > 0 {
        let t = s.drop_last();
        assert(strictly_sorted(t));
        lemma_sort_unique_sorted(t);
        assert forall|j: int| 0 <= j < t.len() implies seq_lt(#[trigger] t[j], s.last()) by {
            assert(seq_lt(s[j], s[s.len() - 1]));
        }
        lemma_insert_unique_skip(t, s.last(), t.len() as int);
        assert(t.take(t.len() as int) =~= t);
        assert(t.skip(t.len() as int) =~= Seq::<Seq<char>>::empty());
        assert(t + seq![s.last()] =~= s);
    }
}

/// Sorting and deduplicating twice gives what sorting and deduplicating
/// once gives.
pub proof fn lemma_sort_unique_idempotent(v: Seq<Seq<char>>)
    ensures
        sort_unique(sort_unique(v)) == sort_unique(v),
{
    lemma_sort_unique(v);
    lemma_sort_unique_sorted(sort_unique(v));
}

/// Normalizing a preset twice gives what normalizing it once gives: the
/// query and description are kept, and the tags, examples and includes,
/// once sorted and deduplicated, stay so.
pub proof fn lemma_preset_normalization_idempotent(p: PresetSpec, once: PresetSpec, twice: PresetSpec)
    requires
        once.query == p.query,
        once.description == p.description,
        views(once.tags@) == sort_unique(views(p.tags@)),
        views(once.examples@) == sort_unique(views(p.examples@)),
        views(once.includes@) == sort_unique(views(p.includes@)),
        twice.query == once.query,
        twice.description == once.description,
        views(twice.tags@) == sort_unique(views(once.tags@)),
        views(twice.examples@) == sort_unique(views(once.examples@)),
        views(twice.includes@) == sort_unique(views(once.includes@)),
    ensures
        twice.query == once.query,
        twice.description == once.description,
        views(twice.tags@) == views(once.tags@),
        views(twice.examples@) == views(once.examples@),
        views(twice.includes@) == views(once.includes@),
{
    lemma_sort_unique_idempotent(views(p.tags@));
    lemma_sort_unique_idempotent(views(p.examples@));
    lemma_sort_unique_idempotent(views(p.includes@));
}

impl PresetSpec {
    /// The preset with its tags, examples and includes sorted and
    /// deduplicated.
    pub fn normalized(self) -> (s: Self)
        ensures
            s.query == self.query,
            s.description == self.description,
            views(s.tags@) == sort_unique(views(self.tags@)),
            views(s.examples@) == sort_unique(views(self.examples@)),
            views(s.includes@) == sort_unique(views(self.includes@)),
    {
        let tags = sort_dedup(&self.tags);
        let examples = sort_dedup(&self.examples);
        let includes = sort_dedup(&self.includes);
        PresetSpec { query: self.query, description: self.description, tags, examples, includes }
    }

    /// True when the preset has a non-blank query or includes another
    /// preset.
    pub fn has_query_or_includes(&self) -> (b: bool)
        ensures
            b == ((self.query matches Some(q) && non_blank(q@)) || self.includes@.len() > 0),
    {
        let has_query = match &self.query {
            Some(q) => {
                let t = crate::text::trim_str(q.as_str());
                !t.as_str().is_empty()
            },
            None => false,
        };
        has_query || self.includes.len() > 0
    }
}

/// A preset as written in a configuration file: a bare query, or a
/// detailed specification.
#[derive(Debug, Clone, PartialEq, Eq)]
pub enum PresetDefinition {
    Query(String),
    Detailed(PresetSpec),
}

impl Default for PresetDefinition {
    fn default() -> (d: Self)
        ensures
            d matches PresetDefinition::Detailed(s) && s.query is None && s.description is None && s.tags@.len() == 0
                && s.examples@.len() == 0 && s.includes@.len() == 0,
    {
        PresetDefinition::Detailed(PresetSpec::default())
    }
}

/// The normalized specification of a definition, by view.
pub open spec fn definition_spec_view(d: PresetDefinition) -> (
    Option<Seq<char>>,
    Option<Seq<char>>,
    Seq<Seq<char>>,
    Seq<Seq<char>>,
    Seq<Seq<char>>,
) {
    match d {
        PresetDefinition::Query(q) => (Some(q@), None, Seq::empty(), Seq::empty(), Seq::empty()),
        PresetDefinition::Detailed(s) => (
            opt_view(s.query),
            opt_view(s.description),
            sort_unique(views(s.tags@)),
            sort_unique(views(s.examples@)),
            sort_unique(views(s.includes@)),
        ),
    }
}

/// The view of a preset specification.
pub open spec fn spec_view(s: PresetSpec) -> (
    Option<Seq<char>>,
    Option<Seq<char>>,
    Seq<Seq<char>>,
    Seq<Seq<char>>,
    Seq<Seq<char>>,
) {
    (opt_view(s.query), opt_view(s.description), views(s.tags@), views(s.examples@), views(s.includes@))
}

/// Copies a list of strings.
fn clone_strings(v: &Vec<String>) -> (r: Vec<String>)
    ensures
        views(r@) == views(v@),
{
    crate::request::clone_strings(v)
}

impl PresetDefinition {
    /// The normalized specification of this definition; a bare query is a
    /// specification with only that query.
    pub fn as_spec(&self) -> (s: PresetSpec)
        ensures
            spec_view(s) == definition_spec_view(*self),
    {
        let spec = match self {
            PresetDefinition::Query(q) => PresetSpec {
                query: Some(q.clone()),
                description: None,
                tags: Vec::new(),
                examples: Vec::new(),
                includes: Vec::new(),
            },
            PresetDefinition::Detailed(s) => PresetSpec {
                query: crate::content::clone_opt(&s.query),
                description: crate::content::clone_opt(&s.description),
                tags: clone_strings(&s.tags),
                examples: clone_strings(&s.examples),
                includes: clone_strings(&s.includes),
            },
        };
        let r = spec.normalized();
        proof {
            assert(sort_unique(Seq::<Seq<char>>::empty()) =~= Seq::<Seq<char>>::empty());
        }
        r
    }
}


// ---------------------------------------------------------------------------
// Preset resolution
// ---------------------------------------------------------------------------

/// A preset definition with the layer it comes from.
#[derive(Debug, Clone)]
pub struct LayeredPresetDefinition {
    pub name: String,
    pub definition: PresetDefinition,
    pub source: ConfigSource,
}

/// One query clause a resolved preset draws from a preset.
#[derive(Debug, Clone, PartialEq, Eq)]
pub struct PresetContribution {
    pub preset: String,
    pub clause: String,
    pub source: Option<ConfigSource>,
    pub description: Option<String>,
    pub tags: Vec<String>,
    pub examples: Vec<String>,
}

/// A preset with its includes expanded into one query.
#[derive(Debug, Clone, PartialEq, Eq)]
pub struct ResolvedPreset {
    pub name: String,
    pub query: String,
    pub description: Option<String>,
    pub tags: Vec<String>,
    pub examples: Vec<String>,
    pub includes: Vec<String>,
    pub source: Option<ConfigSource>,
    pub contributions: Vec<PresetContribution>,
}

/// Why a preset could not be resolved: the messages from the outermost
/// context to the root cause.
#[derive(Debug, Clone, PartialEq, Eq)]
pub struct PresetError {
    pub chain: Vec<String>,
}

impl PresetError {
    /// The outermost message of the error.
    pub fn to_message(&self) -> (s: String)
        ensures
            self.chain@.len() > 0 ==> s@ == self.chain@[0]@,
            self.chain@.len() == 0 ==> s@ == Seq::<char>::empty(),
    {
        if self.chain.len() > 0 {
            self.chain[0].clone()
        } else {
            String::new()
        }
    }
}

/// Preset names are distinct.
pub open spec fn presets_distinct(p: Seq<LayeredPresetDefinition>) -> bool {
    forall|i: int, j: int| 0 <= i < j < p.len() ==> #[trigger] p[i].name@ != #[trigger] p[j].name@
}

/// The index of the preset called `name`, or -1.
pub open spec fn preset_index(p: Seq<LayeredPresetDefinition>, name: Seq<char>) -> int {
    if exists|i: int| 0 <= i < p.len() && #[trigger] p[i].name@ == name {
        choose|i: int| 0 <= i < p.len() && #[trigger] p[i].name@ == name
    } else {
        -1
    }
}

/// The parse error of a query, from known invalid queries.
pub open spec fn query_error(invalid: Seq<(Seq<char>, Seq<char>)>, q: Seq<char>) -> Option<Seq<char>>
    decreases invalid.len(),
{
    if invalid.len() == 0 {
        None
    } else if invalid[0].0 == q {
        Some(invalid[0].1)
    } else {
        query_error(invalid.drop_first(), q)
    }
}

/// The views of (query, error) pairs.
pub open spec fn invalid_view(v: Seq<(String, String)>) -> Seq<(Seq<char>, Seq<char>)> {
    v.map_values(|p: (String, String)| (p.0@, p.1@))
}

/// Message of a missing preset.
pub open spec fn not_found_message(name: Seq<char>) -> Seq<char> {
    "Preset '"@ + name + "' not found"@
}

/// Message of a reference cycle: the presets being resolved, sorted, then
/// the one that closes the cycle.
pub open spec fn cycle_message(visiting: Seq<Seq<char>>, name: Seq<char>) -> Seq<char> {
    "Preset reference cycle detected: "@ + crate::text::join_spec(sort_unique(visiting), " -> "@) + " -> "@ + name
}

/// Message of a preset with neither query nor includes.
pub open spec fn empty_preset_message(name: Seq<char>) -> Seq<char> {
    "Preset '"@ + name + "' must define a query or include at least one other preset"@
}

/// Context of an invalid preset query.
pub open spec fn invalid_query_message(name: Seq<char>) -> Seq<char> {
    "Preset '"@ + name + "' has an invalid query"@
}

/// Context of a failed inclusion.
pub open spec fn include_message(parent: Seq<char>, child: Seq<char>) -> Seq<char> {
    "Preset '"@ + parent + "' references unknown or invalid preset '"@ + child + "'"@
}

/// Message when the nesting exceeds the number of presets (never reached
/// from [`resolve_top_spec`]).
pub open spec fn depth_message(name: Seq<char>) -> Seq<char> {
    "Preset '"@ + name + "' is nested too deeply"@
}

/// A parenthesized clause.
pub open spec fn paren(q: Seq<char>) -> Seq<char> {
    "("@ + q + ")"@
}

/// The resolution of one preset: its query and contributions (preset name,
/// clause), or an error chain.
pub open spec fn resolve_spec(
    p: Seq<LayeredPresetDefinition>,
    invalid: Seq<(Seq<char>, Seq<char>)>,
    name: Seq<char>,
    visiting: Seq<Seq<char>>,
    fuel: nat,
) -> Result<(Seq<char>, Seq<(Seq<char>, Seq<char>)>), Seq<Seq<char>>>
    decreases fuel, 0nat, 0nat,
{
    if fuel == 0 {
        Err(seq![depth_message(name)])
    } else if preset_index(p, name) < 0 {
        Err(seq![not_found_message(name)])
    } else if visiting.contains(name) {
        Err(seq![cycle_message(visiting, name)])
    } else {
        let dv = definition_spec_view(p[preset_index(p, name)].definition);
        let has_query = dv.0 matches Some(q) && non_blank(q);
        if !has_query && dv.4.len() == 0 {
            Err(seq![empty_preset_message(name)])
        } else {
            match resolve_includes(p, invalid, name, dv.4, visiting.push(name), (fuel - 1) as nat) {
                Err(c) => Err(c),
                Ok((clauses, contribs)) => if has_query {
                    let q = dv.0->0;
                    match query_error(invalid, q) {
                        Some(msg) => Err(seq![invalid_query_message(name), msg]),
                        None => Ok(
                            (
                                crate::text::join_spec(clauses.push(paren(q)), " & "@),
                                contribs.push((name, q)),
                            ),
                        ),
                    }
                } else {
                    Ok((crate::text::join_spec(clauses, " & "@), contribs))
                },
            }
        }
    }
}

/// The resolution of the includes of `parent`, in order: their clauses and
/// contributions, or the first error under the include's context.
pub open spec fn resolve_includes(
    p: Seq<LayeredPresetDefinition>,
    invalid: Seq<(Seq<char>, Seq<char>)>,
    parent: Seq<char>,
    includes: Seq<Seq<char>>,
    visiting: Seq<Seq<char>>,
    fuel: nat,
) -> Result<(Seq<Seq<char>>, Seq<(Seq<char>, Seq<char>)>), Seq<Seq<char>>>
    decreases fuel, 1nat, includes.len(),
{
    if includes.len() == 0 {
        Ok((Seq::empty(), Seq::empty()))
    } else {
        match resolve_includes(p, invalid, parent, includes.drop_last(), visiting, fuel) {
            Err(c) => Err(c),
            Ok((clauses, contribs)) => match resolve_spec(p, invalid, includes.last(), visiting, fuel) {
                Err(c) => Err(seq![include_message(parent, includes.last())] + c),
                Ok((q, more)) => Ok((clauses.push(paren(q)), contribs + more)),
            },
        }
    }
}

/// Resolved includes give one clause per include, in order: the include's
/// own resolved query in parentheses.
proof fn lemma_include_clauses(
    p: Seq<LayeredPresetDefinition>,
    invalid: Seq<(Seq<char>, Seq<char>)>,
    parent: Seq<char>,
    includes: Seq<Seq<char>>,
    visiting: Seq<Seq<char>>,
    fuel: nat,
)
    requires
        resolve_includes(p, invalid, parent, includes, visiting, fuel) is Ok,
    ensures
        ({
            let clauses = resolve_includes(p, invalid, parent, includes, visiting, fuel)->Ok_0.0;
            &&& clauses.len() == includes.len()
            &&& forall|k: int|
                0 <= k < includes.len() ==> (resolve_spec(p, invalid, #[trigger] includes[k], visiting, fuel) is Ok
                    && clauses[k] == "("@ + resolve_spec(p, invalid, includes[k], visiting, fuel)->Ok_0.0 + ")"@)
        }),
    decreases includes.len(),
{
    if includes.len() > 0 {
        lemma_include_clauses(p, invalid, parent, includes.drop_last(), visiting, fuel);
        let clauses = resolve_includes(p, invalid, parent, includes, visiting, fuel)->Ok_0.0;
        let prev = resolve_includes(p, invalid, parent, includes.drop_last(), visiting, fuel)->Ok_0.0;
        assert forall|k: int|
            0 <= k < includes.len() implies (resolve_spec(p, invalid, #[trigger] includes[k], visiting, fuel) is Ok
                && clauses[k] == "("@ + resolve_spec(p, invalid, includes[k], visiting, fuel)->Ok_0.0 + ")"@) by {
            if k < includes.len() - 1 {
                assert(includes.drop_last()[k] == includes[k]);
                assert(clauses[k] == prev[k]);
            }
        }
    }
}

/// A resolved preset is the conjunction of its parts: its query is the
/// clauses joined with ` & `, one per include in order (the include's
/// resolved query in parentheses) followed, when the preset has its own
/// query, by that query in parentheses. So a file matches the preset only
/// when it matches every clause.
pub proof fn law_preset_is_conjunction(
    p: Seq<LayeredPresetDefinition>,
    invalid: Seq<(Seq<char>, Seq<char>)>,
    name: Seq<char>,
    visiting: Seq<Seq<char>>,
    fuel: nat,
)
    requires
        resolve_spec(p, invalid, name, visiting, fuel) is Ok,
    ensures
        ({
            let dv = definition_spec_view(p[preset_index(p, name)].definition);
            let own = dv.0 matches Some(q) && non_blank(q);
            let q = resolve_spec(p, invalid, name, visiting, fuel)->Ok_0.0;
            exists|clauses: Seq<Seq<char>>|
                #![trigger crate::text::join_spec(clauses, " & "@)]
                q == crate::text::join_spec(clauses, " & "@) && clauses.len() == dv.4.len() + (if own {
                    1int
                } else {
                    0int
                }) && (forall|k: int|
                    0 <= k < dv.4.len() ==> (resolve_spec(p, invalid, #[trigger] dv.4[k], visiting.push(name), (fuel - 1) as nat)
                        is Ok && clauses[k] == "("@ + resolve_spec(
                        p,
                        invalid,
                        dv.4[k],
                        visiting.push(name),
                        (fuel - 1) as nat,
                    )->Ok_0.0 + ")"@)) && (own ==> clauses.last() == "("@ + dv.0->0 + ")"@)
        }),
{
    let dv = definition_spec_view(p[preset_index(p, name)].definition);
    let own = dv.0 matches Some(q) && non_blank(q);
    let inc = resolve_includes(p, invalid, name, dv.4, visiting.push(name), (fuel - 1) as nat);
    lemma_include_clauses(p, invalid, name, dv.4, visiting.push(name), (fuel - 1) as nat);
    let clauses = inc->Ok_0.0;
    if own {
        let all = clauses.push(paren(dv.0->0));
        assert forall|k: int|
            0 <= k < dv.4.len() implies (resolve_spec(p, invalid, #[trigger] dv.4[k], visiting.push(name), (fuel - 1) as nat)
                is Ok && all[k] == "("@ + resolve_spec(p, invalid, dv.4[k], visiting.push(name), (fuel - 1) as nat)->Ok_0.0
                + ")"@) by {
            assert(all[k] == clauses[k]);
        }
        assert(crate::text::join_spec(all, " & "@) == resolve_spec(p, invalid, name, visiting, fuel)->Ok_0.0);
    } else {
        assert(crate::text::join_spec(clauses, " & "@) == resolve_spec(p, invalid, name, visiting, fuel)->Ok_0.0);
    }
}

/// The resolution of a preset from the top.
pub open spec fn resolve_top_spec(
    p: Seq<LayeredPresetDefinition>,
    invalid: Seq<(Seq<char>, Seq<char>)>,
    name: Seq<char>,
) -> Result<(Seq<char>, Seq<(Seq<char>, Seq<char>)>), Seq<Seq<char>>> {
    resolve_spec(p, invalid, name, Seq::empty(), (p.len() + 1) as nat)
}

/// A contribution carries the documentation and source of its preset.
pub open spec fn contribution_faithful(p: Seq<LayeredPresetDefinition>, c: PresetContribution) -> bool {
    let i = preset_index(p, c.preset@);
    let dv = definition_spec_view(p[i].definition);
    &&& 0 <= i < p.len()
    &&& c.source == Some(p[i].source)
    &&& opt_view(c.description) == dv.1
    &&& views(c.tags@) == dv.2
    &&& views(c.examples@) == dv.3
}

/// The (preset, clause) view of contributions.
pub open spec fn contributions_view(cs: Seq<PresetContribution>) -> Seq<(Seq<char>, Seq<char>)> {
    cs.map_values(|c: PresetContribution| (c.preset@, c.clause@))
}

/// Contributions match a resolution's view and are faithful.
pub open spec fn contributions_ok(
    p: Seq<LayeredPresetDefinition>,
    cs: Seq<PresetContribution>,
    v: Seq<(Seq<char>, Seq<char>)>,
) -> bool {
    &&& contributions_view(cs) == v
    &&& forall|k: int| 0 <= k < cs.len() ==> contribution_faithful(p, #[trigger] cs[k])
}

/// Finds the preset called `name`.
fn find_preset(presets: &Vec<LayeredPresetDefinition>, name: &str) -> (r: Option<usize>)
    requires
        presets_distinct(presets@),
    ensures
        match r {
            Some(i) => i < presets@.len() && i == preset_index(presets@, name@),
            None => preset_index(presets@, name@) == -1,
        },
{
    let mut i: usize = 0;
    while i < presets.len()
        invariant
            i <= presets.len(),
            presets_distinct(presets@),
            forall|j: int| 0 <= j < i ==> #[trigger] presets@[j].name@ != name@,
        decreases presets.len() - i,
    {
        if crate::text::str_eq(presets[i].name.as_str(), name) {
            proof {
                assert(presets@[i as int].name@ == name@);
                let c = choose|k: int| 0 <= k < presets@.len() && #[trigger] presets@[k].name@ == name@;
                if c != i {
                    if c < i {
                        assert(presets@[c].name@ != presets@[i as int].name@);
                    } else {
                        assert(presets@[i as int].name@ != presets@[c].name@);
                    }
                }
            }
            return Some(i);
        }
        i = i + 1;
    }
    None
}

/// Looks up the parse error of a query.
fn find_query_error(invalid: &Vec<(String, String)>, q: &str) -> (r: Option<String>)
    ensures
        opt_view(r) == query_error(invalid_view(invalid@), q@),
{
    let ghost iv = invalid_view(invalid@);
    let mut i: usize = 0;
    assert(iv.skip(0) =~= iv);
    while i < invalid.len()
        invariant
            i <= invalid.len(),
            iv == invalid_view(invalid@),
            query_error(iv, q@) == query_error(iv.skip(i as int), q@),
        decreases invalid.len() - i,
    {
        assert(iv.skip(i as int)[0] == (invalid@[i as int].0@, invalid@[i as int].1@));
        assert(iv.skip(i as int).drop_first() =~= iv.skip(i + 1));
        if crate::text::str_eq(invalid[i].0.as_str(), q) {
            return Some(invalid[i].1.clone());
        }
        i = i + 1;
    }
    assert(iv.skip(i as int) =~= Seq::<(Seq<char>, Seq<char>)>::empty());
    None
}

/// `a` followed by `b` and `c`.
fn cat3(a: &str, b: &str, c: &str) -> (s: String)
    ensures
        s@ == a@ + b@ + c@,
{
    let mut out: Vec<char> = Vec::new();
    push_str(&mut out, a);
    push_str(&mut out, b);
    push_str(&mut out, c);
    string_from_chars(&out)
}

/// An error with a single message.
fn single_error(message: String) -> (e: PresetError)
    ensures
        views(e.chain@) == seq![message@],
{
    let e = PresetError { chain: vec![message] };
    assert(views(e.chain@) =~= seq![e.chain@[0]@]);
    e
}

/// The cycle message for `visiting` and `name`.
fn cycle_error(visiting: &Vec<String>, name: &str) -> (e: PresetError)
    ensures
        views(e.chain@) == seq![cycle_message(views(visiting@), name@)],
{
    let sorted = sort_dedup(visiting);
    let joined = crate::text::join_strings(&sorted, " -> ");
    let mut out: Vec<char> = Vec::new();
    push_str(&mut out, "Preset reference cycle detected: ");
    push_str(&mut out, joined.as_str());
    push_str(&mut out, " -> ");
    push_str(&mut out, name);
    single_error(string_from_chars(&out))
}

/// A contribution of the preset at index `i` with a clause.
fn make_contribution(presets: &Vec<LayeredPresetDefinition>, i: usize, spec: &PresetSpec, clause: &str) -> (c:
    PresetContribution)
    requires
        i < presets@.len(),
        presets_distinct(presets@),
        spec_view(*spec) == definition_spec_view(presets@[i as int].definition),
    ensures
        c.preset@ == presets@[i as int].name@,
        c.clause@ == clause@,
        contribution_faithful(presets@, c),
{
    let c = PresetContribution {
        preset: presets[i].name.clone(),
        clause: owned(clause),
        source: Some(clone_source(&presets[i].source)),
        description: crate::content::clone_opt(&spec.description),
        tags: clone_strings(&spec.tags),
        examples: clone_strings(&spec.examples),
    };
    proof {
        let k = preset_index(presets@, presets@[i as int].name@);
        assert(presets@[i as int].name@ == presets@[i as int].name@);
        if k != i {
            if k < i {
                assert(presets@[k].name@ != presets@[i as int].name@);
            } else {
                assert(presets@[i as int].name@ != presets@[k].name@);
            }
        }
    }
    c
}

/// Whether `name` is among `v`.
fn contains_name(v: &Vec<String>, name: &str) -> (b: bool)
    ensures
        b == views(v@).contains(name@),
{
    let mut k: usize = 0;
    while k < v.len()
        invariant
            k <= v.len(),
            forall|j: int| 0 <= j < k ==> #[trigger] v@[j]@ != name@,
        decreases v.len() - k,
    {
        if crate::text::str_eq(v[k].as_str(), name) {
            assert(views(v@)[k as int] == name@);
            return true;
        }
        k = k + 1;
    }
    proof {
        if views(v@).contains(name@) {
            let j = choose|j: int| 0 <= j < views(v@).len() && views(v@)[j] == name@;
            assert(v@[j]@ == name@);
        }
    }
    false
}

/// Once the includes fail, longer prefixes fail the same way.
proof fn lemma_includes_err_persists(
    p: Seq<LayeredPresetDefinition>,
    invalid: Seq<(Seq<char>, Seq<char>)>,
    parent: Seq<char>,
    incs: Seq<Seq<char>>,
    visiting: Seq<Seq<char>>,
    fuel: nat,
    m: int,
    n: int,
)
    requires
        0 <= m <= n <= incs.len(),
        resolve_includes(p, invalid, parent, incs.take(m), visiting, fuel) is Err,
    ensures
        resolve_includes(p, invalid, parent, incs.take(n), visiting, fuel) == resolve_includes(
            p,
            invalid,
            parent,
            incs.take(m),
            visiting,
            fuel,
        ),
    decreases n - m,
{
    if n > m {
        lemma_includes_err_persists(p, invalid, parent, incs, visiting, fuel, m, n - 1);
        assert(incs.take(n).drop_last() =~= incs.take(n - 1));
    }
}

/// Resolves one preset: includes first, in sorted order, then its own
/// query; `(clause) & (clause) ...`.
fn resolve_preset_rec(
    presets: &Vec<LayeredPresetDefinition>,
    invalid: &Vec<(String, String)>,
    name: &str,
    visiting: &mut Vec<String>,
    fuel: usize,
) -> (r: Result<(String, Vec<PresetContribution>), PresetError>)
    requires
        presets_distinct(presets@),
    ensures
        views(final(visiting)@) == views(old(visiting)@),
        match resolve_spec(presets@, invalid_view(invalid@), name@, views(old(visiting)@), fuel as nat) {
            Ok((q, cs)) => r matches Ok((rq, rcs)) && rq@ == q && contributions_ok(presets@, rcs@, cs),
            Err(chain) => r matches Err(e) && views(e.chain@) == chain,
        },
    decreases fuel, 0nat, 0nat,
{
    if fuel == 0 {
        return Err(single_error(cat3("Preset '", name, "' is nested too deeply")));
    }
    let idx = match find_preset(presets, name) {
        Some(i) => i,
        None => {
            return Err(single_error(cat3("Preset '", name, "' not found")));
        },
    };
    if contains_name(visiting, name) {
        return Err(cycle_error(visiting, name));
    }
    let spec = presets[idx].definition.as_spec();
    if !spec.has_query_or_includes() {
        return Err(single_error(cat3("Preset '", name, "' must define a query or include at least one other preset")));
    }
    let ghost vis0 = views(visiting@);
    visiting.push(owned(name));
    proof {
        crate::text::lemma_views_push(old(visiting)@, visiting@.last());
    }
    let inc = resolve_includes_rec(presets, invalid, name, &spec.includes, visiting, fuel - 1);
    let ghost pushed = visiting@;
    visiting.pop();
    proof {
        assert(views(visiting@) =~= views(pushed).drop_last());
        assert(views(visiting@) =~= vis0);
    }
    let (clauses, mut contribs) = match inc {
        Ok(v) => v,
        Err(e) => {
            return Err(e);
        },
    };
    let has_query = match &spec.query {
        Some(q) => !crate::text::trim_str(q.as_str()).as_str().is_empty(),
        None => false,
    };
    let mut clauses = clauses;
    if has_query {
        let q = match &spec.query {
            Some(q) => q.clone(),
            None => String::new(),
        };
        match find_query_error(invalid, q.as_str()) {
            Some(msg) => {
                let e = PresetError { chain: vec![cat3("Preset '", name, "' has an invalid query"), msg] };
                assert(views(e.chain@) =~= seq![invalid_query_message(name@), e.chain@[1]@]);
                return Err(e);
            },
            None => {},
        }
        let ghost cl0 = clauses@;
        clauses.push(cat3("(", q.as_str(), ")"));
        proof {
            crate::text::lemma_views_push(cl0, clauses@.last());
        }
        let c = make_contribution(presets, idx, &spec, q.as_str());
        let ghost co0 = contribs@;
        contribs.push(c);
        proof {
            assert(contributions_view(contribs@) =~= contributions_view(co0).push((c.preset@, c.clause@)));
        }
    }
    let query = crate::text::join_strings(&clauses, " & ");
    Ok((query, contribs))
}

/// Resolves the includes of `parent` in order.
fn resolve_includes_rec(
    presets: &Vec<LayeredPresetDefinition>,
    invalid: &Vec<(String, String)>,
    parent: &str,
    includes: &Vec<String>,
    visiting: &mut Vec<String>,
    fuel: usize,
) -> (r: Result<(Vec<String>, Vec<PresetContribution>), PresetError>)
    requires
        presets_distinct(presets@),
    ensures
        views(final(visiting)@) == views(old(visiting)@),
        match resolve_includes(presets@, invalid_view(invalid@), parent@, views(includes@), views(old(visiting)@), fuel as nat) {
            Ok((cl, cs)) => r matches Ok((rcl, rcs)) && views(rcl@) == cl && contributions_ok(presets@, rcs@, cs),
            Err(chain) => r matches Err(e) && views(e.chain@) == chain,
        },
    decreases fuel, 1nat, includes@.len(),
{
    let mut clauses: Vec<String> = Vec::new();
    let mut contribs: Vec<PresetContribution> = Vec::new();
    let mut i: usize = 0;
    let ghost vis = views(visiting@);
    let ghost incs = views(includes@);
    assert(incs.take(0) =~= Seq::<Seq<char>>::empty());
    assert(views(clauses@) =~= Seq::<Seq<char>>::empty());
    assert(contributions_view(contribs@) =~= Seq::<(Seq<char>, Seq<char>)>::empty());
    while i < includes.len()
        invariant
            i <= includes.len(),
            presets_distinct(presets@),
            incs == views(includes@),
            views(visiting@) == vis,
            vis == views(old(visiting)@),
            resolve_includes(presets@, invalid_view(invalid@), parent@, incs.take(i as int), vis, fuel as nat) matches Ok(
                (cl, cs),
            ) && views(clauses@) == cl && contributions_ok(presets@, contribs@, cs),
        decreases includes.len() - i,
    {
        proof {
            assert(incs.take(i + 1).drop_last() =~= incs.take(i as int));
            assert(incs.take(i + 1).last() == includes@[i as int]@);
        }
        let child = resolve_preset_rec(presets, invalid, includes[i].as_str(), visiting, fuel);
        match child {
            Err(e) => {
                let mut chain: Vec<String> = Vec::new();
                chain.push(cat3("Preset '", parent, "' references unknown or invalid preset '"));
                let first = cat3(chain[0].as_str(), includes[i].as_str(), "'");
                let mut chain2: Vec<String> = vec![first];
                let mut rest = e.chain;
                let ghost restv = views(rest@);
                chain2.append(&mut rest);
                proof {
                    assert(views(chain2@) =~= seq![include_message(parent@, includes@[i as int]@)] + restv);
                    lemma_includes_err_persists(
                        presets@,
                        invalid_view(invalid@),
                        parent@,
                        incs,
                        vis,
                        fuel as nat,
                        i + 1,
                        incs.len() as int,
                    );
                    assert(incs.take(incs.len() as int) =~= incs);
                }
                return Err(PresetError { chain: chain2 });
            },
            Ok((q, more)) => {
                let ghost cl0 = clauses@;
                clauses.push(cat3("(", q.as_str(), ")"));
                proof {
                    crate::text::lemma_views_push(cl0, clauses@.last());
                }
                let ghost co0 = contribs@;
                let mut more = more;
                let ghost mv = more@;
                contribs.append(&mut more);
                proof {
                    assert(contributions_view(contribs@) =~= contributions_view(co0) + contributions_view(mv));
                    assert forall|k: int| 0 <= k < contribs@.len() implies contribution_faithful(
                        presets@,
                        #[trigger] contribs@[k],
                    ) by {
                        if k < co0.len() {
                            assert(contribs@[k] == co0[k]);
                        } else {
                            assert(contribs@[k] == mv[k - co0.len()]);
                        }
                    }
                }
            },
        }
        i = i + 1;
    }
    proof {
        assert(incs.take(i as int) =~= incs);
    }
    Ok((clauses, contribs))
}


/// Resolves the preset `name` against `presets`, given the parse errors of
/// the queries known to be invalid.
pub fn resolve_preset(
    name: &str,
    presets: &Vec<LayeredPresetDefinition>,
    invalid_queries: &Vec<(String, String)>,
) -> (r: Result<ResolvedPreset, PresetError>)
    requires
        presets_distinct(presets@),
        presets@.len() < usize::MAX,
    ensures
        match resolve_top_spec(presets@, invalid_view(invalid_queries@), name@) {
            Ok((q, cs)) => r matches Ok(rp) && {
                let i = preset_index(presets@, name@);
                let dv = definition_spec_view(presets@[i].definition);
                &&& rp.name@ == name@
                &&& rp.query@ == q
                &&& contributions_ok(presets@, rp.contributions@, cs)
                &&& opt_view(rp.description) == dv.1
                &&& views(rp.tags@) == dv.2
                &&& views(rp.examples@) == dv.3
                &&& views(rp.includes@) == dv.4
                &&& rp.source == Some(presets@[i].source)
            },
            Err(chain) => r matches Err(e) && views(e.chain@) == chain,
        },
{
    let mut visiting: Vec<String> = Vec::new();
    assert(views(visiting@) =~= Seq::<Seq<char>>::empty());
    let res = resolve_preset_rec(presets, invalid_queries, name, &mut visiting, presets.len() + 1);
    match res {
        Err(e) => Err(e),
        Ok((query, contributions)) => {
            let idx = match find_preset(presets, name) {
                Some(i) => i,
                None => {
                    return Err(single_error(cat3("Preset '", name, "' not found")));
                },
            };
            let spec = presets[idx].definition.as_spec();
            Ok(
                ResolvedPreset {
                    name: owned(name),
                    query,
                    description: spec.description,
                    tags: spec.tags,
                    examples: spec.examples,
                    includes: spec.includes,
                    source: Some(clone_source(&presets[idx].source)),
                    contributions,
                },
            )
        },
    }
}

/// `rp` is the successful resolution of the preset it names.
pub open spec fn resolved_ok(
    p: Seq<LayeredPresetDefinition>,
    invalid: Seq<(Seq<char>, Seq<char>)>,
    rp: ResolvedPreset,
) -> bool {
    match resolve_top_spec(p, invalid, rp.name@) {
        Ok((q, cs)) => rp.query@ == q && contributions_ok(p, rp.contributions@, cs),
        Err(_) => false,
    }
}

/// Resolving `name` fails with `chain`.
pub open spec fn resolve_fails_with(
    p: Seq<LayeredPresetDefinition>,
    invalid: Seq<(Seq<char>, Seq<char>)>,
    name: Seq<char>,
    chain: Seq<Seq<char>>,
) -> bool {
    resolve_top_spec(p, invalid, name) == Err::<(Seq<char>, Seq<(Seq<char>, Seq<char>)>), Seq<Seq<char>>>(chain)
}

/// Resolves every preset, in order; the first failure is returned.
pub fn resolve_all_presets(presets: &Vec<LayeredPresetDefinition>, invalid_queries: &Vec<(String, String)>) -> (r:
    Result<Vec<ResolvedPreset>, PresetError>)
    requires
        presets_distinct(presets@),
        presets@.len() < usize::MAX,
    ensures
        match r {
            Ok(v) => v@.len() == presets@.len() && forall|i: int|
                0 <= i < v@.len() ==> #[trigger] v@[i].name@ == presets@[i].name@ && resolved_ok(
                    presets@,
                    invalid_view(invalid_queries@),
                    v@[i],
                ),
            Err(e) => exists|i: int|
                0 <= i < presets@.len() && resolve_fails_with(
                    presets@,
                    invalid_view(invalid_queries@),
                    #[trigger] presets@[i].name@,
                    views(e.chain@),
                ),
        },
{
    let mut out: Vec<ResolvedPreset> = Vec::new();
    let mut i: usize = 0;
    while i < presets.len()
        invariant
            i <= presets.len(),
            presets_distinct(presets@),
            presets@.len() < usize::MAX,
            out@.len() == i,
            forall|k: int|
                0 <= k < i ==> #[trigger] out@[k].name@ == presets@[k].name@ && resolved_ok(
                    presets@,
                    invalid_view(invalid_queries@),
                    out@[k],
                ),
        decreases presets.len() - i,
    {
        let r = resolve_preset(presets[i].name.as_str(), presets, invalid_queries);
        match r {
            Ok(rp) => {
                out.push(rp);
            },
            Err(e) => {
                return Err(e);
            },
        }
        i = i + 1;
    }
    Ok(out)
}

// ---------------------------------------------------------------------------
// Layered configuration
// ---------------------------------------------------------------------------

/// One configuration layer: a schema version and named presets (names are
/// distinct).
#[derive(Debug, Clone, PartialEq, Eq)]
pub struct Config {
    pub schema_version: u32,
    pub presets: Vec<(String, PresetDefinition)>,
}

impl Default for Config {
    fn default() -> (c: Self)
        ensures
            c.schema_version == CONFIG_SCHEMA_VERSION,
            c.presets@.len() == 0,
    {
        Config { schema_version: CONFIG_SCHEMA_VERSION, presets: Vec::new() }
    }
}

/// The merged configuration, its warnings, its layers, and every preset
/// resolved (sorted by name).
#[derive(Debug, Clone, PartialEq, Eq)]
pub struct ConfigReport {
    pub merged: Config,
    pub diagnostics: Vec<ConfigDiagnostic>,
    pub sources: Vec<ConfigSource>,
    pub resolved_presets: Vec<ResolvedPreset>,
}

/// The definition a layer gives to `name`, if any (its first entry).
pub open spec fn layer_lookup(presets: Seq<(String, PresetDefinition)>, name: Seq<char>) -> Option<PresetDefinition>
    decreases presets.len(),
{
    if presets.len() == 0 {
        None
    } else if presets[0].0@ == name {
        Some(presets[0].1)
    } else {
        layer_lookup(presets.drop_first(), name)
    }
}

/// The definition of `name` after merging layers in order: a later layer
/// overrides an earlier one.
pub open spec fn merged_lookup(layers: Seq<(Config, ConfigSource)>, name: Seq<char>) -> Option<
    (
        (bool, Option<Seq<char>>, Option<Seq<char>>, Seq<Seq<char>>, Seq<Seq<char>>, Seq<Seq<char>>),
        ConfigSource,
    ),
>
    decreases layers.len(),
{
    if layers.len() == 0 {
        None
    } else {
        match layer_lookup(layers.last().0.presets@, name) {
            Some(d) => Some((def_view(d), layers.last().1)),
            None => merged_lookup(layers.drop_last(), name),
        }
    }
}

/// Names strictly sorted.
pub open spec fn presets_sorted(p: Seq<LayeredPresetDefinition>) -> bool {
    forall|i: int, j: int| 0 <= i < j < p.len() ==> seq_lt(#[trigger] p[i].name@, #[trigger] p[j].name@)
}

/// The written form of a definition, by view.
pub open spec fn def_view(d: PresetDefinition) -> (
    bool,
    Option<Seq<char>>,
    Option<Seq<char>>,
    Seq<Seq<char>>,
    Seq<Seq<char>>,
    Seq<Seq<char>>,
) {
    match d {
        PresetDefinition::Query(q) => (true, Some(q@), None, Seq::empty(), Seq::empty(), Seq::empty()),
        PresetDefinition::Detailed(s) => (
            false,
            opt_view(s.query),
            opt_view(s.description),
            views(s.tags@),
            views(s.examples@),
            views(s.includes@),
        ),
    }
}

/// Copies a definition.
pub fn clone_definition(d: &PresetDefinition) -> (r: PresetDefinition)
    ensures
        def_view(r) == def_view(*d),
        definition_spec_view(r) == definition_spec_view(*d),
{
    match d {
        PresetDefinition::Query(q) => PresetDefinition::Query(q.clone()),
        PresetDefinition::Detailed(s) => PresetDefinition::Detailed(
            PresetSpec {
                query: crate::content::clone_opt(&s.query),
                description: crate::content::clone_opt(&s.description),
                tags: clone_strings(&s.tags),
                examples: clone_strings(&s.examples),
                includes: clone_strings(&s.includes),
            },
        ),
    }
}

/// The entry of `name` in a merged list.
pub open spec fn merged_entry(p: Seq<LayeredPresetDefinition>, name: Seq<char>) -> Option<
    (
        (bool, Option<Seq<char>>, Option<Seq<char>>, Seq<Seq<char>>, Seq<Seq<char>>, Seq<Seq<char>>),
        ConfigSource,
    ),
> {
    let i = preset_index(p, name);
    if i >= 0 {
        Some((def_view(p[i].definition), p[i].source))
    } else {
        None
    }
}

/// Sorted names are distinct.
proof fn lemma_sorted_distinct(p: Seq<LayeredPresetDefinition>)
    requires
        presets_sorted(p),
    ensures
        presets_distinct(p),
{
    assert forall|i: int, j: int| 0 <= i < j < p.len() implies #[trigger] p[i].name@ != #[trigger] p[j].name@ by {
        crate::text::lemma_seq_lt_asym(p[i].name@, p[j].name@);
    }
}

/// Inserts or replaces the entry of `name`, keeping names sorted.
#[verifier::rlimit(80)]
fn upsert_preset(v: &mut Vec<LayeredPresetDefinition>, name: &String, definition: &PresetDefinition, source: &ConfigSource)
    requires
        presets_sorted(old(v)@),
    ensures
        presets_sorted(final(v)@),
        forall|n: Seq<char>|
            #[trigger] merged_entry(final(v)@, n) == if n == name@ {
                Some((def_view(*definition), *source))
            } else {
                merged_entry(old(v)@, n)
            },
{
    let ghost s = v@;
    proof {
        lemma_sorted_distinct(s);
    }
    let mut k: usize = 0;
    while k < v.len() && crate::text::str_less(v[k].name.as_str(), name.as_str())
        invariant
            k <= v.len(),
            v@ == s,
            forall|j: int| 0 <= j < k ==> seq_lt(#[trigger] s[j].name@, name@),
        decreases v.len() - k,
    {
        k = k + 1;
    }
    let entry = LayeredPresetDefinition {
        name: name.clone(),
        definition: clone_definition(definition),
        source: clone_source(source),
    };
    if k < v.len() && crate::text::str_eq(v[k].name.as_str(), name.as_str()) {
        v.set(k, entry);
        proof {
            lemma_sorted_distinct(v@);
            assert forall|i: int, j: int| 0 <= i < j < v@.len() implies seq_lt(
                #[trigger] v@[i].name@,
                #[trigger] v@[j].name@,
            ) by {
                assert(v@[i].name@ == s[i].name@ && v@[j].name@ == s[j].name@);
            }
            assert forall|n: Seq<char>| #[trigger] merged_entry(v@, n) == if n == name@ {
                Some((def_view(*definition), *source))
            } else {
                merged_entry(s, n)
            } by {
                lemma_sorted_distinct(v@);
                if n == name@ {
                    assert(v@[k as int].name@ == n);
                    let c = preset_index(v@, n);
                    if c != k {
                        if c < k {
                            assert(v@[c].name@ != v@[k as int].name@);
                        } else {
                            assert(v@[k as int].name@ != v@[c].name@);
                        }
                    }
                } else {
                    if exists|i: int| 0 <= i < s.len() && #[trigger] s[i].name@ == n {
                        let c = preset_index(s, n);
                        assert(v@[c].name@ == n);
                        let d = preset_index(v@, n);
                        assert(s[d].name@ == n);
                        if c != d {
                            if c < d {
                                assert(s[c].name@ != s[d].name@);
                            } else {
                                assert(s[d].name@ != s[c].name@);
                            }
                        }
                    } else {
                        assert(!exists|i: int| 0 <= i < v@.len() && #[trigger] v@[i].name@ == n) by {
                            if exists|i: int| 0 <= i < v@.len() && #[trigger] v@[i].name@ == n {
                                let i = choose|i: int| 0 <= i < v@.len() && #[trigger] v@[i].name@ == n;
                                assert(s[i].name@ == n);
                            }
                        }
                    }
                }
            }
        }
    } else {
        proof {
            if k < v.len() {
                crate::text::lemma_seq_lt_total(name@, s[k as int].name@);
            }
        }
        v.insert(k, entry);
        proof {
            assert forall|i: int, j: int| 0 <= i < j < v@.len() implies seq_lt(
                #[trigger] v@[i].name@,
                #[trigger] v@[j].name@,
            ) by {
                if j < k {
                    assert(v@[i] == s[i] && v@[j] == s[j]);
                } else if j == k {
                    assert(v@[i] == s[i]);
                } else if i < k {
                    assert(v@[i] == s[i] && v@[j] == s[j - 1]);
                    if j - 1 > k {
                        crate::text::lemma_seq_lt_trans(name@, s[k as int].name@, s[j - 1].name@);
                    }
                    crate::text::lemma_seq_lt_trans(s[i].name@, name@, s[j - 1].name@);
                } else if i == k {
                    assert(v@[j] == s[j - 1]);
                    if j - 1 > k {
                        crate::text::lemma_seq_lt_trans(name@, s[k as int].name@, s[j - 1].name@);
                    }
                } else {
                    assert(v@[i] == s[i - 1] && v@[j] == s[j - 1]);
                }
            }
            lemma_sorted_distinct(v@);
            assert forall|n: Seq<char>| #[trigger] merged_entry(v@, n) == if n == name@ {
                Some((def_view(*definition), *source))
            } else {
                merged_entry(s, n)
            } by {
                if n == name@ {
                    assert(v@[k as int].name@ == n);
                    let c = preset_index(v@, n);
                    if c != k {
                        if c < k {
                            assert(v@[c].name@ != v@[k as int].name@);
                        } else {
                            assert(v@[k as int].name@ != v@[c].name@);
                        }
                    }
                } else {
                    if exists|i: int| 0 <= i < s.len() && #[trigger] s[i].name@ == n {
                        let c = preset_index(s, n);
                        let c2 = if c < k {
                            c
                        } else {
                            c + 1
                        };
                        assert(v@[c2] == s[c]);
                        let d = preset_index(v@, n);
                        if d != c2 {
                            if d < c2 {
                                assert(v@[d].name@ != v@[c2].name@);
                            } else {
                                assert(v@[c2].name@ != v@[d].name@);
                            }
                        }
                    } else {
                        assert(!exists|i: int| 0 <= i < v@.len() && #[trigger] v@[i].name@ == n) by {
                            if exists|i: int| 0 <= i < v@.len() && #[trigger] v@[i].name@ == n {
                                let i = choose|i: int| 0 <= i < v@.len() && #[trigger] v@[i].name@ == n;
                                if i < k {
                                    assert(s[i].name@ == n);
                                } else if i > k {
                                    assert(s[i - 1].name@ == n);
                                }
                            }
                        }
                    }
                }
            }
        }
    }
}


/// The names of a layer are distinct.
pub open spec fn layer_distinct(presets: Seq<(String, PresetDefinition)>) -> bool {
    forall|i: int, j: int| 0 <= i < j < presets.len() ==> #[trigger] presets[i].0@ != #[trigger] presets[j].0@
}

/// Looking up in a longer prefix of a layer.
proof fn lemma_layer_lookup_step(ps: Seq<(String, PresetDefinition)>, m: int, n: Seq<char>)
    requires
        0 <= m < ps.len(),
    ensures
        layer_lookup(ps.take(m + 1), n) == if layer_lookup(ps.take(m), n) is Some {
            layer_lookup(ps.take(m), n)
        } else if ps[m].0@ == n {
            Some(ps[m].1)
        } else {
            None
        },
    decreases m,
{
    if m == 0 {
        assert(ps.take(1).drop_first() =~= Seq::<(String, PresetDefinition)>::empty());
        assert(ps.take(0) =~= Seq::<(String, PresetDefinition)>::empty());
    } else {
        lemma_layer_lookup_step(ps.drop_first(), m - 1, n);
        assert(ps.take(m + 1).drop_first() =~= ps.drop_first().take(m));
        assert(ps.take(m).drop_first() =~= ps.drop_first().take(m - 1));
    }
}

/// A name later in a layer is not found in the distinct prefix before it.
proof fn lemma_layer_lookup_absent(ps: Seq<(String, PresetDefinition)>, m: int, n: Seq<char>)
    requires
        0 <= m <= ps.len(),
        forall|j: int| 0 <= j < m ==> #[trigger] ps[j].0@ != n,
    ensures
        layer_lookup(ps.take(m), n) is None,
    decreases m,
{
    if m > 0 {
        lemma_layer_lookup_absent(ps, m - 1, n);
        lemma_layer_lookup_step(ps, m - 1, n);
    } else {
        assert(ps.take(0) =~= Seq::<(String, PresetDefinition)>::empty());
    }
}

/// The schema warning of a layer.
pub open spec fn schema_warning_message(version: u32, path: Seq<char>) -> Seq<char> {
    "Config schema version "@ + crate::text::decimal(version as nat) + " at "@ + path + " will be migrated to "@
        + crate::text::decimal(CONFIG_SCHEMA_VERSION as nat) + " semantics."@
}

/// The schema warnings of the layers, in order.
pub open spec fn schema_warnings(layers: Seq<(Config, ConfigSource)>) -> Seq<(Seq<char>, Seq<char>, Seq<char>)>
    decreases layers.len(),
{
    if layers.len() == 0 {
        Seq::empty()
    } else {
        let rest = schema_warnings(layers.drop_last());
        let l = layers.last();
        if l.0.schema_version != CONFIG_SCHEMA_VERSION {
            rest.push(("schema_version_mismatch"@, schema_warning_message(l.0.schema_version, l.1.path@), l.1.path@))
        } else {
            rest
        }
    }
}

/// The view of configuration diagnostics.
pub open spec fn config_diagnostics_view(d: Seq<ConfigDiagnostic>) -> Seq<(Seq<char>, Seq<char>, Seq<char>)> {
    d.map_values(|x: ConfigDiagnostic| (x.code@, x.message@, match x.path {
        Some(p) => p@,
        None => Seq::empty(),
    }))
}

/// Merges configuration layers in order (later layers override presets of
/// the same name), warns about layers written for another schema version,
/// and resolves every merged preset.
pub fn build_config_report(layers: &Vec<(Config, ConfigSource)>, invalid_queries: &Vec<(String, String)>) -> (r:
    Result<ConfigReport, PresetError>)
    requires
        forall|i: int| 0 <= i < layers@.len() ==> layer_distinct(#[trigger] layers@[i].0.presets@),
    ensures
        exists|p: Seq<LayeredPresetDefinition>|
            #[trigger] merge_of(p, layers@) && (r is Ok <==> p.len() < usize::MAX && all_resolve(
                p,
                invalid_view(invalid_queries@),
            )) && (r matches Err(e) ==> resolution_error(p, invalid_view(invalid_queries@), views(e.chain@))) && (
            r matches Ok(rep) ==> rep.merged.presets@.len() == p.len() && forall|i: int|
                0 <= i < p.len() ==> #[trigger] rep.merged.presets@[i].0@ == p[i].name@ && def_view(
                    rep.merged.presets@[i].1,
                ) == def_view(p[i].definition) && resolved_ok(
                    p,
                    invalid_view(invalid_queries@),
                    rep.resolved_presets@[i],
                )),
        r matches Ok(rep) ==> {
            &&& rep.merged.schema_version == CONFIG_SCHEMA_VERSION
            &&& rep.sources@ == layers@.map_values(|l: (Config, ConfigSource)| l.1)
            &&& config_diagnostics_view(rep.diagnostics@) == schema_warnings(layers@)
            &&& forall|i: int, j: int|
                0 <= i < j < rep.merged.presets@.len() ==> seq_lt(
                    #[trigger] rep.merged.presets@[i].0@,
                    #[trigger] rep.merged.presets@[j].0@,
                )
            &&& rep.resolved_presets@.len() == rep.merged.presets@.len()
            &&& forall|i: int|
                0 <= i < rep.merged.presets@.len() ==> #[trigger] rep.resolved_presets@[i].name@
                    == rep.merged.presets@[i].0@
            &&& forall|n: Seq<char>| #[trigger] merged_lookup(layers@, n) is Some <==> exists|i: int|
                0 <= i < rep.merged.presets@.len() && #[trigger] rep.merged.presets@[i].0@ == n
            &&& resolved_distinct(rep.resolved_presets@)
        },
{
    let mut merged: Vec<LayeredPresetDefinition> = Vec::new();
    let mut diagnostics: Vec<ConfigDiagnostic> = Vec::new();
    let mut sources: Vec<ConfigSource> = Vec::new();
    let mut li: usize = 0;
    while li < layers.len()
        invariant
            li <= layers.len(),
            forall|i: int| 0 <= i < layers@.len() ==> layer_distinct(#[trigger] layers@[i].0.presets@),
            presets_sorted(merged@),
            forall|n: Seq<char>| #[trigger] merged_entry(merged@, n) == merged_lookup(layers@.take(li as int), n),
            sources@ == layers@.take(li as int).map_values(|l: (Config, ConfigSource)| l.1),
            config_diagnostics_view(diagnostics@) == schema_warnings(layers@.take(li as int)),
        decreases layers.len() - li,
    {
        let (config, source) = (&layers[li].0, &layers[li].1);
        let ghost prev = layers@.take(li as int);
        let ghost next = layers@.take(li + 1);
        proof {
            assert(next.drop_last() =~= prev);
            assert(next.last() == layers@[li as int]);
        }
        let ghost sources0 = sources@;
        sources.push(clone_source(source));
        assert(sources@ =~= next.map_values(|l: (Config, ConfigSource)| l.1));
        let ghost diags0 = diagnostics@;
        if config.schema_version != CONFIG_SCHEMA_VERSION {
            let mut m: Vec<char> = Vec::new();
            push_str(&mut m, "Config schema version ");
            push_str(&mut m, crate::text::u64_to_string(config.schema_version as u64).as_str());
            push_str(&mut m, " at ");
            push_str(&mut m, source.path.as_str());
            push_str(&mut m, " will be migrated to ");
            push_str(&mut m, crate::text::u64_to_string(CONFIG_SCHEMA_VERSION as u64).as_str());
            push_str(&mut m, " semantics.");
            let d = ConfigDiagnostic::warning(
                owned("schema_version_mismatch"),
                string_from_chars(&m),
                Some(source.path.clone()),
            );
            diagnostics.push(d);
        }
        assert(config_diagnostics_view(diagnostics@) =~= schema_warnings(next));
        let ps = &config.presets;
        let mut pi: usize = 0;
        assert(ps@.take(0) =~= Seq::<(String, PresetDefinition)>::empty());
        while pi < ps.len()
            invariant
                pi <= ps@.len(),
                layer_distinct(ps@),
                presets_sorted(merged@),
                forall|n: Seq<char>| #[trigger]
                    merged_entry(merged@, n) == match layer_lookup(ps@.take(pi as int), n) {
                        Some(d) => Some((def_view(d), *source)),
                        None => merged_lookup(prev, n),
                    },
            decreases ps.len() - pi,
        {
            let ghost before = merged@;
            upsert_preset(&mut merged, &ps[pi].0, &ps[pi].1, source);
            proof {
                assert forall|n: Seq<char>| #[trigger]
                    merged_entry(merged@, n) == match layer_lookup(ps@.take(pi + 1), n) {
                        Some(d) => Some((def_view(d), *source)),
                        None => merged_lookup(prev, n),
                    } by {
                    lemma_layer_lookup_step(ps@, pi as int, n);
                    if n == ps@[pi as int].0@ {
                        assert forall|j: int| 0 <= j < pi implies #[trigger] ps@[j].0@ != n by {
                            assert(ps@[j].0@ != ps@[pi as int].0@);
                        }
                        lemma_layer_lookup_absent(ps@, pi as int, n);
                    }
                }
            }
            pi = pi + 1;
        }
        proof {
            assert(ps@.take(ps@.len() as int) =~= ps@);
            assert forall|n: Seq<char>| #[trigger] merged_entry(merged@, n) == merged_lookup(next, n) by {
                assert(layer_lookup(ps@.take(pi as int), n) == layer_lookup(next.last().0.presets@, n));
            }
        }
        li = li + 1;
    }
    proof {
        assert(layers@.take(li as int) =~= layers@);
        lemma_sorted_distinct(merged@);
    }
    let resolved = match resolve_all_presets_checked(&merged, invalid_queries) {
        Ok(v) => v,
        Err(e) => {
            proof {
                assert(merge_of(merged@, layers@));
            }
            return Err(e);
        },
    };
    let mut merged_presets: Vec<(String, PresetDefinition)> = Vec::new();
    let mut k: usize = 0;
    while k < merged.len()
        invariant
            k <= merged.len(),
            merged_presets@.len() == k,
            forall|i: int| 0 <= i < k ==> #[trigger] merged_presets@[i].0@ == merged@[i].name@ && def_view(
                merged_presets@[i].1,
            ) == def_view(merged@[i].definition),
        decreases merged.len() - k,
    {
        merged_presets.push((merged[k].name.clone(), clone_definition(&merged[k].definition)));
        k = k + 1;
    }
    proof {
        assert forall|i: int, j: int| 0 <= i < j < merged_presets@.len() implies seq_lt(
            #[trigger] merged_presets@[i].0@,
            #[trigger] merged_presets@[j].0@,
        ) by {
            assert(merged_presets@[i].0@ == merged@[i].name@);
            assert(merged_presets@[j].0@ == merged@[j].name@);
        }
        assert forall|i: int, j: int| 0 <= i < j < resolved@.len() implies #[trigger] resolved@[i].name@
            != #[trigger] resolved@[j].name@ by {
            assert(resolved@[i].name@ == merged@[i].name@);
            assert(resolved@[j].name@ == merged@[j].name@);
        }
        assert forall|n: Seq<char>| #[trigger] merged_lookup(layers@, n) is Some <==> exists|i: int|
            0 <= i < merged_presets@.len() && #[trigger] merged_presets@[i].0@ == n by {
            assert(merged_entry(merged@, n) == merged_lookup(layers@, n));
            if merged_lookup(layers@, n) is Some {
                let i = preset_index(merged@, n);
                assert(merged_presets@[i].0@ == n);
            }
            if exists|i: int| 0 <= i < merged_presets@.len() && #[trigger] merged_presets@[i].0@ == n {
                let i = choose|i: int| 0 <= i < merged_presets@.len() && #[trigger] merged_presets@[i].0@ == n;
                assert(merged@[i].name@ == n);
            }
        }
    }
    proof {
        assert(merge_of(merged@, layers@));
    }
    Ok(
        ConfigReport {
            merged: Config { schema_version: CONFIG_SCHEMA_VERSION, presets: merged_presets },
            diagnostics,
            sources,
            resolved_presets: resolved,
        },
    )
}

/// Every preset of a list resolves.
pub open spec fn all_resolve(p: Seq<LayeredPresetDefinition>, invalid: Seq<(Seq<char>, Seq<char>)>) -> bool {
    forall|i: int| 0 <= i < p.len() ==> (#[trigger] resolve_top_spec(p, invalid, p[i].name@)) is Ok
}

/// The error of resolving a merged list: a list too long to index, or the
/// failure of one of its presets.
pub open spec fn resolution_error(
    p: Seq<LayeredPresetDefinition>,
    invalid: Seq<(Seq<char>, Seq<char>)>,
    chain: Seq<Seq<char>>,
) -> bool {
    ||| p.len() >= usize::MAX && chain == seq!["Too many presets"@]
    ||| exists|i: int| 0 <= i < p.len() && #[trigger] resolve_fails_with(p, invalid, p[i].name@, chain)
}

/// `p` is the merge of the layers: sorted by name, with each name's entry
/// taken from the last layer that defines it.
pub open spec fn merge_of(p: Seq<LayeredPresetDefinition>, layers: Seq<(Config, ConfigSource)>) -> bool {
    &&& presets_sorted(p)
    &&& forall|n: Seq<char>| #[trigger] merged_entry(p, n) == merged_lookup(layers, n)
}

/// Resolves every preset of a merged list, refusing lists too long to index.
fn resolve_all_presets_checked(presets: &Vec<LayeredPresetDefinition>, invalid_queries: &Vec<(String, String)>) -> (r:
    Result<Vec<ResolvedPreset>, PresetError>)
    requires
        presets_distinct(presets@),
    ensures
        r is Ok <==> presets@.len() < usize::MAX && all_resolve(presets@, invalid_view(invalid_queries@)),
        r matches Ok(v) ==> v@.len() == presets@.len() && forall|i: int|
            0 <= i < v@.len() ==> #[trigger] v@[i].name@ == presets@[i].name@ && resolved_ok(
                presets@,
                invalid_view(invalid_queries@),
                v@[i],
            ),
        r matches Err(e) ==> resolution_error(presets@, invalid_view(invalid_queries@), views(e.chain@)),
{
    if presets.len() == usize::MAX {
        let e = single_error(owned("Too many presets"));
        proof {
            reveal_strlit("Too many presets");
            assert(views(e.chain@) =~= seq!["Too many presets"@]);
        }
        return Err(e);
    }
    let r = resolve_all_presets(presets, invalid_queries);
    proof {
        let inv = invalid_view(invalid_queries@);
        let rr = r;
        match rr {
            Ok(v) => {
                assert forall|i: int| 0 <= i < presets@.len() implies (#[trigger] resolve_top_spec(
                    presets@,
                    inv,
                    presets@[i].name@,
                )) is Ok by {
                    assert(v@[i].name@ == presets@[i].name@ && resolved_ok(presets@, inv, v@[i]));
                }
            },
            Err(e) => {
                let i = choose|i: int| 0 <= i < presets@.len() && resolve_fails_with(
                    presets@,
                    inv,
                    #[trigger] presets@[i].name@,
                    views(e.chain@),
                );
                assert(resolve_fails_with(presets@, inv, presets@[i].name@, views(e.chain@)));
                assert(!(resolve_top_spec(presets@, inv, presets@[i].name@) is Ok));
            },
        }
    }
    r
}

/// Resolved preset names are distinct.
pub open spec fn resolved_distinct(v: Seq<ResolvedPreset>) -> bool {
    forall|i: int, j: int| 0 <= i < j < v.len() ==> #[trigger] v[i].name@ != #[trigger] v[j].name@
}

/// Finds the resolved preset called `name`.
fn find_resolved(v: &Vec<ResolvedPreset>, name: &str) -> (r: Option<usize>)
    ensures
        match r {
            Some(k) => k < v@.len() && v@[k as int].name@ == name@,
            None => !exists|k: int| 0 <= k < v@.len() && #[trigger] v@[k].name@ == name@,
        },
{
    let mut k: usize = 0;
    while k < v.len()
        invariant
            k <= v.len(),
            forall|j: int| 0 <= j < k ==> #[trigger] v@[j].name@ != name@,
        decreases v.len() - k,
    {
        if crate::text::str_eq(v[k].name.as_str(), name) {
            return Some(k);
        }
        k = k + 1;
    }
    None
}

/// A contribution by its fields' views.
pub open spec fn contribution_view(c: PresetContribution) -> (
    Seq<char>,
    Seq<char>,
    Option<ConfigSource>,
    Option<Seq<char>>,
    Seq<Seq<char>>,
    Seq<Seq<char>>,
) {
    (c.preset@, c.clause@, c.source, opt_view(c.description), views(c.tags@), views(c.examples@))
}

/// A list of contributions by their views.
pub open spec fn contribution_views(cs: Seq<PresetContribution>) -> Seq<
    (Seq<char>, Seq<char>, Option<ConfigSource>, Option<Seq<char>>, Seq<Seq<char>>, Seq<Seq<char>>),
> {
    cs.map_values(|c: PresetContribution| contribution_view(c))
}

/// Copies a list of contributions.
fn clone_contributions(v: &Vec<PresetContribution>) -> (r: Vec<PresetContribution>)
    ensures
        contribution_views(r@) == contribution_views(v@),
{
    let mut r: Vec<PresetContribution> = Vec::new();
    let mut i: usize = 0;
    while i < v.len()
        invariant
            i <= v.len(),
            r@.len() == i,
            forall|j: int| 0 <= j < i ==> contribution_view(#[trigger] r@[j]) == contribution_view(v@[j]),
        decreases v.len() - i,
    {
        let c = &v[i];
        r.push(
            PresetContribution {
                preset: c.preset.clone(),
                clause: c.clause.clone(),
                source: match &c.source {
                    Some(s) => Some(clone_source(s)),
                    None => None,
                },
                description: crate::content::clone_opt(&c.description),
                tags: clone_strings(&c.tags),
                examples: clone_strings(&c.examples),
            },
        );
        i = i + 1;
    }
    assert(contribution_views(r@) =~= contribution_views(v@));
    r
}

/// The contributions of the resolved preset named `n` in `resolved`.
pub open spec fn named_contributions(resolved: Seq<ResolvedPreset>, n: Seq<char>) -> Seq<
    (Seq<char>, Seq<char>, Option<ConfigSource>, Option<Seq<char>>, Seq<Seq<char>>, Seq<Seq<char>>),
> {
    contribution_views(
        resolved[choose|k: int| 0 <= k < resolved.len() && #[trigger] resolved[k].name@ == n].contributions@,
    )
}

/// Combines the named presets of a report: each preset's resolved query in
/// parentheses, joined with ` & `, and all their contributions.
pub fn resolve_named_presets_in(report: &ConfigReport, names: &Vec<String>) -> (r: Result<
    (String, Vec<PresetContribution>),
    String,
>)
    requires
        resolved_distinct(report.resolved_presets@),
    ensures
        match r {
            Ok((q, _)) => forall|i: int|
                #![trigger names@[i]]
                0 <= i < names@.len() ==> exists|k: int|
                    0 <= k < report.resolved_presets@.len() && #[trigger] report.resolved_presets@[k].name@
                        == names@[i]@,
            Err(e) => exists|i: int|
                0 <= i < names@.len() && e@ == not_found_message(#[trigger] names@[i]@) && !exists|k: int|
                    0 <= k < report.resolved_presets@.len() && #[trigger] report.resolved_presets@[k].name@
                        == names@[i]@,
        },
        r matches Ok((q, _)) ==> q@ == crate::text::join_spec(
            names@.map_values(
                |n: String|
                    paren(
                        report.resolved_presets@[choose|k: int|
                            0 <= k < report.resolved_presets@.len() && #[trigger] report.resolved_presets@[k].name@
                                == n@].query@,
                    ),
            ),
            " & "@,
        ),
        r matches Ok((_, cs)) ==> contribution_views(cs@) == names@.map_values(
            |n: String| named_contributions(report.resolved_presets@, n@),
        ).flatten(),
{
    let mut clauses: Vec<String> = Vec::new();
    let mut contributions: Vec<PresetContribution> = Vec::new();
    let ghost f = |n: String|
        paren(
            report.resolved_presets@[choose|k: int|
                0 <= k < report.resolved_presets@.len() && #[trigger] report.resolved_presets@[k].name@ == n@].query@,
        );
    let ghost g = |n: String| named_contributions(report.resolved_presets@, n@);
    let mut i: usize = 0;
    while i < names.len()
        invariant
            i <= names.len(),
            views(clauses@) == names@.take(i as int).map_values(f),
            g == (|n: String| named_contributions(report.resolved_presets@, n@)),
            contribution_views(contributions@) == names@.take(i as int).map_values(g).flatten(),
            resolved_distinct(report.resolved_presets@),
            f == (|n: String|
                paren(
                    report.resolved_presets@[choose|k: int|
                        0 <= k < report.resolved_presets@.len() && #[trigger] report.resolved_presets@[k].name@
                            == n@].query@,
                )),
            forall|j: int|
                #![trigger names@[j]]
                0 <= j < i ==> exists|k: int|
                    0 <= k < report.resolved_presets@.len() && #[trigger] report.resolved_presets@[k].name@
                        == names@[j]@,
        decreases names.len() - i,
    {
        let found = find_resolved(&report.resolved_presets, names[i].as_str());
        match found {
            None => {
                return Err(cat3("Preset '", names[i].as_str(), "' not found"));
            },
            Some(k) => {
                let rp = &report.resolved_presets[k];
                proof {
                    assert(report.resolved_presets@[k as int].name@ == names@[i as int]@);
                }
                let ghost c0 = clauses@;
                let clause = cat3("(", rp.query.as_str(), ")");
                clauses.push(clause);
                proof {
                    crate::text::lemma_views_push(c0, clauses@.last());
                    let kk = choose|k2: int|
                        0 <= k2 < report.resolved_presets@.len() && #[trigger] report.resolved_presets@[k2].name@
                            == names@[i as int]@;
                    if kk != k {
                        if kk < k {
                            assert(report.resolved_presets@[kk].name@ != report.resolved_presets@[k as int].name@);
                        } else {
                            assert(report.resolved_presets@[k as int].name@ != report.resolved_presets@[kk].name@);
                        }
                    }
                    assert(names@.take(i + 1).map_values(f) =~= names@.take(i as int).map_values(f).push(
                        f(names@[i as int]),
                    ));
                }
                let mut more = clone_contributions(&rp.contributions);
                let ghost before = contributions@;
                let ghost added = more@;
                contributions.append(&mut more);
                proof {
                    let kk = choose|k2: int|
                        0 <= k2 < report.resolved_presets@.len() && #[trigger] report.resolved_presets@[k2].name@
                            == names@[i as int]@;
                    if kk != k {
                        if kk < k {
                            assert(report.resolved_presets@[kk].name@ != report.resolved_presets@[k as int].name@);
                        } else {
                            assert(report.resolved_presets@[k as int].name@ != report.resolved_presets@[kk].name@);
                        }
                    }
                    assert(g(names@[i as int]) == contribution_views(added));
                    let prev = names@.take(i as int).map_values(g);
                    assert(names@.take(i + 1).map_values(g) =~= prev.push(g(names@[i as int])));
                    prev.lemma_flatten_push(g(names@[i as int]));
                    assert(contribution_views(contributions@) =~= contribution_views(before) + contribution_views(added));
                }
            },
        }
        i = i + 1;
    }
    assert(names@.take(i as int) =~= names@);
    Ok((crate::text::join_strings(&clauses, " & "), contributions))
}

} // verus!

//! Language profiles: the semantic queries of each supported language, the
//! canonical catalog of languages, its lint, and its reference document.

use crate::config::{sort_dedup, sort_unique, strictly_sorted};
use crate::contracts::LanguageSupportTier;
use crate::text::{owned, push_str, seq_lt, string_from_chars, views};
use vstd::prelude::*;

verus! {

/// A semantic predicate that language profiles can answer.
#[derive(Debug, Clone, Copy, PartialEq, Eq, Structural)]
pub enum PredicateKey {
    Ext,
    Name,
    Path,
    PathExact,
    In,
    Size,
    Modified,
    Contains,
    Matches,
    Def,
    Func,
    Import,
    Class,
    Struct,
    Enum,
    Interface,
    Trait,
    Type,
    Impl,
    Macro,
    Module,
    Object,
    Protocol,
    Comment,
    Str,
    Call,
    Component,
    Element,
    Hook,
    CustomHook,
    Prop,
}

/// The query-language name of a predicate.
pub open spec fn key_name(k: PredicateKey) -> Seq<char> {
    match k {
        PredicateKey::Ext => "ext"@,
        PredicateKey::Name => "name"@,
        PredicateKey::Path => "path"@,
        PredicateKey::PathExact => "path_exact"@,
        PredicateKey::In => "in"@,
        PredicateKey::Size => "size"@,
        PredicateKey::Modified => "modified"@,
        PredicateKey::Contains => "contains"@,
        PredicateKey::Matches => "matches"@,
        PredicateKey::Def => "def"@,
        PredicateKey::Func => "func"@,
        PredicateKey::Import => "import"@,
        PredicateKey::Class => "class"@,
        PredicateKey::Struct => "struct"@,
        PredicateKey::Enum => "enum"@,
        PredicateKey::Interface => "interface"@,
        PredicateKey::Trait => "trait"@,
        PredicateKey::Type => "type"@,
        PredicateKey::Impl => "impl"@,
        PredicateKey::Macro => "macro"@,
        PredicateKey::Module => "module"@,
        PredicateKey::Object => "object"@,
        PredicateKey::Protocol => "protocol"@,
        PredicateKey::Comment => "comment"@,
        PredicateKey::Str => "str"@,
        PredicateKey::Call => "call"@,
        PredicateKey::Component => "component"@,
        PredicateKey::Element => "element"@,
        PredicateKey::Hook => "hook"@,
        PredicateKey::CustomHook => "customhook"@,
        PredicateKey::Prop => "prop"@,
    }
}

impl PredicateKey {
    /// The query-language name of this predicate.
    pub fn as_str(&self) -> (s: &'static str)
        ensures
            s@ == key_name(*self),
    {
        match self {
            PredicateKey::Ext => "ext",
            PredicateKey::Name => "name",
            PredicateKey::Path => "path",
            PredicateKey::PathExact => "path_exact",
            PredicateKey::In => "in",
            PredicateKey::Size => "size",
            PredicateKey::Modified => "modified",
            PredicateKey::Contains => "contains",
            PredicateKey::Matches => "matches",
            PredicateKey::Def => "def",
            PredicateKey::Func => "func",
            PredicateKey::Import => "import",
            PredicateKey::Class => "class",
            PredicateKey::Struct => "struct",
            PredicateKey::Enum => "enum",
            PredicateKey::Interface => "interface",
            PredicateKey::Trait => "trait",
            PredicateKey::Type => "type",
            PredicateKey::Impl => "impl",
            PredicateKey::Macro => "macro",
            PredicateKey::Module => "module",
            PredicateKey::Object => "object",
            PredicateKey::Protocol => "protocol",
            PredicateKey::Comment => "comment",
            PredicateKey::Str => "str",
            PredicateKey::Call => "call",
            PredicateKey::Component => "component",
            PredicateKey::Element => "element",
            PredicateKey::Hook => "hook",
            PredicateKey::CustomHook => "customhook",
            PredicateKey::Prop => "prop",
        }
    }
}

/// The semantic queries of one language.
#[derive(Debug, Clone)]
pub struct LanguageProfile {
    /// Display name.
    pub name: String,
    /// File extensions handled by the profile.
    pub extensions: Vec<String>,
    /// One query per predicate (keys are distinct).
    pub queries: Vec<(PredicateKey, String)>,
}

/// The predicate keys a profile answers, in order.
pub open spec fn profile_keys(p: LanguageProfile) -> Seq<PredicateKey> {
    p.queries@.map_values(|q: (PredicateKey, String)| q.0)
}

/// The predicate keys of the c profile.
pub open spec fn c_keys() -> Seq<PredicateKey> {
    seq![PredicateKey::Def, PredicateKey::Func, PredicateKey::Struct, PredicateKey::Enum, PredicateKey::Type, PredicateKey::Macro, PredicateKey::Import, PredicateKey::Call, PredicateKey::Comment, PredicateKey::Str]
}

/// The predicate keys of the elixir profile.
pub open spec fn elixir_keys() -> Seq<PredicateKey> {
    seq![PredicateKey::Def, PredicateKey::Func, PredicateKey::Call, PredicateKey::Import, PredicateKey::Module, PredicateKey::Protocol, PredicateKey::Comment, PredicateKey::Str]
}

/// The predicate keys of the go profile.
pub open spec fn go_keys() -> Seq<PredicateKey> {
    seq![PredicateKey::Def, PredicateKey::Struct, PredicateKey::Interface, PredicateKey::Type, PredicateKey::Func, PredicateKey::Call, PredicateKey::Import, PredicateKey::Comment, PredicateKey::Str]
}

/// The predicate keys of the lua profile.
pub open spec fn lua_keys() -> Seq<PredicateKey> {
    seq![PredicateKey::Def, PredicateKey::Func, PredicateKey::Import, PredicateKey::Call, PredicateKey::Comment, PredicateKey::Str]
}

/// The predicate keys of the ocaml profile.
pub open spec fn ocaml_keys() -> Seq<PredicateKey> {
    seq![PredicateKey::Def, PredicateKey::Func, PredicateKey::Type, PredicateKey::Import, PredicateKey::Call, PredicateKey::Module, PredicateKey::Comment, PredicateKey::Str]
}

/// The predicate keys of the php profile.
pub open spec fn php_keys() -> Seq<PredicateKey> {
    seq![PredicateKey::Def, PredicateKey::Class, PredicateKey::Interface, PredicateKey::Trait, PredicateKey::Func, PredicateKey::Import, PredicateKey::Call, PredicateKey::Comment, PredicateKey::Str]
}

/// The predicate keys of the python profile.
pub open spec fn python_keys() -> Seq<PredicateKey> {
    seq![PredicateKey::Def, PredicateKey::Class, PredicateKey::Func, PredicateKey::Import, PredicateKey::Call, PredicateKey::Comment, PredicateKey::Str]
}

/// The predicate keys of the react profile.
pub open spec fn react_keys() -> Seq<PredicateKey> {
    seq![PredicateKey::Component, PredicateKey::Element, PredicateKey::Hook, PredicateKey::CustomHook, PredicateKey::Prop, PredicateKey::Import, PredicateKey::Comment, PredicateKey::Str]
}

/// The predicate keys of the scala profile.
pub open spec fn scala_keys() -> Seq<PredicateKey> {
    seq![PredicateKey::Def, PredicateKey::Class, PredicateKey::Type, PredicateKey::Object, PredicateKey::Trait, PredicateKey::Func, PredicateKey::Import, PredicateKey::Call, PredicateKey::Comment, PredicateKey::Str]
}

/// The predicate keys of the swift profile.
pub open spec fn swift_keys() -> Seq<PredicateKey> {
    seq![PredicateKey::Def, PredicateKey::Class, PredicateKey::Protocol, PredicateKey::Func, PredicateKey::Import, PredicateKey::Call, PredicateKey::Comment, PredicateKey::Str]
}

/// The predicate keys of the typescript profile.
pub open spec fn typescript_keys() -> Seq<PredicateKey> {
    seq![PredicateKey::Def, PredicateKey::Class, PredicateKey::Interface, PredicateKey::Type, PredicateKey::Enum, PredicateKey::Func, PredicateKey::Import, PredicateKey::Call, PredicateKey::Comment, PredicateKey::Str, PredicateKey::Hook, PredicateKey::CustomHook]
}

/// The predicate keys of the rust profile.
pub open spec fn rust_keys() -> Seq<PredicateKey> {
    seq![PredicateKey::Def, PredicateKey::Func, PredicateKey::Struct, PredicateKey::Enum, PredicateKey::Trait, PredicateKey::Type, PredicateKey::Impl, PredicateKey::Macro, PredicateKey::Module, PredicateKey::Import, PredicateKey::Call, PredicateKey::Comment, PredicateKey::Str]
}

/// Joins query alternatives with newlines.
fn join_queries(parts: &Vec<&str>) -> (s: String)
    ensures
        s@ == crate::text::join_spec(parts@.map_values(|p: &str| p@), "\n"@),
{
    let mut v: Vec<String> = Vec::new();
    let mut i: usize = 0;
    while i < parts.len()
        invariant
            i <= parts.len(),
            views(v@) == parts@.take(i as int).map_values(|p: &str| p@),
        decreases parts.len() - i,
    {
        let ghost before = v@;
        v.push(owned(parts[i]));
        i = i + 1;
        proof {
            crate::text::lemma_views_push(before, v@.last());
            assert(views(v@) =~= parts@.take(i as int).map_values(|p: &str| p@));
        }
    }
    assert(parts@.take(i as int) =~= parts@);
    crate::text::join_strings(&v, "\n")
}

/// The queries of the C profile, by predicate key.
pub open spec fn c_queries() -> Seq<(PredicateKey, Seq<char>)> {
    seq![
        (PredicateKey::Def, crate::text::join_spec(seq![C_FUNC_QUERY@, C_STRUCT_QUERY@, C_UNION_QUERY@, C_ENUM_QUERY@, C_TYPE_QUERY@], "\n"@)),
        (PredicateKey::Func, C_FUNC_QUERY@),
        (PredicateKey::Struct, crate::text::join_spec(seq![C_STRUCT_QUERY@, C_UNION_QUERY@], "\n"@)),
        (PredicateKey::Enum, C_ENUM_QUERY@),
        (PredicateKey::Type, C_TYPE_QUERY@),
        (PredicateKey::Macro, C_MACRO_QUERY@),
        (PredicateKey::Import, "(preproc_include) @match"@),
        (PredicateKey::Call, "(call_expression function: [ (identifier) @match (field_expression field: (field_identifier) @match) ])"@),
        (PredicateKey::Comment, "(comment) @match"@),
        (PredicateKey::Str, "[ (string_literal) @match (system_lib_string) @match ]"@),
    ]
}

pub const C_FUNC_QUERY: &'static str = "
    [
        (function_definition
            declarator: (function_declarator
                declarator: (identifier) @match))
        (function_definition
            declarator: (pointer_declarator
                declarator: (function_declarator
                    declarator: (identifier) @match)))
    ]
    ";

pub const C_STRUCT_QUERY: &'static str = "(struct_specifier name: (type_identifier) @match)";

pub const C_UNION_QUERY: &'static str = "(union_specifier name: (type_identifier) @match)";

pub const C_ENUM_QUERY: &'static str = "(enum_specifier name: (type_identifier) @match)";

pub const C_TYPE_QUERY: &'static str = "
    [
        (type_definition declarator: (type_identifier) @match)
        (type_definition declarator: (identifier) @match)
        (type_definition declarator: (pointer_declarator declarator: (identifier) @match))
        (type_definition declarator: (pointer_declarator declarator: (function_declarator declarator: (identifier) @match)))
        (type_definition declarator: (array_declarator declarator: (identifier) @match))
        (type_definition declarator: (function_declarator declarator: (identifier) @match))
    ]
    ";

pub const C_MACRO_QUERY: &'static str = "[(preproc_def name: (identifier) @match) (preproc_function_def name: (identifier) @match)]";

pub fn create_c_profile() -> (p: LanguageProfile)
    ensures
        p.name@ == "C"@,
        views(p.extensions@) == seq!["c"@, "h"@],
        profile_keys(p) == c_keys(),
        query_views(p.queries@) == c_queries(),
{
    let mut queries: Vec<(PredicateKey, String)> = Vec::new();

    let def_parts = vec![C_FUNC_QUERY, C_STRUCT_QUERY, C_UNION_QUERY, C_ENUM_QUERY, C_TYPE_QUERY];
    assert(def_parts@.map_values(|q: &str| q@) =~= seq![C_FUNC_QUERY@, C_STRUCT_QUERY@, C_UNION_QUERY@, C_ENUM_QUERY@, C_TYPE_QUERY@]);
    queries.push((PredicateKey::Def, join_queries(&def_parts)));
    queries.push((PredicateKey::Func, owned(C_FUNC_QUERY)));
    let struct_parts = vec![C_STRUCT_QUERY, C_UNION_QUERY];
    assert(struct_parts@.map_values(|q: &str| q@) =~= seq![C_STRUCT_QUERY@, C_UNION_QUERY@]);
    queries.push((PredicateKey::Struct, join_queries(&struct_parts)));
    queries.push((PredicateKey::Enum, owned(C_ENUM_QUERY)));
    queries.push((PredicateKey::Type, owned(C_TYPE_QUERY)));
    queries.push((PredicateKey::Macro, owned(C_MACRO_QUERY)));

    queries.push((PredicateKey::Import, owned("(preproc_include) @match")));

    queries.push((PredicateKey::Call,
        owned("(call_expression function: [ (identifier) @match (field_expression field: (field_identifier) @match) ])")));

    queries.push((PredicateKey::Comment, owned("(comment) @match")));

    queries.push((PredicateKey::Str,
        owned("[ (string_literal) @match (system_lib_string) @match ]")));

    let p = LanguageProfile { name: owned("C"), extensions: vec![owned("c"), owned("h")], queries };
    assert(views(p.extensions@) =~= seq!["c"@, "h"@]);
    assert(profile_keys(p) =~= c_keys());
    assert(query_views(p.queries@) =~= c_queries());
    p
}

/// The queries of the Elixir profile, by predicate key.
pub open spec fn elixir_queries() -> Seq<(PredicateKey, Seq<char>)> {
    seq![
        (PredicateKey::Def, ELIXIR_IDENT_QUERY@),
        (PredicateKey::Func, ELIXIR_IDENT_QUERY@),
        (PredicateKey::Call, ELIXIR_IDENT_QUERY@),
        (PredicateKey::Import, ELIXIR_IDENT_QUERY@),
        (PredicateKey::Module, ELIXIR_IDENT_QUERY@),
        (PredicateKey::Protocol, ELIXIR_IDENT_QUERY@),
        (PredicateKey::Comment, "(comment) @match"@),
        (PredicateKey::Str, "(string) @match"@),
    ]
}

pub const ELIXIR_IDENT_QUERY: &'static str = "[(identifier) @match (alias) @match (atom) @match]";

pub fn create_elixir_profile() -> (p: LanguageProfile)
    ensures
        p.name@ == "Elixir"@,
        views(p.extensions@) == seq!["ex"@, "exs"@],
        profile_keys(p) == elixir_keys(),
        query_views(p.queries@) == elixir_queries(),
{
    let mut queries: Vec<(PredicateKey, String)> = Vec::new();

    // Broad identifier/alias matching to keep queries simple and compatible across grammar versions.

    queries.push((PredicateKey::Def, owned(ELIXIR_IDENT_QUERY)));
    queries.push((PredicateKey::Func, owned(ELIXIR_IDENT_QUERY)));
    queries.push((PredicateKey::Call, owned(ELIXIR_IDENT_QUERY)));
    queries.push((PredicateKey::Import, owned(ELIXIR_IDENT_QUERY)));
    queries.push((PredicateKey::Module, owned(ELIXIR_IDENT_QUERY)));
    queries.push((PredicateKey::Protocol, owned(ELIXIR_IDENT_QUERY)));

    // Comments / Strings.
    queries.push((PredicateKey::Comment, owned("(comment) @match")));
    queries.push((PredicateKey::Str, owned("(string) @match")));

    let p = LanguageProfile { name: owned("Elixir"), extensions: vec![owned("ex"), owned("exs")], queries };
    assert(views(p.extensions@) =~= seq!["ex"@, "exs"@]);
    assert(profile_keys(p) =~= elixir_keys());
    assert(query_views(p.queries@) =~= elixir_queries());
    p
}

/// The queries of the Go profile, by predicate key.
pub open spec fn go_queries() -> Seq<(PredicateKey, Seq<char>)> {
    seq![
        (PredicateKey::Def, crate::text::join_spec(seq![GO_TYPE_QUERY@, GO_FUNC_QUERY@], "\n"@)),
        (PredicateKey::Struct, GO_STRUCT_QUERY@),
        (PredicateKey::Interface, GO_INTERFACE_QUERY@),
        (PredicateKey::Type, GO_TYPE_QUERY@),
        (PredicateKey::Func, GO_FUNC_QUERY@),
        (PredicateKey::Call, "(call_expression function: [ (identifier) @match (selector_expression field: (field_identifier) @match) ])"@),
        (PredicateKey::Import, "(import_declaration) @match"@),
        (PredicateKey::Comment, "(comment) @match"@),
        (PredicateKey::Str, "[ (interpreted_string_literal) @match (raw_string_literal) @match ]"@),
    ]
}

pub const GO_TYPE_QUERY: &'static str = "(type_declaration (type_spec name: (type_identifier) @match))";

pub const GO_FUNC_QUERY: &'static str = "[ (function_declaration name: (identifier) @match) (method_declaration name: (field_identifier) @match) ]";

pub const GO_STRUCT_QUERY: &'static str = "(type_declaration (type_spec name: (type_identifier) @match type: (struct_type)))";

pub const GO_INTERFACE_QUERY: &'static str = "(type_declaration (type_spec name: (type_identifier) @match type: (interface_type)))";

pub fn create_go_profile() -> (p: LanguageProfile)
    ensures
        p.name@ == "Go"@,
        views(p.extensions@) == seq!["go"@],
        profile_keys(p) == go_keys(),
        query_views(p.queries@) == go_queries(),
{
    let mut queries: Vec<(PredicateKey, String)> = Vec::new();

    // --- Definitions ---

    let def_parts = vec![GO_TYPE_QUERY, GO_FUNC_QUERY];
    assert(def_parts@.map_values(|q: &str| q@) =~= seq![GO_TYPE_QUERY@, GO_FUNC_QUERY@]);
    queries.push((PredicateKey::Def, join_queries(&def_parts)));
    queries.push((PredicateKey::Struct, owned(GO_STRUCT_QUERY)));
    queries.push((PredicateKey::Interface, owned(GO_INTERFACE_QUERY)));
    queries.push((PredicateKey::Type, owned(GO_TYPE_QUERY)));

    // --- Functions & Calls ---
    queries.push((PredicateKey::Func, owned(GO_FUNC_QUERY)));
    queries.push((PredicateKey::Call, owned("(call_expression function: [ (identifier) @match (selector_expression field: (field_identifier) @match) ])")));

    // --- Other ---
    queries.push((PredicateKey::Import,
        owned("(import_declaration) @match")));
    queries.push((PredicateKey::Comment, owned("(comment) @match")));
    queries.push((PredicateKey::Str,
        owned("[ (interpreted_string_literal) @match (raw_string_literal) @match ]")));

    let p = LanguageProfile { name: owned("Go"), extensions: vec![owned("go")], queries };
    assert(views(p.extensions@) =~= seq!["go"@]);
    assert(profile_keys(p) =~= go_keys());
    assert(query_views(p.queries@) =~= go_queries());
    p
}

/// The queries of the Lua profile, by predicate key.
pub open spec fn lua_queries() -> Seq<(PredicateKey, Seq<char>)> {
    seq![
        (PredicateKey::Def, LUA_FUNC_QUERY@),
        (PredicateKey::Func, LUA_FUNC_QUERY@),
        (PredicateKey::Import, "(function_call name: (identifier) @match)"@),
        (PredicateKey::Call, "(function_call name: (identifier) @match)"@),
        (PredicateKey::Comment, "(comment) @match"@),
        (PredicateKey::Str, "(string) @match"@),
    ]
}

pub const LUA_FUNC_QUERY: &'static str = "
    [
        (function_declaration name: (identifier) @match)
        (function_declaration name: (dot_index_expression field: (identifier) @match))
        (function_declaration name: (method_index_expression method: (identifier) @match))
    ]
    ";

pub fn create_lua_profile() -> (p: LanguageProfile)
    ensures
        p.name@ == "Lua"@,
        views(p.extensions@) == seq!["lua"@],
        profile_keys(p) == lua_keys(),
        query_views(p.queries@) == lua_queries(),
{
    let mut queries: Vec<(PredicateKey, String)> = Vec::new();

    // --- Definitions ---
    queries.push((PredicateKey::Def, owned(LUA_FUNC_QUERY)));
    queries.push((PredicateKey::Func, owned(LUA_FUNC_QUERY)));

    // --- Imports (require calls)
    queries.push((PredicateKey::Import,
        owned("(function_call name: (identifier) @match)")));

    // --- Calls ---
    queries.push((PredicateKey::Call,
        owned("(function_call name: (identifier) @match)")));

    // --- Comments / Strings ---
    queries.push((PredicateKey::Comment, owned("(comment) @match")));
    queries.push((PredicateKey::Str, owned("(string) @match")));

    let p = LanguageProfile { name: owned("Lua"), extensions: vec![owned("lua")], queries };
    assert(views(p.extensions@) =~= seq!["lua"@]);
    assert(profile_keys(p) =~= lua_keys());
    assert(query_views(p.queries@) =~= lua_queries());
    p
}

/// The queries of the OCaml profile, by predicate key.
pub open spec fn ocaml_queries() -> Seq<(PredicateKey, Seq<char>)> {
    seq![
        (PredicateKey::Def, OCAML_DEF_QUERY@),
        (PredicateKey::Func, OCAML_DEF_QUERY@),
        (PredicateKey::Type, "(identifier) @match"@),
        (PredicateKey::Import, "(identifier) @match"@),
        (PredicateKey::Call, "(identifier) @match"@),
        (PredicateKey::Module, "(module_definition) @match"@),
        (PredicateKey::Comment, "(comment) @match"@),
        (PredicateKey::Str, "(string) @match"@),
    ]
}

pub const OCAML_DEF_QUERY: &'static str = "(let_binding pattern: (_binding_pattern) @match)";

pub fn create_ocaml_profile() -> (p: LanguageProfile)
    ensures
        p.name@ == "OCaml"@,
        views(p.extensions@) == seq!["ml"@, "mli"@],
        profile_keys(p) == ocaml_keys(),
        query_views(p.queries@) == ocaml_queries(),
{
    let mut queries: Vec<(PredicateKey, String)> = Vec::new();

    // Broad identifier capture to stay compatible across grammar versions.
    // Function/value definitions via let-binding pattern.

    queries.push((PredicateKey::Def, owned(OCAML_DEF_QUERY)));
    queries.push((PredicateKey::Func, owned(OCAML_DEF_QUERY)));
    queries.push((PredicateKey::Type, owned("(identifier) @match")));

    // `open Module` treated as import; match identifiers.
    queries.push((PredicateKey::Import, owned("(identifier) @match")));

    // Calls - approximate by identifiers.
    queries.push((PredicateKey::Call, owned("(identifier) @match")));

    // Module definitions in OCaml
    queries.push((PredicateKey::Module,
        owned("(module_definition) @match")));

    // Comments / Strings
    queries.push((PredicateKey::Comment, owned("(comment) @match")));
    queries.push((PredicateKey::Str, owned("(string) @match")));

    let p = LanguageProfile { name: owned("OCaml"), extensions: vec![owned("ml"), owned("mli")], queries };
    assert(views(p.extensions@) =~= seq!["ml"@, "mli"@]);
    assert(profile_keys(p) =~= ocaml_keys());
    assert(query_views(p.queries@) =~= ocaml_queries());
    p
}

/// The queries of the PHP profile, by predicate key.
pub open spec fn php_queries() -> Seq<(PredicateKey, Seq<char>)> {
    seq![
        (PredicateKey::Def, crate::text::join_spec(seq![PHP_CLASS_QUERY@, PHP_INTERFACE_QUERY@, PHP_TRAIT_QUERY@, PHP_FUNC_QUERY@], "\n"@)),
        (PredicateKey::Class, PHP_CLASS_QUERY@),
        (PredicateKey::Interface, PHP_INTERFACE_QUERY@),
        (PredicateKey::Trait, PHP_TRAIT_QUERY@),
        (PredicateKey::Func, PHP_FUNC_QUERY@),
        (PredicateKey::Import, "(qualified_name) @match"@),
        (PredicateKey::Call, "
        [
          (function_call_expression) @match
          (member_call_expression) @match
          (scoped_call_expression) @match
        ]
        "@),
        (PredicateKey::Comment, "(comment) @match"@),
        (PredicateKey::Str, "[ (string) @match (encapsed_string) @match (heredoc) @match ]"@),
    ]
}

pub const PHP_CLASS_QUERY: &'static str = "(class_declaration name: (name) @match)";

pub const PHP_INTERFACE_QUERY: &'static str = "(interface_declaration name: (name) @match)";

pub const PHP_TRAIT_QUERY: &'static str = "(trait_declaration name: (name) @match)";

pub const PHP_FUNC_QUERY: &'static str = "(function_definition name: (name) @match)";

pub fn create_php_profile() -> (p: LanguageProfile)
    ensures
        p.name@ == "PHP"@,
        views(p.extensions@) == seq!["php"@, "phtml"@],
        profile_keys(p) == php_keys(),
        query_views(p.queries@) == php_queries(),
{
    let mut queries: Vec<(PredicateKey, String)> = Vec::new();

    // --- Definitions ---

    let def_parts = vec![PHP_CLASS_QUERY, PHP_INTERFACE_QUERY, PHP_TRAIT_QUERY, PHP_FUNC_QUERY];
    assert(def_parts@.map_values(|q: &str| q@) =~= seq![PHP_CLASS_QUERY@, PHP_INTERFACE_QUERY@, PHP_TRAIT_QUERY@, PHP_FUNC_QUERY@]);
    queries.push((PredicateKey::Def, join_queries(&def_parts)));
    queries.push((PredicateKey::Class, owned(PHP_CLASS_QUERY)));
    queries.push((PredicateKey::Interface, owned(PHP_INTERFACE_QUERY)));
    queries.push((PredicateKey::Trait, owned(PHP_TRAIT_QUERY)));
    queries.push((PredicateKey::Func, owned(PHP_FUNC_QUERY)));

    // --- Imports ---
    queries.push((PredicateKey::Import, owned("(qualified_name) @match")));

    // --- Calls ---
    queries.push((PredicateKey::Call,
        owned("
        [
          (function_call_expression) @match
          (member_call_expression) @match
          (scoped_call_expression) @match
        ]
        ")));

    // --- Comments / Strings ---
    queries.push((PredicateKey::Comment, owned("(comment) @match")));
    queries.push((PredicateKey::Str,
        owned("[ (string) @match (encapsed_string) @match (heredoc) @match ]")));

    let p = LanguageProfile { name: owned("PHP"), extensions: vec![owned("php"), owned("phtml")], queries };
    assert(views(p.extensions@) =~= seq!["php"@, "phtml"@]);
    assert(profile_keys(p) =~= php_keys());
    assert(query_views(p.queries@) =~= php_queries());
    p
}

/// The queries of the Python profile, by predicate key.
pub open spec fn python_queries() -> Seq<(PredicateKey, Seq<char>)> {
    seq![
        (PredicateKey::Def, crate::text::join_spec(seq![PYTHON_CLASS_QUERY@, PYTHON_FUNC_QUERY@], "\n"@)),
        (PredicateKey::Class, PYTHON_CLASS_QUERY@),
        (PredicateKey::Func, PYTHON_FUNC_QUERY@),
        (PredicateKey::Import, "
        [
            (import_statement) @match
            (import_from_statement) @match
        ]
        "@),
        (PredicateKey::Call, "
       (call
           function: [
               (identifier) @match
               (attribute attribute: (identifier) @match)
           ]
       )
       "@),
        (PredicateKey::Comment, "(comment) @match"@),
        (PredicateKey::Str, "(string) @match"@),
    ]
}

pub const PYTHON_CLASS_QUERY: &'static str = "(class_definition name: (identifier) @match)";

pub const PYTHON_FUNC_QUERY: &'static str = "(function_definition name: (identifier) @match)";

pub fn create_python_profile() -> (p: LanguageProfile)
    ensures
        p.name@ == "Python"@,
        views(p.extensions@) == seq!["py"@],
        profile_keys(p) == python_keys(),
        query_views(p.queries@) == python_queries(),
{
    let mut queries: Vec<(PredicateKey, String)> = Vec::new();

    let def_parts = vec![PYTHON_CLASS_QUERY, PYTHON_FUNC_QUERY];
    assert(def_parts@.map_values(|q: &str| q@) =~= seq![PYTHON_CLASS_QUERY@, PYTHON_FUNC_QUERY@]);
    queries.push((PredicateKey::Def, join_queries(&def_parts)));
    queries.push((PredicateKey::Class, owned(PYTHON_CLASS_QUERY)));
    queries.push((PredicateKey::Func, owned(PYTHON_FUNC_QUERY)));

    // Query for `import` and `from ... import` statements.
    queries.push((PredicateKey::Import,
        owned("
        [
            (import_statement) @match
            (import_from_statement) @match
        ]
        ")));

    // Query for function and method call sites.
    queries.push((PredicateKey::Call,
        owned("
       (call
           function: [
               (identifier) @match
               (attribute attribute: (identifier) @match)
           ]
       )
       ")));

    queries.push((PredicateKey::Comment, owned("(comment) @match")));
    queries.push((PredicateKey::Str, owned("(string) @match")));

    let p = LanguageProfile { name: owned("Python"), extensions: vec![owned("py")], queries };
    assert(views(p.extensions@) =~= seq!["py"@]);
    assert(profile_keys(p) =~= python_keys());
    assert(query_views(p.queries@) =~= python_queries());
    p
}

/// The queries of the React profile, by predicate key.
pub open spec fn react_queries() -> Seq<(PredicateKey, Seq<char>)> {
    seq![
        (PredicateKey::Component, REACT_COMPONENT_QUERY@),
        (PredicateKey::Element, REACT_ELEMENT_QUERY@),
        (PredicateKey::Hook, REACT_HOOK_QUERY@),
        (PredicateKey::CustomHook, REACT_CUSTOM_HOOK_QUERY@),
        (PredicateKey::Prop, REACT_PROP_QUERY@),
        (PredicateKey::Import, "(import_statement) @match"@),
        (PredicateKey::Comment, "(comment) @match"@),
        (PredicateKey::Str, "[(string) @match (template_string) @match]"@),
    ]
}

pub const REACT_COMPONENT_QUERY: &'static str = "
        [
            (class_declaration name: (type_identifier) @match)
            (function_declaration name: (identifier) @match)
            (lexical_declaration
                (variable_declarator
                    name: (identifier) @match
                    value: (arrow_function)
                )
            )
            (export_statement
                declaration: (lexical_declaration
                    (variable_declarator
                        name: (identifier) @match
                        value: (call_expression
                            function: (member_expression
                                property: (property_identifier) @_prop
                            )
                            (#eq? @_prop \"memo\")
                        )
                    )
                )
            )
            (lexical_declaration
                (variable_declarator
                    name: (identifier) @match
                    value: (call_expression
                        function: (member_expression
                            property: (property_identifier) @_prop
                        )
                        (#eq? @_prop \"memo\")
                    )
                )
            )
        ]
    ";

pub const REACT_ELEMENT_QUERY: &'static str = "
        [
            (jsx_opening_element name: (_) @match)
            (jsx_self_closing_element name: (_) @match)
        ]
    ";

pub const REACT_HOOK_QUERY: &'static str = "
        (call_expression
            function: (identifier) @match
            (#match? @match \"^(use)\")
        )
    ";

pub const REACT_CUSTOM_HOOK_QUERY: &'static str = r#"
[
  (function_declaration
    name: (identifier) @match
    (#match? @match "^use[A-Z]"))
  (lexical_declaration
    (variable_declarator
      name: (identifier) @match
      value: (arrow_function))
    (#match? @match "^use[A-Z]"))
  (export_statement
    declaration: (function_declaration
      name: (identifier) @match)
    (#match? @match "^use[A-Z]"))
  (export_statement
    declaration: (lexical_declaration
      (variable_declarator
        name: (identifier) @match
        value: (arrow_function)))
    (#match? @match "^use[A-Z]"))
]
"#;

pub const REACT_PROP_QUERY: &'static str = "(jsx_attribute (property_identifier) @match)";

pub fn create_react_profile() -> (p: LanguageProfile)
    ensures
        p.name@ == "React"@,
        views(p.extensions@) == seq!["jsx"@, "tsx"@],
        profile_keys(p) == react_keys(),
        query_views(p.queries@) == react_queries(),
{
    let mut queries: Vec<(PredicateKey, String)> = Vec::new();

    // --- Component & Element Queries ---
    queries.push((PredicateKey::Component, owned(REACT_COMPONENT_QUERY)));
    queries.push((PredicateKey::Element, owned(REACT_ELEMENT_QUERY)));

    // --- Hook Queries ---
    queries.push((PredicateKey::Hook, owned(REACT_HOOK_QUERY)));
    queries.push((PredicateKey::CustomHook, owned(REACT_CUSTOM_HOOK_QUERY)));

    // --- Prop Query ---
    queries.push((PredicateKey::Prop, owned(REACT_PROP_QUERY)));

    // --- Generic Queries (reusing from TS) ---
    queries.push((PredicateKey::Import,
        owned("(import_statement) @match")));
    queries.push((PredicateKey::Comment, owned("(comment) @match")));
    queries.push((PredicateKey::Str,
        owned("[(string) @match (template_string) @match]")));

    let p = LanguageProfile { name: owned("React"), extensions: vec![owned("jsx"), owned("tsx")], queries };
    assert(views(p.extensions@) =~= seq!["jsx"@, "tsx"@]);
    assert(profile_keys(p) =~= react_keys());
    assert(query_views(p.queries@) =~= react_queries());
    p
}

/// The queries of the Scala profile, by predicate key.
pub open spec fn scala_queries() -> Seq<(PredicateKey, Seq<char>)> {
    seq![
        (PredicateKey::Def, crate::text::join_spec(seq![SCALA_CLASS_QUERY@, SCALA_OBJECT_QUERY@, SCALA_TRAIT_QUERY@, SCALA_FUNC_QUERY@], "\n"@)),
        (PredicateKey::Class, SCALA_CLASS_QUERY@),
        (PredicateKey::Type, SCALA_OBJECT_QUERY@),
        (PredicateKey::Object, SCALA_OBJECT_QUERY@),
        (PredicateKey::Trait, SCALA_TRAIT_QUERY@),
        (PredicateKey::Func, SCALA_FUNC_QUERY@),
        (PredicateKey::Import, "(import_declaration) @match"@),
        (PredicateKey::Call, "(call_expression) @match"@),
        (PredicateKey::Comment, "(comment) @match"@),
        (PredicateKey::Str, ""@),
    ]
}

pub const SCALA_CLASS_QUERY: &'static str = "(class_definition name: (identifier) @match)";

pub const SCALA_OBJECT_QUERY: &'static str = "(object_definition name: (identifier) @match)";

pub const SCALA_TRAIT_QUERY: &'static str = "(trait_definition name: (identifier) @match)";

pub const SCALA_FUNC_QUERY: &'static str = "(function_definition name: (identifier) @match)";

pub fn create_scala_profile() -> (p: LanguageProfile)
    ensures
        p.name@ == "Scala"@,
        views(p.extensions@) == seq!["scala"@],
        profile_keys(p) == scala_keys(),
        query_views(p.queries@) == scala_queries(),
{
    let mut queries: Vec<(PredicateKey, String)> = Vec::new();

    // --- Definitions ---

    let def_parts = vec![SCALA_CLASS_QUERY, SCALA_OBJECT_QUERY, SCALA_TRAIT_QUERY, SCALA_FUNC_QUERY];
    assert(def_parts@.map_values(|q: &str| q@) =~= seq![SCALA_CLASS_QUERY@, SCALA_OBJECT_QUERY@, SCALA_TRAIT_QUERY@, SCALA_FUNC_QUERY@]);
    queries.push((PredicateKey::Def, join_queries(&def_parts)));
    queries.push((PredicateKey::Class, owned(SCALA_CLASS_QUERY)));
    queries.push((PredicateKey::Type, owned(SCALA_OBJECT_QUERY)));
    queries.push((PredicateKey::Object, owned(SCALA_OBJECT_QUERY)));
    queries.push((PredicateKey::Trait, owned(SCALA_TRAIT_QUERY)));
    queries.push((PredicateKey::Func, owned(SCALA_FUNC_QUERY)));

    // --- Imports ---
    queries.push((PredicateKey::Import,
        owned("(import_declaration) @match")));

    // --- Calls ---
    // Calls: allow any call_expression match; caller filtered by substring later.
    queries.push((PredicateKey::Call, owned("(call_expression) @match")));

    // --- Comments / Strings ---
    queries.push((PredicateKey::Comment, owned("(comment) @match")));
    // String predicate not yet implemented for Scala grammar; leave empty.
    queries.push((PredicateKey::Str, owned("")));

    let p = LanguageProfile { name: owned("Scala"), extensions: vec![owned("scala")], queries };
    assert(views(p.extensions@) =~= seq!["scala"@]);
    assert(profile_keys(p) =~= scala_keys());
    assert(query_views(p.queries@) =~= scala_queries());
    p
}

/// The queries of the Swift profile, by predicate key.
pub open spec fn swift_queries() -> Seq<(PredicateKey, Seq<char>)> {
    seq![
        (PredicateKey::Def, crate::text::join_spec(seq![SWIFT_CLASS_QUERY@, SWIFT_FUNC_QUERY@, SWIFT_PROTOCOL_QUERY@], "\n"@)),
        (PredicateKey::Class, SWIFT_CLASS_QUERY@),
        (PredicateKey::Protocol, SWIFT_PROTOCOL_QUERY@),
        (PredicateKey::Func, SWIFT_FUNC_QUERY@),
        (PredicateKey::Import, "(import_declaration) @match"@),
        (PredicateKey::Call, SWIFT_CALL_QUERY@),
        (PredicateKey::Comment, "(comment) @match"@),
        (PredicateKey::Str, "[ (line_string_literal) @match (multi_line_string_literal) @match (raw_string_literal) @match ]"@),
    ]
}

pub const SWIFT_CLASS_QUERY: &'static str = "(class_declaration name: (type_identifier) @match)";

pub const SWIFT_FUNC_QUERY: &'static str = "(function_declaration name: (simple_identifier) @match)";

pub const SWIFT_CALL_QUERY: &'static str = "(call_expression) @match";

pub const SWIFT_PROTOCOL_QUERY: &'static str = "(protocol_declaration name: (type_identifier) @match)";

pub fn create_swift_profile() -> (p: LanguageProfile)
    ensures
        p.name@ == "Swift"@,
        views(p.extensions@) == seq!["swift"@],
        profile_keys(p) == swift_keys(),
        query_views(p.queries@) == swift_queries(),
{
    let mut queries: Vec<(PredicateKey, String)> = Vec::new();

    // --- Definitions ---

    let def_parts = vec![SWIFT_CLASS_QUERY, SWIFT_FUNC_QUERY, SWIFT_PROTOCOL_QUERY];
    assert(def_parts@.map_values(|q: &str| q@) =~= seq![SWIFT_CLASS_QUERY@, SWIFT_FUNC_QUERY@, SWIFT_PROTOCOL_QUERY@]);
    queries.push((PredicateKey::Def, join_queries(&def_parts)));
    queries.push((PredicateKey::Class, owned(SWIFT_CLASS_QUERY)));
    queries.push((PredicateKey::Protocol, owned(SWIFT_PROTOCOL_QUERY)));
    // Other type-level predicates (struct/enum/extension) omitted due to grammar tokens-only nodes.
    queries.push((PredicateKey::Func, owned(SWIFT_FUNC_QUERY)));

    // --- Imports ---
    queries.push((PredicateKey::Import,
        owned("(import_declaration) @match")));

    // --- Calls ---
    queries.push((PredicateKey::Call, owned(SWIFT_CALL_QUERY)));

    // --- Comments / Strings ---
    queries.push((PredicateKey::Comment, owned("(comment) @match")));
    queries.push((PredicateKey::Str,
        owned("[ (line_string_literal) @match (multi_line_string_literal) @match (raw_string_literal) @match ]")));

    let p = LanguageProfile { name: owned("Swift"), extensions: vec![owned("swift")], queries };
    assert(views(p.extensions@) =~= seq!["swift"@]);
    assert(profile_keys(p) =~= swift_keys());
    assert(query_views(p.queries@) =~= swift_queries());
    p
}

/// The queries of the TypeScript profile, by predicate key.
pub open spec fn typescript_queries() -> Seq<(PredicateKey, Seq<char>)> {
    seq![
        (PredicateKey::Def, crate::text::join_spec(seq![TYPESCRIPT_CLASS_QUERY@, TYPESCRIPT_INTERFACE_QUERY@, TYPESCRIPT_TYPE_QUERY@, TYPESCRIPT_ENUM_QUERY@], "\n"@)),
        (PredicateKey::Class, TYPESCRIPT_CLASS_QUERY@),
        (PredicateKey::Interface, TYPESCRIPT_INTERFACE_QUERY@),
        (PredicateKey::Type, TYPESCRIPT_TYPE_QUERY@),
        (PredicateKey::Enum, TYPESCRIPT_ENUM_QUERY@),
        (PredicateKey::Func, "[ (function_declaration name: (identifier) @match) (method_definition name: (property_identifier) @match) ]"@),
        (PredicateKey::Import, "(import_statement) @match"@),
        (PredicateKey::Call, "[ (call_expression function: [ (identifier) @match (member_expression property: (property_identifier) @match) ]) (new_expression constructor: [ (identifier) @match (type_identifier) @match ]) ]"@),
        (PredicateKey::Comment, "(comment) @match"@),
        (PredicateKey::Str, "[(string) @match (template_string) @match]"@),
        (PredicateKey::Hook, TYPESCRIPT_HOOK_QUERY@),
        (PredicateKey::CustomHook, TYPESCRIPT_CUSTOM_HOOK_QUERY@),
    ]
}

pub const TYPESCRIPT_CLASS_QUERY: &'static str = "(class_declaration name: (type_identifier) @match)";

pub const TYPESCRIPT_INTERFACE_QUERY: &'static str = "(interface_declaration name: (type_identifier) @match)";

pub const TYPESCRIPT_TYPE_QUERY: &'static str = "(type_alias_declaration name: (type_identifier) @match)";

pub const TYPESCRIPT_ENUM_QUERY: &'static str = "(enum_declaration name: (identifier) @match)";

pub const TYPESCRIPT_HOOK_QUERY: &'static str = "
        (call_expression
            function: (identifier) @match
            (#match? @match \"^(use)\")
        )
    ";

pub const TYPESCRIPT_CUSTOM_HOOK_QUERY: &'static str = r#"
[
  (function_declaration
    name: (identifier) @match)
  (lexical_declaration
    (variable_declarator
      name: (identifier) @match
      value: (arrow_function)))
  (export_statement
    declaration: [
      (function_declaration
        name: (identifier) @match)
      (lexical_declaration
        (variable_declarator
          name: (identifier) @match
          value: (arrow_function)))
    ])
]
(#match? @match "^use[A-Z]")
"#;

pub fn create_typescript_profile() -> (p: LanguageProfile)
    ensures
        p.name@ == "TypeScript"@,
        views(p.extensions@) == seq!["ts"@],
        profile_keys(p) == typescript_keys(),
        query_views(p.queries@) == typescript_queries(),
{
    let mut queries: Vec<(PredicateKey, String)> = Vec::new();

    let def_parts = vec![TYPESCRIPT_CLASS_QUERY, TYPESCRIPT_INTERFACE_QUERY, TYPESCRIPT_TYPE_QUERY, TYPESCRIPT_ENUM_QUERY];
    assert(def_parts@.map_values(|q: &str| q@) =~= seq![TYPESCRIPT_CLASS_QUERY@, TYPESCRIPT_INTERFACE_QUERY@, TYPESCRIPT_TYPE_QUERY@, TYPESCRIPT_ENUM_QUERY@]);
    queries.push((PredicateKey::Def, join_queries(&def_parts)));

    queries.push((PredicateKey::Class, owned(TYPESCRIPT_CLASS_QUERY)));
    queries.push((PredicateKey::Interface, owned(TYPESCRIPT_INTERFACE_QUERY)));
    queries.push((PredicateKey::Type, owned(TYPESCRIPT_TYPE_QUERY)));
    queries.push((PredicateKey::Enum, owned(TYPESCRIPT_ENUM_QUERY)));

    queries.push((PredicateKey::Func, owned("[ (function_declaration name: (identifier) @match) (method_definition name: (property_identifier) @match) ]")));
    queries.push((PredicateKey::Import,
        owned("(import_statement) @match")));
    queries.push((PredicateKey::Call,
       owned("[ (call_expression function: [ (identifier) @match (member_expression property: (property_identifier) @match) ]) (new_expression constructor: [ (identifier) @match (type_identifier) @match ]) ]")));

    queries.push((PredicateKey::Comment, owned("(comment) @match")));
    queries.push((PredicateKey::Str,
        owned("[(string) @match (template_string) @match]")));

    // --- React Hook Queries ---
    queries.push((PredicateKey::Hook, owned(TYPESCRIPT_HOOK_QUERY)));
    queries.push((PredicateKey::CustomHook, owned(TYPESCRIPT_CUSTOM_HOOK_QUERY)));

    let p = LanguageProfile { name: owned("TypeScript"), extensions: vec![owned("ts")], queries };
    assert(views(p.extensions@) =~= seq!["ts"@]);
    assert(profile_keys(p) =~= typescript_keys());
    assert(query_views(p.queries@) =~= typescript_queries());
    p
}

/// The queries of the Rust profile, by predicate key.
pub open spec fn rust_queries() -> Seq<(PredicateKey, Seq<char>)> {
    seq![
        (PredicateKey::Def, crate::text::join_spec(seq![RUST_STRUCT_QUERY@, RUST_ENUM_QUERY@, RUST_TRAIT_QUERY@, RUST_TYPE_QUERY@, RUST_FUNC_QUERY@], "\n"@)),
        (PredicateKey::Func, RUST_FUNC_QUERY@),
        (PredicateKey::Struct, RUST_STRUCT_QUERY@),
        (PredicateKey::Enum, RUST_ENUM_QUERY@),
        (PredicateKey::Trait, RUST_TRAIT_QUERY@),
        (PredicateKey::Type, RUST_TYPE_QUERY@),
        (PredicateKey::Impl, "(impl_item type: (_) @match)"@),
        (PredicateKey::Macro, "[ (macro_definition name: (identifier) @match) (macro_invocation macro: (identifier) @match) ]"@),
        (PredicateKey::Module, "(mod_item name: (identifier) @match)"@),
        (PredicateKey::Import, "(use_declaration) @match"@),
        (PredicateKey::Call, "(call_expression function: [ (identifier) @match (field_expression field: (field_identifier) @match) (scoped_identifier name: (identifier) @match) ])"@),
        (PredicateKey::Comment, "[ (line_comment) @match (block_comment) @match ]"@),
        (PredicateKey::Str, "[ (string_literal) @match (raw_string_literal) @match ]"@),
    ]
}

pub const RUST_STRUCT_QUERY: &'static str = "(struct_item name: (type_identifier) @match)";

pub const RUST_ENUM_QUERY: &'static str = "(enum_item name: (type_identifier) @match)";

pub const RUST_TRAIT_QUERY: &'static str = "(trait_item name: (type_identifier) @match)";

pub const RUST_TYPE_QUERY: &'static str = "(type_item name: (type_identifier) @match)";

pub const RUST_FUNC_QUERY: &'static str = "[ (function_item name: (identifier) @match) (function_signature_item name: (identifier) @match) ]";

/// Creates the profile for the Rust language.
pub fn create_rust_profile() -> (p: LanguageProfile)
    ensures
        p.name@ == "Rust"@,
        views(p.extensions@) == seq!["rs"@],
        profile_keys(p) == rust_keys(),
        query_views(p.queries@) == rust_queries(),
{
    let mut queries: Vec<(PredicateKey, String)> = Vec::new();

    let def_parts = vec![RUST_STRUCT_QUERY, RUST_ENUM_QUERY, RUST_TRAIT_QUERY, RUST_TYPE_QUERY, RUST_FUNC_QUERY];
    assert(def_parts@.map_values(|q: &str| q@) =~= seq![RUST_STRUCT_QUERY@, RUST_ENUM_QUERY@, RUST_TRAIT_QUERY@, RUST_TYPE_QUERY@, RUST_FUNC_QUERY@]);
    queries.push((PredicateKey::Def, join_queries(&def_parts)));
    queries.push((PredicateKey::Func, owned(RUST_FUNC_QUERY)));
    queries.push((PredicateKey::Struct, owned(RUST_STRUCT_QUERY)));
    queries.push((PredicateKey::Enum, owned(RUST_ENUM_QUERY)));
    queries.push((PredicateKey::Trait, owned(RUST_TRAIT_QUERY)));
    queries.push((PredicateKey::Type, owned(RUST_TYPE_QUERY)));
    queries.push((PredicateKey::Impl, owned("(impl_item type: (_) @match)")));
    queries.push((PredicateKey::Macro, owned("[ (macro_definition name: (identifier) @match) (macro_invocation macro: (identifier) @match) ]")));
    queries.push((PredicateKey::Module, owned("(mod_item name: (identifier) @match)")));
    queries.push((PredicateKey::Import, owned("(use_declaration) @match")));
    queries.push((PredicateKey::Call, owned("(call_expression function: [ (identifier) @match (field_expression field: (field_identifier) @match) (scoped_identifier name: (identifier) @match) ])")));
    queries.push((PredicateKey::Comment, owned("[ (line_comment) @match (block_comment) @match ]")));
    queries.push((PredicateKey::Str, owned("[ (string_literal) @match (raw_string_literal) @match ]")));

    let p = LanguageProfile { name: owned("Rust"), extensions: vec![owned("rs")], queries };
    assert(views(p.extensions@) =~= seq!["rs"@]);
    assert(profile_keys(p) =~= rust_keys());
    assert(query_views(p.queries@) =~= rust_queries());
    p
}


// ---------------------------------------------------------------------------
// Registry and catalog
// ---------------------------------------------------------------------------

/// The aliases under which profiles are registered, in registration order.
pub open spec fn registry_aliases() -> Seq<Seq<char>> {
    seq!["c"@, "php"@, "ex"@, "exs"@, "lua"@, "ml"@, "mli"@, "scala"@, "swift"@, "rs"@, "py"@, "go"@, "ts"@, "jsx"@, "tsx"@]
}

/// The registry by view: each alias with the name, extensions and
/// predicate keys of the profile it selects.
pub open spec fn registry_view() -> Seq<(Seq<char>, Seq<char>, Seq<Seq<char>>, Seq<PredicateKey>)> {
    seq![
        ("c"@, "C"@, seq!["c"@, "h"@], c_keys()),
        ("php"@, "PHP"@, seq!["php"@, "phtml"@], php_keys()),
        ("ex"@, "Elixir"@, seq!["ex"@, "exs"@], elixir_keys()),
        ("exs"@, "Elixir"@, seq!["ex"@, "exs"@], elixir_keys()),
        ("lua"@, "Lua"@, seq!["lua"@], lua_keys()),
        ("ml"@, "OCaml"@, seq!["ml"@, "mli"@], ocaml_keys()),
        ("mli"@, "OCaml"@, seq!["ml"@, "mli"@], ocaml_keys()),
        ("scala"@, "Scala"@, seq!["scala"@], scala_keys()),
        ("swift"@, "Swift"@, seq!["swift"@], swift_keys()),
        ("rs"@, "Rust"@, seq!["rs"@], rust_keys()),
        ("py"@, "Python"@, seq!["py"@], python_keys()),
        ("go"@, "Go"@, seq!["go"@], go_keys()),
        ("ts"@, "TypeScript"@, seq!["ts"@], typescript_keys()),
        ("jsx"@, "React"@, seq!["jsx"@, "tsx"@], react_keys()),
        ("tsx"@, "React"@, seq!["jsx"@, "tsx"@], react_keys()),
    ]
}

/// The queries of the profile each alias of [`registry_view`] selects.
pub open spec fn registry_queries() -> Seq<Seq<(PredicateKey, Seq<char>)>> {
    seq![
        c_queries(),
        php_queries(),
        elixir_queries(),
        elixir_queries(),
        lua_queries(),
        ocaml_queries(),
        ocaml_queries(),
        scala_queries(),
        swift_queries(),
        rust_queries(),
        python_queries(),
        go_queries(),
        typescript_queries(),
        react_queries(),
        react_queries(),
    ]
}

/// The built-in registry, by view: its aliases, profile names, extensions
/// and predicate keys are those of [`registry_view`], and its queries those
/// of [`registry_queries`].
pub open spec fn registry_like(r: Seq<(String, LanguageProfile)>) -> bool {
    &&& r.len() == registry_view().len()
    &&& forall|i: int|
        0 <= i < r.len() ==> (#[trigger] r[i]).0@ == registry_view()[i].0 && r[i].1.name@ == registry_view()[i].1
            && views(r[i].1.extensions@) == registry_view()[i].2 && profile_keys(r[i].1) == registry_view()[i].3
            && query_views(r[i].1.queries@) == registry_queries()[i]
}

/// Every registered profile with the alias (file extension or key) that
/// selects it.
pub fn language_profiles() -> (v: Vec<(String, LanguageProfile)>)
    ensures
        v@.map_values(|e: (String, LanguageProfile)| e.0@) == registry_aliases(),
        registry_like(v@),
{
    let mut v: Vec<(String, LanguageProfile)> = Vec::new();
    v.push((owned("c"), create_c_profile()));
    v.push((owned("php"), create_php_profile()));
    v.push((owned("ex"), create_elixir_profile()));
    v.push((owned("exs"), create_elixir_profile()));
    v.push((owned("lua"), create_lua_profile()));
    v.push((owned("ml"), create_ocaml_profile()));
    v.push((owned("mli"), create_ocaml_profile()));
    v.push((owned("scala"), create_scala_profile()));
    v.push((owned("swift"), create_swift_profile()));
    v.push((owned("rs"), create_rust_profile()));
    v.push((owned("py"), create_python_profile()));
    v.push((owned("go"), create_go_profile()));
    v.push((owned("ts"), create_typescript_profile()));
    v.push((owned("jsx"), create_react_profile()));
    v.push((owned("tsx"), create_react_profile()));
    assert(v@.map_values(|e: (String, LanguageProfile)| e.0@) =~= registry_aliases());
    assert forall|i: int| 0 <= i < v@.len() implies (#[trigger] v@[i]).0@ == registry_view()[i].0
        && v@[i].1.name@ == registry_view()[i].1 && views(v@[i].1.extensions@) == registry_view()[i].2
        && profile_keys(v@[i].1) == registry_view()[i].3 && query_views(v@[i].1.queries@) == registry_queries()[i] by {
        assert(v@.map_values(|e: (String, LanguageProfile)| e.0@)[i] == registry_aliases()[i]);
    }
    v
}

/// All registered profiles.
pub fn list_language_profiles() -> (v: Vec<LanguageProfile>)
    ensures
        v@.len() == registry_aliases().len(),
{
    let reg = language_profiles();
    let mut v: Vec<LanguageProfile> = Vec::new();
    let mut i: usize = 0;
    while i < reg.len()
        invariant
            i <= reg.len(),
            v@.len() == i,
        decreases reg.len() - i,
    {
        v.push(clone_profile(&reg[i].1));
        i = i + 1;
    }
    assert(reg@.map_values(|e: (String, LanguageProfile)| e.0@).len() == reg@.len());
    v
}

/// The views of a profile's queries.
pub open spec fn query_views(qs: Seq<(PredicateKey, String)>) -> Seq<(PredicateKey, Seq<char>)> {
    qs.map_values(|q: (PredicateKey, String)| (q.0, q.1@))
}

/// The view of a profile.
pub open spec fn profile_view(p: LanguageProfile) -> (Seq<char>, Seq<Seq<char>>, Seq<(PredicateKey, Seq<char>)>) {
    (p.name@, views(p.extensions@), query_views(p.queries@))
}

/// Copies a profile.
pub fn clone_profile(p: &LanguageProfile) -> (r: LanguageProfile)
    ensures
        profile_view(r) == profile_view(*p),
{
    let mut queries: Vec<(PredicateKey, String)> = Vec::new();
    let mut i: usize = 0;
    while i < p.queries.len()
        invariant
            i <= p.queries.len(),
            query_views(queries@) == query_views(p.queries@.take(i as int)),
        decreases p.queries.len() - i,
    {
        let entry = (p.queries[i].0, p.queries[i].1.clone());
        assert(entry.0 == p.queries@[i as int].0 && entry.1@ == p.queries@[i as int].1@);
        let ghost prev = queries@;
        queries.push(entry);
        proof {
            assert(query_views(queries@) =~= query_views(prev).push((entry.0, entry.1@)));
            assert(query_views(p.queries@.take(i + 1)) =~= query_views(p.queries@.take(i as int)).push(
                (entry.0, entry.1@),
            ));
        }
        i = i + 1;
    }
    assert(p.queries@.take(i as int) =~= p.queries@);
    LanguageProfile {
        name: p.name.clone(),
        extensions: crate::request::clone_strings(&p.extensions),
        queries,
    }
}

/// The support tier of a language: html, css and sql are partial; hs, ml,
/// swift and scala are experimental; the rest are stable.
pub open spec fn support_tier_spec(id: Seq<char>) -> LanguageSupportTier {
    if id == "html"@ || id == "css"@ || id == "sql"@ {
        LanguageSupportTier::Partial
    } else if id == "hs"@ || id == "ml"@ || id == "swift"@ || id == "scala"@ {
        LanguageSupportTier::Experimental
    } else {
        LanguageSupportTier::Stable
    }
}

/// The support tier of a language id.
pub fn support_tier_for_id(id: &str) -> (t: LanguageSupportTier)
    ensures
        t == support_tier_spec(id@),
{
    if crate::text::str_eq(id, "html") || crate::text::str_eq(id, "css") || crate::text::str_eq(id, "sql") {
        LanguageSupportTier::Partial
    } else if crate::text::str_eq(id, "hs") || crate::text::str_eq(id, "ml") || crate::text::str_eq(id, "swift")
        || crate::text::str_eq(id, "scala") {
        LanguageSupportTier::Experimental
    } else {
        LanguageSupportTier::Stable
    }
}

/// The lowercase label of a support tier.
pub open spec fn tier_label(t: LanguageSupportTier) -> Seq<char> {
    match t {
        LanguageSupportTier::Stable => "stable"@,
        LanguageSupportTier::Partial => "partial"@,
        LanguageSupportTier::Experimental => "experimental"@,
    }
}

/// The lowercase label of a support tier.
pub fn tier_text(t: LanguageSupportTier) -> (s: &'static str)
    ensures
        s@ == tier_label(t),
{
    match t {
        LanguageSupportTier::Stable => "stable",
        LanguageSupportTier::Partial => "partial",
        LanguageSupportTier::Experimental => "experimental",
    }
}

/// The caveat recorded for a language id, if any.
pub open spec fn caveat_for(id: Seq<char>) -> Option<Seq<char>> {
    if id == "html"@ {
        Some("HTML semantic coverage is partial and focuses on structural nodes rather than browser/runtime behavior."@)
    } else if id == "css"@ {
        Some("CSS semantic coverage is partial and focuses on selectors and declarations, not cascade resolution."@)
    } else if id == "sql"@ || id == "sqlgeneric"@ || id == "sqlpostgres"@ || id == "sqlmysql"@ || id
        == "sqlsqlite"@ {
        Some(
            "SQL dialect selection is heuristic unless overridden; enable strict mode to fail instead of falling back."@,
        )
    } else if id == "jsx"@ || id == "tsx"@ {
        Some(
            "React-specific predicates are only available on JSX/TSX profiles and remain more permissive than language-core predicates."@,
        )
    } else if id == "hs"@ || id == "ml"@ || id == "swift"@ || id == "scala"@ {
        Some("This profile is experimental; expect narrower predicate coverage and fewer regression fixtures."@)
    } else {
        None
    }
}

/// The semantic caveats of a language id: its recorded caveat, then a note
/// when its support tier is partial.
pub open spec fn caveats_spec(id: Seq<char>) -> Seq<Seq<char>> {
    (match caveat_for(id) {
        Some(c) => seq![c],
        None => Seq::empty(),
    }) + (if support_tier_spec(id) == LanguageSupportTier::Partial {
        seq!["Support tier is partial; some language constructs may not produce semantic captures yet."@]
    } else {
        Seq::empty()
    })
}

/// The semantic caveats of a language id.
pub fn semantic_caveats_for_id(id: &str) -> (v: Vec<String>)
    ensures
        views(v@) == caveats_spec(id@),
{
    let mut v: Vec<String> = Vec::new();
    if crate::text::str_eq(id, "html") {
        v.push(owned("HTML semantic coverage is partial and focuses on structural nodes rather than browser/runtime behavior."));
    } else if crate::text::str_eq(id, "css") {
        v.push(owned("CSS semantic coverage is partial and focuses on selectors and declarations, not cascade resolution."));
    } else if crate::text::str_eq(id, "sql") || crate::text::str_eq(id, "sqlgeneric") || crate::text::str_eq(
        id,
        "sqlpostgres",
    ) || crate::text::str_eq(id, "sqlmysql") || crate::text::str_eq(id, "sqlsqlite") {
        v.push(owned("SQL dialect selection is heuristic unless overridden; enable strict mode to fail instead of falling back."));
    } else if crate::text::str_eq(id, "jsx") || crate::text::str_eq(id, "tsx") {
        v.push(owned("React-specific predicates are only available on JSX/TSX profiles and remain more permissive than language-core predicates."));
    } else if crate::text::str_eq(id, "hs") || crate::text::str_eq(id, "ml") || crate::text::str_eq(id, "swift")
        || crate::text::str_eq(id, "scala") {
        v.push(owned("This profile is experimental; expect narrower predicate coverage and fewer regression fixtures."));
    }
    let ghost first = views(v@);
    if support_tier_for_id(id) == LanguageSupportTier::Partial {
        v.push(owned("Support tier is partial; some language constructs may not produce semantic captures yet."));
    }
    assert(views(v@) =~= caveats_spec(id@));
    v
}

/// How a semantic predicate matches captured text.
pub open spec fn matching_rule_spec(k: PredicateKey) -> Seq<char> {
    match k {
        PredicateKey::Import | PredicateKey::Comment | PredicateKey::Str | PredicateKey::Call =>
            "Substring match against captured text by default. `semantic_match_mode` can tighten this to exact, prefix, regex, or wildcard semantics."@,
        PredicateKey::Hook | PredicateKey::CustomHook =>
            "Exact match by default, with `.` accepted as the broad wildcard. `semantic_match_mode=wildcard` enables shell-style `*` matching."@,
        _ =>
            "Exact match by default, with `.` accepted as the broad wildcard. `semantic_match_mode` can switch to case-insensitive, prefix, regex, or wildcard behavior."@,
    }
}

/// How a semantic predicate matches captured text.
pub fn predicate_matching_rule(predicate: &PredicateKey) -> (s: &'static str)
    ensures
        s@ == matching_rule_spec(*predicate),
{
    match predicate {
        PredicateKey::Import | PredicateKey::Comment | PredicateKey::Str | PredicateKey::Call =>
            "Substring match against captured text by default. `semantic_match_mode` can tighten this to exact, prefix, regex, or wildcard semantics.",
        PredicateKey::Hook | PredicateKey::CustomHook =>
            "Exact match by default, with `.` accepted as the broad wildcard. `semantic_match_mode=wildcard` enables shell-style `*` matching.",
        _ =>
            "Exact match by default, with `.` accepted as the broad wildcard. `semantic_match_mode` can switch to case-insensitive, prefix, regex, or wildcard behavior.",
    }
}

/// The profile registered under an alias (a file extension or SQL key).
pub fn get_profile(key: &str) -> (r: Option<LanguageProfile>)
    ensures
        r is Some <==> registry_aliases().contains(key@),
{
    let registry = language_profiles();
    let ghost aliases = registry@.map_values(|e: (String, LanguageProfile)| e.0@);
    let mut i: usize = 0;
    while i < registry.len()
        invariant
            i <= registry.len(),
            aliases == registry@.map_values(|e: (String, LanguageProfile)| e.0@),
            aliases == registry_aliases(),
            forall|j: int| 0 <= j < i ==> #[trigger] aliases[j] != key@,
        decreases registry.len() - i,
    {
        if crate::text::str_eq(registry[i].0.as_str(), key) {
            assert(aliases[i as int] == key@);
            return Some(clone_profile(&registry[i].1));
        }
        i = i + 1;
    }
    proof {
        if aliases.contains(key@) {
            let j = choose|j: int| 0 <= j < aliases.len() && aliases[j] == key@;
            assert(aliases[j] != key@);
        }
    }
    None
}

/// The canonical id of a registered profile: a SQL key is its own id;
/// otherwise the profile's first extension (or the alias when it has none).
pub open spec fn canonical_id_spec(alias: Seq<char>, profile: LanguageProfile) -> Seq<char> {
    if crate::text::starts_with_spec(alias, "sql"@) {
        alias
    } else if profile.extensions@.len() > 0 {
        profile.extensions@[0]@
    } else {
        alias
    }
}

/// The canonical id of a registered profile.
pub fn canonical_profile_id(alias: &str, profile: &LanguageProfile) -> (id: String)
    ensures
        id@ == canonical_id_spec(alias@, *profile),
{
    if crate::text::str_starts_with(alias, "sql") {
        owned(alias)
    } else if profile.extensions.len() > 0 {
        profile.extensions[0].clone()
    } else {
        owned(alias)
    }
}


/// A language in the catalog: its canonical id, its profile, and every
/// alias that selects it.
#[derive(Debug, Clone)]
pub struct CanonicalLanguageProfile {
    pub id: String,
    pub profile: LanguageProfile,
    pub aliases: Vec<String>,
}

/// A registry of profiles by alias.
pub type Registry = Vec<(String, LanguageProfile)>;

/// Index of the first registry entry with alias `a`, or -1.
pub open spec fn registry_index(r: Seq<(String, LanguageProfile)>, a: Seq<char>) -> int
    decreases r.len(),
{
    if r.len() == 0 {
        -1
    } else if r[0].0@ == a {
        0
    } else {
        let k = registry_index(r.drop_first(), a);
        if k < 0 {
            -1
        } else {
            k + 1
        }
    }
}

/// The aliases of the registry whose canonical id is `id`, in order.
pub open spec fn aliases_for(r: Seq<(String, LanguageProfile)>, id: Seq<char>) -> Seq<Seq<char>>
    decreases r.len(),
{
    if r.len() == 0 {
        Seq::empty()
    } else {
        aliases_for(r.drop_last(), id) + if canonical_id_spec(r.last().0@, r.last().1) == id {
            seq![r.last().0@]
        } else {
            Seq::<Seq<char>>::empty()
        }
    }
}

/// Catalog order: by display name, then by id.
pub open spec fn catalog_before(a: CanonicalLanguageProfile, b: CanonicalLanguageProfile) -> bool {
    seq_lt(a.profile.name@, b.profile.name@) || (a.profile.name@ == b.profile.name@ && seq_lt(a.id@, b.id@))
}

/// `e` is the catalog entry for its id.
pub open spec fn catalog_entry_ok(r: Seq<(String, LanguageProfile)>, e: CanonicalLanguageProfile) -> bool {
    let k = registry_index(r, e.id@);
    &&& 0 <= k < r.len()
    &&& profile_view(e.profile) == profile_view(r[k].1)
    &&& views(e.aliases@) == sort_unique(aliases_for(r, e.id@))
    &&& aliases_for(r, e.id@).len() > 0
}

/// Facts about [`registry_index`].
proof fn lemma_registry_index(r: Seq<(String, LanguageProfile)>, a: Seq<char>)
    ensures
        -1 <= registry_index(r, a) < r.len(),
        registry_index(r, a) >= 0 ==> r[registry_index(r, a)].0@ == a,
        registry_index(r, a) < 0 ==> forall|j: int| 0 <= j < r.len() ==> #[trigger] r[j].0@ != a,
        registry_index(r, a) >= 0 ==> forall|j: int| 0 <= j < registry_index(r, a) ==> #[trigger] r[j].0@ != a,
    decreases r.len(),
{
    if r.len() > 0 {
        lemma_registry_index(r.drop_first(), a);
        assert forall|j: int| 1 <= j < r.len() implies #[trigger] r[j].0@ == r.drop_first()[j - 1].0@ by {}
    }
}

/// Finds the first registry entry with alias `a`.
fn find_registry(r: &Registry, a: &str) -> (k: Option<usize>)
    ensures
        match k {
            Some(i) => i == registry_index(r@, a@),
            None => registry_index(r@, a@) < 0,
        },
{
    proof {
        lemma_registry_index(r@, a@);
    }
    let mut i: usize = 0;
    while i < r.len()
        invariant
            i <= r.len(),
            forall|j: int| 0 <= j < i ==> #[trigger] r@[j].0@ != a@,
            -1 <= registry_index(r@, a@) < r@.len(),
            registry_index(r@, a@) >= 0 ==> r@[registry_index(r@, a@)].0@ == a@,
            registry_index(r@, a@) >= 0 ==> forall|j: int| 0 <= j < registry_index(r@, a@) ==> #[trigger] r@[j].0@ != a@,
            registry_index(r@, a@) < 0 ==> forall|j: int| 0 <= j < r@.len() ==> #[trigger] r@[j].0@ != a@,
        decreases r.len() - i,
    {
        if crate::text::str_eq(r[i].0.as_str(), a) {
            proof {
                assert(r@[i as int].0@ == a@);
                let k = registry_index(r@, a@);
                if k >= 0 && k > i {
                    assert(r@[i as int].0@ != a@);
                }
            }
            return Some(i);
        }
        i = i + 1;
    }
    None
}

/// The aliases grouped by canonical id, in order of first appearance.
pub open spec fn groups_ok(groups: Seq<(String, Vec<String>)>, r: Seq<(String, LanguageProfile)>) -> bool {
    &&& forall|g: int| 0 <= g < groups.len() ==> views(#[trigger] groups[g].1@) == aliases_for(r, groups[g].0@)
        && aliases_for(r, groups[g].0@).len() > 0
    &&& forall|g: int, h: int| 0 <= g < h < groups.len() ==> #[trigger] groups[g].0@ != #[trigger] groups[h].0@
    &&& forall|id: Seq<char>|
        aliases_for(r, id).len() > 0 ==> exists|g: int| 0 <= g < groups.len() && #[trigger] groups[g].0@ == id
}

/// Groups the registry aliases by canonical id.
#[verifier::spinoff_prover]
#[verifier::rlimit(100)]
fn group_aliases(r: &Registry) -> (groups: Vec<(String, Vec<String>)>)
    ensures
        groups_ok(groups@, r@),
{
    let mut groups: Vec<(String, Vec<String>)> = Vec::new();
    let mut i: usize = 0;
    while i < r.len()
        invariant
            i <= r.len(),
            groups_ok(groups@, r@.take(i as int)),
        decreases r.len() - i,
    {
        let ghost prev = r@.take(i as int);
        let ghost next = r@.take(i + 1);
        proof {
            assert(next.drop_last() =~= prev);
            assert(next.last() == r@[i as int]);
        }
        let id = canonical_profile_id(r[i].0.as_str(), &r[i].1);
        let alias = r[i].0.clone();
        let mut g: usize = 0;
        while g < groups.len() && !crate::text::str_eq(groups[g].0.as_str(), id.as_str())
            invariant
                g <= groups.len(),
                forall|j: int| 0 <= j < g ==> groups@[j].0@ != id@,
            decreases groups.len() - g,
        {
            g = g + 1;
        }
        let ghost before = groups@;
        if g < groups.len() {
            let mut members = crate::request::clone_strings(&groups[g].1);
            let ghost m0 = members@;
            members.push(alias);
            proof {
                crate::text::lemma_views_push(m0, members@.last());
            }
            let key = groups[g].0.clone();
            groups.set(g, (key, members));
            proof {
                assert forall|x: int| 0 <= x < groups@.len() implies views(#[trigger] groups@[x].1@) == aliases_for(
                    next,
                    groups@[x].0@,
                ) && aliases_for(next, groups@[x].0@).len() > 0 by {
                    assert(aliases_for(next, groups@[x].0@) == aliases_for(prev, groups@[x].0@) + (if canonical_id_spec(
                        next.last().0@,
                        next.last().1,
                    ) == groups@[x].0@ {
                        seq![next.last().0@]
                    } else {
                        Seq::<Seq<char>>::empty()
                    }));
                    if x != g {
                        assert(groups@[x] == before[x]);
                        assert(before[x].0@ != before[g as int].0@);
                    }
                }
                assert forall|x: int, y: int| 0 <= x < y < groups@.len() implies #[trigger] groups@[x].0@
                    != #[trigger] groups@[y].0@ by {
                    assert(groups@[x].0@ == before[x].0@);
                    assert(groups@[y].0@ == before[y].0@);
                }
                assert forall|idv: Seq<char>| aliases_for(next, idv).len() > 0 implies exists|x: int|
                    0 <= x < groups@.len() && #[trigger] groups@[x].0@ == idv by {
                    if aliases_for(prev, idv).len() > 0 {
                        let x = choose|x: int| 0 <= x < before.len() && #[trigger] before[x].0@ == idv;
                        assert(groups@[x].0@ == idv);
                    } else {
                        assert(groups@[g as int].0@ == idv);
                    }
                }
                assert(groups_ok(groups@, next));
            }
        } else {
            let members = vec![alias];
            proof {
                assert(views(members@) =~= seq![r@[i as int].0@]);
            }
            groups.push((id, members));
            proof {
                assert(aliases_for(prev, id@) =~= Seq::<Seq<char>>::empty()) by {
                    if aliases_for(prev, id@).len() > 0 {
                        let x = choose|x: int| 0 <= x < before.len() && #[trigger] before[x].0@ == id@;
                    }
                }
                assert forall|x: int| 0 <= x < groups@.len() implies views(#[trigger] groups@[x].1@) == aliases_for(
                    next,
                    groups@[x].0@,
                ) && aliases_for(next, groups@[x].0@).len() > 0 by {
                    assert(aliases_for(next, groups@[x].0@) == aliases_for(prev, groups@[x].0@) + (if canonical_id_spec(
                        next.last().0@,
                        next.last().1,
                    ) == groups@[x].0@ {
                        seq![next.last().0@]
                    } else {
                        Seq::<Seq<char>>::empty()
                    }));
                    if x < before.len() {
                        assert(groups@[x] == before[x]);
                        assert(before[x].0@ != id@);
                    } else {
                        assert(aliases_for(next, id@) =~= seq![r@[i as int].0@]);
                    }
                }
                assert forall|x: int, y: int| 0 <= x < y < groups@.len() implies #[trigger] groups@[x].0@
                    != #[trigger] groups@[y].0@ by {
                    if y < before.len() {
                        assert(groups@[x] == before[x]);
                        assert(groups@[y] == before[y]);
                    } else {
                        assert(groups@[x] == before[x]);
                    }
                }
                assert forall|idv: Seq<char>| aliases_for(next, idv).len() > 0 implies exists|x: int|
                    0 <= x < groups@.len() && #[trigger] groups@[x].0@ == idv by {
                    if aliases_for(prev, idv).len() > 0 {
                        let x = choose|x: int| 0 <= x < before.len() && #[trigger] before[x].0@ == idv;
                        assert(groups@[x].0@ == idv);
                    } else {
                        assert(groups@[before.len() as int].0@ == idv);
                    }
                }
                assert(forall|g: int| 0 <= g < groups@.len() ==> views(#[trigger] groups@[g].1@) == aliases_for(next, groups@[g].0@)
                    && aliases_for(next, groups@[g].0@).len() > 0);
                assert(forall|g: int, h: int| 0 <= g < h < groups@.len() ==> #[trigger] groups@[g].0@ != #[trigger] groups@[h].0@);
                assert(groups_ok(groups@, next));
            }
        }
        i = i + 1;
    }
    proof {
        assert(r@.take(i as int) =~= r@);
    }
    groups
}

/// Catalog order is a strict total order on entries with distinct ids.
proof fn lemma_catalog_order(a: CanonicalLanguageProfile, b: CanonicalLanguageProfile, c: CanonicalLanguageProfile)
    ensures
        catalog_before(a, b) ==> !catalog_before(b, a),
        a.id@ != b.id@ ==> catalog_before(a, b) || catalog_before(b, a),
        catalog_before(a, b) && catalog_before(b, c) ==> catalog_before(a, c),
{
    crate::text::lemma_seq_lt_asym(a.profile.name@, b.profile.name@);
    crate::text::lemma_seq_lt_asym(a.id@, b.id@);
    crate::text::lemma_seq_lt_total(a.profile.name@, b.profile.name@);
    crate::text::lemma_seq_lt_total(a.id@, b.id@);
    if catalog_before(a, b) && catalog_before(b, c) {
        if seq_lt(a.profile.name@, b.profile.name@) && seq_lt(b.profile.name@, c.profile.name@) {
            crate::text::lemma_seq_lt_trans(a.profile.name@, b.profile.name@, c.profile.name@);
        }
        if a.profile.name@ == b.profile.name@ && b.profile.name@ == c.profile.name@ {
            crate::text::lemma_seq_lt_trans(a.id@, b.id@, c.id@);
        }
    }
}

/// Whether `a` comes before `b` in the catalog.
fn catalog_less(a: &CanonicalLanguageProfile, b: &CanonicalLanguageProfile) -> (r: bool)
    ensures
        r == catalog_before(*a, *b),
{
    crate::text::str_less(a.profile.name.as_str(), b.profile.name.as_str()) || (crate::text::str_eq(
        a.profile.name.as_str(),
        b.profile.name.as_str(),
    ) && crate::text::str_less(a.id.as_str(), b.id.as_str()))
}

/// Inserts an entry with a new id at its place in a sorted catalog.
fn insert_catalog_entry(sorted: &mut Vec<CanonicalLanguageProfile>, entry: CanonicalLanguageProfile) -> (pos: usize)
    requires
        forall|i: int, j: int|
            0 <= i < j < old(sorted)@.len() ==> catalog_before(#[trigger] old(sorted)@[i], #[trigger] old(sorted)@[j]),
        forall|j: int| 0 <= j < old(sorted)@.len() ==> #[trigger] old(sorted)@[j].id@ != entry.id@,
    ensures
        pos <= old(sorted)@.len(),
        final(sorted)@ == old(sorted)@.insert(pos as int, entry),
        forall|i: int, j: int|
            0 <= i < j < final(sorted)@.len() ==> catalog_before(#[trigger] final(sorted)@[i], #[trigger] final(sorted)@[j]),
{
    let mut pos: usize = 0;
    while pos < sorted.len() && catalog_less(&sorted[pos], &entry)
        invariant
            pos <= sorted.len(),
            sorted@ == old(sorted)@,
            forall|j: int| 0 <= j < pos ==> catalog_before(#[trigger] sorted@[j], entry),
        decreases sorted.len() - pos,
    {
        pos = pos + 1;
    }
    let ghost before = sorted@;
    proof {
        if pos < before.len() {
            lemma_catalog_order(before[pos as int], entry, entry);
            assert forall|j: int| pos <= j < before.len() implies catalog_before(entry, #[trigger] before[j]) by {
                if j > pos {
                    lemma_catalog_order(entry, before[pos as int], before[j]);
                }
            }
        }
    }
    let ghost e = entry;
    sorted.insert(pos, entry);
    proof {
        assert forall|a: int, b: int| 0 <= a < b < sorted@.len() implies catalog_before(
            #[trigger] sorted@[a],
            #[trigger] sorted@[b],
        ) by {
            if b < pos {
                assert(sorted@[a] == before[a] && sorted@[b] == before[b]);
            } else if b == pos {
                assert(sorted@[a] == before[a]);
            } else if a < pos {
                assert(sorted@[a] == before[a] && sorted@[b] == before[b - 1]);
                lemma_catalog_order(before[a], e, before[b - 1]);
            } else if a == pos {
                assert(sorted@[b] == before[b - 1]);
            } else {
                assert(sorted@[a] == before[a - 1] && sorted@[b] == before[b - 1]);
            }
        }
    }
    pos
}

/// The deduplicated language catalog of a registry, sorted by name then
/// id: one entry per canonical id that is itself registered, with the
/// profile registered under that id and all its aliases.
#[verifier::spinoff_prover]
#[verifier::rlimit(100)]
pub fn canonical_catalog(r: &Registry) -> (c: Vec<CanonicalLanguageProfile>)
    ensures
        forall|i: int, j: int| 0 <= i < j < c@.len() ==> catalog_before(#[trigger] c@[i], #[trigger] c@[j]),
        forall|i: int| 0 <= i < c@.len() ==> catalog_entry_ok(r@, #[trigger] c@[i]),
        forall|k: int|
            0 <= k < r@.len() && registry_index(r@, canonical_id_spec(r@[k].0@, r@[k].1)) >= 0 ==> exists|i: int|
                0 <= i < c@.len() && #[trigger] c@[i].id@ == canonical_id_spec(#[trigger] r@[k].0@, r@[k].1),
{
    let groups = group_aliases(r);
    let mut sorted: Vec<CanonicalLanguageProfile> = Vec::new();
    let mut gi: usize = 0;
    while gi < groups.len()
        invariant
            gi <= groups.len(),
            groups_ok(groups@, r@),
            forall|i: int, j: int| 0 <= i < j < sorted@.len() ==> catalog_before(#[trigger] sorted@[i], #[trigger] sorted@[j]),
            forall|i: int| 0 <= i < sorted@.len() ==> catalog_entry_ok(r@, #[trigger] sorted@[i]),
            forall|i: int|
                #![trigger sorted@[i]]
                0 <= i < sorted@.len() ==> exists|g: int| 0 <= g < gi && #[trigger] groups@[g].0@ == sorted@[i].id@,
            forall|g: int|
                0 <= g < gi && registry_index(r@, #[trigger] groups@[g].0@) >= 0 ==> exists|i: int|
                    0 <= i < sorted@.len() && #[trigger] sorted@[i].id@ == groups@[g].0@,
        decreases groups.len() - gi,
    {
        let found = find_registry(r, groups[gi].0.as_str());
        match found {
            None => {},
            Some(k) => {
                proof {
                    lemma_registry_index(r@, groups@[gi as int].0@);
                }
                let entry = CanonicalLanguageProfile {
                    id: groups[gi].0.clone(),
                    profile: clone_profile(&r[k].1),
                    aliases: sort_dedup(&groups[gi].1),
                };
                let ghost before = sorted@;
                proof {
                    assert forall|j: int| 0 <= j < before.len() implies #[trigger] before[j].id@ != entry.id@ by {
                        let g = choose|g: int| 0 <= g < gi && #[trigger] groups@[g].0@ == before[j].id@;
                        assert(groups@[g].0@ != groups@[gi as int].0@);
                    }
                }
                let ghost e = entry;
                let pos = insert_catalog_entry(&mut sorted, entry);
                proof {
                    assert forall|i: int| 0 <= i < sorted@.len() implies catalog_entry_ok(r@, #[trigger] sorted@[i]) by {
                        if i < pos {
                            assert(sorted@[i] == before[i]);
                        } else if i > pos {
                            assert(sorted@[i] == before[i - 1]);
                        }
                    }
                    assert forall|i: int| #![trigger sorted@[i]] 0 <= i < sorted@.len() implies exists|g: int|
                        0 <= g < gi + 1 && #[trigger] groups@[g].0@ == sorted@[i].id@ by {
                        if i < pos {
                            assert(sorted@[i] == before[i]);
                        } else if i > pos {
                            assert(sorted@[i] == before[i - 1]);
                        } else {
                            assert(groups@[gi as int].0@ == sorted@[i].id@);
                        }
                    }
                    assert forall|g: int|
                        0 <= g < gi + 1 && registry_index(r@, #[trigger] groups@[g].0@) >= 0 implies exists|i: int|
                        0 <= i < sorted@.len() && #[trigger] sorted@[i].id@ == groups@[g].0@ by {
                        if g < gi {
                            let i = choose|i: int| 0 <= i < before.len() && #[trigger] before[i].id@ == groups@[g].0@;
                            if i < pos {
                                assert(sorted@[i] == before[i]);
                            } else {
                                assert(sorted@[i + 1] == before[i]);
                            }
                        } else {
                            assert(sorted@[pos as int].id@ == groups@[g].0@);
                        }
                    }
                }
            },
        }
        gi = gi + 1;
    }
    proof {
        assert forall|k: int|
            0 <= k < r@.len() && registry_index(r@, canonical_id_spec(r@[k].0@, r@[k].1)) >= 0 implies exists|i: int|
            0 <= i < sorted@.len() && #[trigger] sorted@[i].id@ == canonical_id_spec(#[trigger] r@[k].0@, r@[k].1) by {
            let idv = canonical_id_spec(r@[k].0@, r@[k].1);
            lemma_aliases_for_contains(r@, k, idv);
            let g = choose|g: int| 0 <= g < groups@.len() && #[trigger] groups@[g].0@ == idv;
            let i = choose|i: int| 0 <= i < sorted@.len() && #[trigger] sorted@[i].id@ == groups@[g].0@;
        }
    }
    sorted
}

/// An alias whose canonical id is `id` makes `aliases_for` non-empty.
proof fn lemma_aliases_for_contains(r: Seq<(String, LanguageProfile)>, k: int, id: Seq<char>)
    requires
        0 <= k < r.len(),
        canonical_id_spec(r[k].0@, r[k].1) == id,
    ensures
        aliases_for(r, id).len() > 0,
    decreases r.len(),
{
    if k < r.len() - 1 {
        lemma_aliases_for_contains(r.drop_last(), k, id);
    }
}

/// `c` is the catalog of registry `r`: sorted, each entry the one of its
/// id, and every canonical id of a registered alias present.
pub open spec fn catalog_of(r: Seq<(String, LanguageProfile)>, c: Seq<CanonicalLanguageProfile>) -> bool {
    &&& forall|i: int, j: int| 0 <= i < j < c.len() ==> catalog_before(#[trigger] c[i], #[trigger] c[j])
    &&& forall|i: int| 0 <= i < c.len() ==> catalog_entry_ok(r, #[trigger] c[i])
    &&& forall|k: int|
        0 <= k < r.len() && registry_index(r, canonical_id_spec(r[k].0@, r[k].1)) >= 0 ==> exists|i: int|
            0 <= i < c.len() && #[trigger] c[i].id@ == canonical_id_spec(#[trigger] r[k].0@, r[k].1)
}

/// The canonical ids of the built-in registry, each with the index of the
/// registry entry whose alias it is.
pub open spec fn builtin_canonical_ids() -> Seq<(Seq<char>, int)> {
    seq![
        ("c"@, 0),
        ("php"@, 1),
        ("ex"@, 2),
        ("lua"@, 4),
        ("ml"@, 5),
        ("scala"@, 7),
        ("swift"@, 8),
        ("rs"@, 9),
        ("py"@, 10),
        ("go"@, 11),
        ("ts"@, 12),
        ("jsx"@, 13),
    ]
}

/// Some entry of catalog `c` has id `id`.
pub open spec fn catalog_has_id(c: Seq<CanonicalLanguageProfile>, id: Seq<char>) -> bool {
    exists|i: int| 0 <= i < c.len() && #[trigger] c[i].id@ == id
}

/// A catalog of the built-in registry lists every built-in language, and
/// none twice.
pub proof fn lemma_builtin_catalog_complete(r: Seq<(String, LanguageProfile)>, c: Seq<CanonicalLanguageProfile>)
    requires
        registry_like(r),
        catalog_of(r, c),
    ensures
        forall|j: int| 0 <= j < builtin_canonical_ids().len() ==> catalog_has_id(c, #[trigger] builtin_canonical_ids()[j].0),
        forall|i: int, j: int| 0 <= i < j < c.len() ==> (#[trigger] c[i]).id@ != (#[trigger] c[j]).id@,
{
    reveal_strlit("sql");
    reveal_strlit("c");
    reveal_strlit("php");
    reveal_strlit("ex");
    reveal_strlit("lua");
    reveal_strlit("ml");
    reveal_strlit("scala");
    reveal_strlit("swift");
    reveal_strlit("rs");
    reveal_strlit("py");
    reveal_strlit("go");
    reveal_strlit("ts");
    reveal_strlit("jsx");
    assert forall|j: int| 0 <= j < builtin_canonical_ids().len() implies catalog_has_id(c, #[trigger] builtin_canonical_ids()[j].0) by {
        let id = builtin_canonical_ids()[j].0;
        let k = builtin_canonical_ids()[j].1;
        assert(0 <= k < r.len());
        assert(r[k].0@ == id);
        assert(views(r[k].1.extensions@) == registry_view()[k].2);
        assert(views(r[k].1.extensions@)[0] == r[k].1.extensions@[0]@);
        assert(r[k].1.extensions@[0]@ == id);
        assert(!crate::text::starts_with_spec(id, "sql"@)) by {
            if "sql"@.len() <= id.len() {
                assert(id.take(3)[0] != "sql"@[0] || id.take(3)[1] != "sql"@[1]);
            }
        }
        assert(canonical_id_spec(r[k].0@, r[k].1) == id);
        lemma_registry_index(r, id);
        assert(registry_index(r, canonical_id_spec(r[k].0@, r[k].1)) >= 0);
    }
    assert forall|i: int, j: int| 0 <= i < j < c.len() implies (#[trigger] c[i]).id@ != (#[trigger] c[j]).id@ by {
        assert(catalog_before(c[i], c[j]));
        assert(catalog_entry_ok(r, c[i]));
        assert(catalog_entry_ok(r, c[j]));
        crate::text::lemma_seq_lt_asym(c[i].profile.name@, c[j].profile.name@);
        crate::text::lemma_seq_lt_asym(c[i].id@, c[j].id@);
    }
}

/// The catalog of the registered profiles.
pub fn list_canonical_language_profiles() -> (c: Vec<CanonicalLanguageProfile>)
    ensures
        forall|i: int, j: int| 0 <= i < j < c@.len() ==> catalog_before(#[trigger] c@[i], #[trigger] c@[j]),
        exists|r: Seq<(String, LanguageProfile)>| #[trigger] registry_like(r) && catalog_of(r, c@),
{
    let r = language_profiles();
    let c = canonical_catalog(&r);
    assert(catalog_of(r@, c@));
    c
}


// ---------------------------------------------------------------------------
// Lookup
// ---------------------------------------------------------------------------

/// Unicode lowercase of a text.
pub uninterp spec fn unicode_lowercase(s: Seq<char>) -> Seq<char>;

/// Lowercases a text with `str::to_lowercase`; the contract names the
/// result.
#[verifier::external_body]
pub(crate) fn to_lowercase(s: &str) -> (r: String)
    ensures
        r@ == unicode_lowercase(s@),
{
    s.to_lowercase()
}

/// An entry answers a lowercased query: by id, lowercased name, alias or
/// extension.
pub open spec fn entry_matches(e: CanonicalLanguageProfile, q: Seq<char>) -> bool {
    ||| e.id@ == q
    ||| unicode_lowercase(e.profile.name@) == q
    ||| views(e.aliases@).contains(q)
    ||| views(e.profile.extensions@).contains(q)
}

/// Whether `v` holds `x`.
fn strings_contain(v: &Vec<String>, x: &str) -> (b: bool)
    ensures
        b == views(v@).contains(x@),
{
    let mut i: usize = 0;
    while i < v.len()
        invariant
            i <= v.len(),
            forall|j: int| 0 <= j < i ==> #[trigger] v@[j]@ != x@,
        decreases v.len() - i,
    {
        if crate::text::str_eq(v[i].as_str(), x) {
            assert(views(v@)[i as int] == x@);
            return true;
        }
        i = i + 1;
    }
    proof {
        if views(v@).contains(x@) {
            let j = choose|j: int| 0 <= j < views(v@).len() && views(v@)[j] == x@;
            assert(v@[j]@ == x@);
        }
    }
    false
}

/// The first catalog entry answering a query (matched case-insensitively).
pub fn find_in_catalog(catalog: &Vec<CanonicalLanguageProfile>, query: &str) -> (r: Option<usize>)
    ensures
        match r {
            Some(i) => i < catalog@.len() && entry_matches(catalog@[i as int], unicode_lowercase(query@))
                && forall|j: int| 0 <= j < i ==> !entry_matches(#[trigger] catalog@[j], unicode_lowercase(query@)),
            None => forall|j: int|
                0 <= j < catalog@.len() ==> !entry_matches(#[trigger] catalog@[j], unicode_lowercase(query@)),
        },
{
    let q = to_lowercase(query);
    let mut i: usize = 0;
    while i < catalog.len()
        invariant
            i <= catalog.len(),
            q@ == unicode_lowercase(query@),
            forall|j: int| 0 <= j < i ==> !entry_matches(#[trigger] catalog@[j], q@),
        decreases catalog.len() - i,
    {
        let e = &catalog[i];
        let name = to_lowercase(e.profile.name.as_str());
        if crate::text::str_eq(e.id.as_str(), q.as_str()) || crate::text::str_eq(name.as_str(), q.as_str())
            || strings_contain(&e.aliases, q.as_str()) || strings_contain(&e.profile.extensions, q.as_str()) {
            return Some(i);
        }
        i = i + 1;
    }
    None
}

/// The canonical id of the `k`th registry entry.
pub open spec fn registry_id(r: Seq<(String, LanguageProfile)>, k: int) -> Seq<char> {
    canonical_id_spec(r[k].0@, r[k].1)
}

/// The catalog entry of `id` answers query `q`: by id, lowercased name,
/// one of its aliases, or one of its extensions.
pub open spec fn id_matches(r: Seq<(String, LanguageProfile)>, id: Seq<char>, q: Seq<char>) -> bool {
    let p = r[registry_index(r, id)].1;
    ||| id == q
    ||| unicode_lowercase(p.name@) == q
    ||| aliases_for(r, id).contains(q)
    ||| views(p.extensions@).contains(q)
}

/// The catalog entry of `a` comes before that of `b`: by display name,
/// then by id.
pub open spec fn id_before(r: Seq<(String, LanguageProfile)>, a: Seq<char>, b: Seq<char>) -> bool {
    let na = r[registry_index(r, a)].1.name@;
    let nb = r[registry_index(r, b)].1.name@;
    seq_lt(na, nb) || (na == nb && seq_lt(a, b))
}

/// An id with aliases is the canonical id of some registry entry.
proof fn lemma_aliases_for_witness(r: Seq<(String, LanguageProfile)>, id: Seq<char>)
    requires
        aliases_for(r, id).len() > 0,
    ensures
        exists|k: int| 0 <= k < r.len() && #[trigger] canonical_id_spec(r[k].0@, r[k].1) == id,
    decreases r.len(),
{
    if canonical_id_spec(r.last().0@, r.last().1) == id {
        let k = r.len() - 1;
        assert(canonical_id_spec(r[k].0@, r[k].1) == id);
    } else {
        lemma_aliases_for_witness(r.drop_last(), id);
        let k = choose|k: int| 0 <= k < r.drop_last().len() && #[trigger] canonical_id_spec(r.drop_last()[k].0@, r.drop_last()[k].1) == id;
        assert(r[k] == r.drop_last()[k]);
    }
}

/// A catalog entry answers a query exactly when its id does.
proof fn lemma_entry_matches_id(r: Seq<(String, LanguageProfile)>, e: CanonicalLanguageProfile, q: Seq<char>)
    requires
        catalog_entry_ok(r, e),
    ensures
        entry_matches(e, q) == id_matches(r, e.id@, q),
{
    crate::config::lemma_sort_unique(aliases_for(r, e.id@));
    let p = r[registry_index(r, e.id@)].1;
    assert(e.profile.name@ == p.name@);
    assert(views(e.profile.extensions@) == views(p.extensions@));
    assert(views(e.aliases@).contains(q) == aliases_for(r, e.id@).contains(q));
}

/// The catalog entry answering a query by id, name, alias or extension,
/// case-insensitively: the first, in catalog order, of the entries of the
/// registered profiles that answer it; none when no entry does.
pub fn find_canonical_language_profile(query: &str) -> (r: Option<CanonicalLanguageProfile>)
    ensures
        r matches Some(e) ==> entry_matches(e, unicode_lowercase(query@)),
        exists|reg: Seq<(String, LanguageProfile)>|
            #[trigger] registry_like(reg) && (r is None <==> forall|k: int|
                0 <= k < reg.len() && registry_index(reg, registry_id(reg, k)) >= 0 ==> !id_matches(
                    reg,
                    #[trigger] registry_id(reg, k),
                    unicode_lowercase(query@),
                )) && (r matches Some(e) ==> catalog_entry_ok(reg, e) && forall|k: int|
                0 <= k < reg.len() && registry_index(reg, registry_id(reg, k)) >= 0 && id_matches(
                    reg,
                    #[trigger] registry_id(reg, k),
                    unicode_lowercase(query@),
                ) ==> e.id@ == registry_id(reg, k) || id_before(reg, e.id@, registry_id(reg, k))),
{
    let catalog = list_canonical_language_profiles();
    let ghost reg = choose|reg: Seq<(String, LanguageProfile)>| #[trigger] registry_like(reg) && catalog_of(reg, catalog@);
    let ghost q = unicode_lowercase(query@);
    let found = find_in_catalog(&catalog, query);
    match found {
        Some(i) => {
            let e = &catalog[i];
            let c = CanonicalLanguageProfile {
                id: e.id.clone(),
                profile: clone_profile(&e.profile),
                aliases: crate::request::clone_strings(&e.aliases),
            };
            proof {
                assert(catalog_entry_ok(reg, catalog@[i as int]));
                assert(catalog_entry_ok(reg, c));
                lemma_entry_matches_id(reg, catalog@[i as int], q);
                lemma_aliases_for_witness(reg, c.id@);
                let kw = choose|k: int| 0 <= k < reg.len() && #[trigger] canonical_id_spec(reg[k].0@, reg[k].1) == c.id@;
                assert(registry_id(reg, kw) == c.id@);
                assert(id_matches(reg, registry_id(reg, kw), q));
                assert forall|k: int|
                    0 <= k < reg.len() && registry_index(reg, registry_id(reg, k)) >= 0 && id_matches(
                        reg,
                        #[trigger] registry_id(reg, k),
                        q,
                    ) implies c.id@ == registry_id(reg, k) || id_before(reg, c.id@, registry_id(reg, k)) by {
                    assert(registry_id(reg, k) == canonical_id_spec(reg[k].0@, reg[k].1));
                    let m = choose|m: int| 0 <= m < catalog@.len() && #[trigger] catalog@[m].id@ == canonical_id_spec(reg[k].0@, reg[k].1);
                    assert(catalog_entry_ok(reg, catalog@[m]));
                    lemma_entry_matches_id(reg, catalog@[m], q);
                    if m < i {
                        assert(!entry_matches(catalog@[m], q));
                    } else if m > i {
                        assert(catalog_before(catalog@[i as int], catalog@[m]));
                    }
                }
            }
            Some(c)
        },
        None => {
            proof {
                assert forall|k: int|
                    0 <= k < reg.len() && registry_index(reg, registry_id(reg, k)) >= 0 implies !id_matches(
                        reg,
                        #[trigger] registry_id(reg, k),
                        q,
                    ) by {
                    assert(registry_id(reg, k) == canonical_id_spec(reg[k].0@, reg[k].1));
                    let m = choose|m: int| 0 <= m < catalog@.len() && #[trigger] catalog@[m].id@ == canonical_id_spec(reg[k].0@, reg[k].1);
                    assert(catalog_entry_ok(reg, catalog@[m]));
                    lemma_entry_matches_id(reg, catalog@[m], q);
                    assert(!entry_matches(catalog@[m], q));
                }
            }
            None
        },
    }
}

// ---------------------------------------------------------------------------
// Capture names
// ---------------------------------------------------------------------------

/// A character of a capture name.
pub open spec fn is_capture_char(c: char) -> bool {
    ('a' <= c && c <= 'z') || ('A' <= c && c <= 'Z') || ('0' <= c && c <= '9') || c == '_'
}

/// End of the capture name starting at `j`.
pub open spec fn capture_end(q: Seq<char>, j: int) -> int
    decreases q.len() - j,
{
    if j < 0 || j >= q.len() || !is_capture_char(q[j]) {
        j
    } else {
        capture_end(q, j + 1)
    }
}

/// Facts about [`capture_end`].
pub proof fn lemma_capture_end(q: Seq<char>, j: int)
    requires
        0 <= j,
    ensures
        j <= capture_end(q, j),
        j <= q.len() ==> capture_end(q, j) <= q.len(),
        forall|k: int| j <= k < capture_end(q, j) ==> is_capture_char(#[trigger] q[k]),
        capture_end(q, j) < q.len() ==> !is_capture_char(q[capture_end(q, j)]),
    decreases q.len() - j,
{
    if j < q.len() && is_capture_char(q[j]) {
        lemma_capture_end(q, j + 1);
    }
}

/// The capture names (`@name`) of a query from index `i`, in order.
pub open spec fn captures_from(q: Seq<char>, i: int) -> Seq<Seq<char>>
    decreases q.len() + 1 - i,
{
    if i < 0 || i >= q.len() {
        Seq::empty()
    } else if q[i] == '@' {
        proof {
            lemma_capture_end(q, i + 1);
        }
        let e = capture_end(q, i + 1);
        (if e > i + 1 {
            seq![q.subrange(i + 1, e)]
        } else {
            Seq::<Seq<char>>::empty()
        }) + captures_from(q, e)
    } else {
        captures_from(q, i + 1)
    }
}

/// The capture names of a query, in order.
pub fn query_capture_names(query: &str) -> (names: Vec<String>)
    ensures
        views(names@) == captures_from(query@, 0),
{
    let q = crate::text::chars_of(query);
    let mut names: Vec<String> = Vec::new();
    let mut index: usize = 0;
    assert(views(names@) + captures_from(q@, 0) =~= captures_from(q@, 0));
    while index < q.len()
        invariant
            index <= q.len(),
            q@ == query@,
            views(names@) + captures_from(q@, index as int) == captures_from(q@, 0),
        decreases q.len() - index,
    {
        if q[index] == '@' {
            let start = index + 1;
            let mut end = start;
            while end < q.len() && (('a' <= q[end] && q[end] <= 'z') || ('A' <= q[end] && q[end] <= 'Z') || ('0'
                <= q[end] && q[end] <= '9') || q[end] == '_')
                invariant
                    start <= end <= q.len(),
                    capture_end(q@, start as int) == capture_end(q@, end as int),
                decreases q.len() - end,
            {
                end = end + 1;
            }
            let ghost before = names@;
            if end > start {
                let name = crate::text::slice_chars(&q, start, end);
                names.push(name);
                proof {
                    crate::text::lemma_views_push(before, name);
                    assert(views(names@) + captures_from(q@, end as int) =~= views(before) + captures_from(
                        q@,
                        index as int,
                    ));
                }
            } else {
                assert(views(names@) + captures_from(q@, end as int) =~= views(before) + captures_from(
                    q@,
                    index as int,
                ));
            }
            index = end;
        } else {
            index = index + 1;
        }
    }
    assert(views(names@) =~= views(names@) + captures_from(q@, index as int));
    names
}


// ---------------------------------------------------------------------------
// Lint
// ---------------------------------------------------------------------------

/// A capture role in canonical form: lowercase ASCII letters, digits and
/// underscores.
pub open spec fn canonical_role(c: Seq<char>) -> bool {
    forall|k: int| 0 <= k < c.len() ==> (('a' <= #[trigger] c[k] && c[k] <= 'z') || ('0' <= c[k] && c[k] <= '9')
        || c[k] == '_')
}

/// Number of occurrences of `x` in `s`.
pub open spec fn occurrences(s: Seq<Seq<char>>, x: Seq<char>) -> nat
    decreases s.len(),
{
    if s.len() == 0 {
        0
    } else {
        occurrences(s.drop_last(), x) + if s.last() == x {
            1nat
        } else {
            0nat
        }
    }
}

/// The issues of one capture role of a query.
pub open spec fn role_issues(id: Seq<char>, pred: Seq<char>, role: Seq<char>, count: nat) -> Seq<Seq<char>> {
    (if count > 1 && role != "match"@ && !(role.len() > 0 && role[0] == '_') {
        seq![
            "language `"@ + id + "` predicate `"@ + pred + "` reuses capture role `@"@ + role + "` "@
                + crate::text::decimal(count) + " times"@,
        ]
    } else {
        Seq::empty()
    }) + (if !canonical_role(role) {
        seq!["language `"@ + id + "` predicate `"@ + pred + "` uses non-canonical capture role `@"@ + role + "`"@]
    } else {
        Seq::empty()
    })
}

/// The issues of one query of a profile: blank queries have none; others
/// must capture `@match`, not reuse roles, and name roles canonically.
pub open spec fn query_issues(id: Seq<char>, pred: Seq<char>, query: Seq<char>) -> Seq<Seq<char>> {
    if crate::text::trim_spec(query).len() == 0 {
        Seq::empty()
    } else {
        let caps = captures_from(query, 0);
        (if !crate::text::has_substring(query, "@match"@) {
            seq!["language `"@ + id + "` predicate `"@ + pred + "` is missing the required @match capture"@]
        } else {
            Seq::empty()
        }) + sort_unique(caps).map_values(|c: Seq<char>| role_issues(id, pred, c, occurrences(caps, c))).flatten()
    }
}

/// Counts the occurrences of `x` in `v`.
fn count_occurrences(v: &Vec<String>, x: &str) -> (n: usize)
    ensures
        n == occurrences(views(v@), x@),
{
    let mut n: usize = 0;
    let mut i: usize = 0;
    while i < v.len()
        invariant
            i <= v.len(),
            n == occurrences(views(v@).take(i as int), x@),
            n <= i,
        decreases v.len() - i,
    {
        proof {
            assert(views(v@).take(i + 1).drop_last() =~= views(v@).take(i as int));
            assert(views(v@).take(i + 1).last() == v@[i as int]@);
        }
        if crate::text::str_eq(v[i].as_str(), x) {
            n = n + 1;
        }
        i = i + 1;
    }
    assert(views(v@).take(i as int) =~= views(v@));
    n
}

/// Whether a role is in canonical form.
fn is_canonical_role(c: &str) -> (b: bool)
    ensures
        b == canonical_role(c@),
{
    let cs = crate::text::chars_of(c);
    let mut i: usize = 0;
    while i < cs.len()
        invariant
            i <= cs.len(),
            cs@ == c@,
            forall|k: int| 0 <= k < i ==> (('a' <= #[trigger] cs@[k] && cs@[k] <= 'z') || ('0' <= cs@[k] && cs@[k]
                <= '9') || cs@[k] == '_'),
        decreases cs.len() - i,
    {
        let ch = cs[i];
        if !(('a' <= ch && ch <= 'z') || ('0' <= ch && ch <= '9') || ch == '_') {
            return false;
        }
        i = i + 1;
    }
    true
}

/// `a`, `b`, `c`, `d` and `e` joined.
fn cat5(a: &str, b: &str, c: &str, d: &str, e: &str) -> (s: String)
    ensures
        s@ == a@ + b@ + c@ + d@ + e@,
{
    let mut out: Vec<char> = Vec::new();
    push_str(&mut out, a);
    push_str(&mut out, b);
    push_str(&mut out, c);
    push_str(&mut out, d);
    push_str(&mut out, e);
    string_from_chars(&out)
}

/// Appends every line of `more` to `out`.
fn append_all(out: &mut Vec<String>, more: Vec<String>)
    ensures
        views(final(out)@) == views(old(out)@) + views(more@),
{
    let mut more = more;
    let ghost m = more@;
    out.append(&mut more);
    assert(views(out@) =~= views(old(out)@) + views(m));
}

/// The issues of one capture role.
fn role_lint(id: &str, pred: &str, role: &str, count: usize) -> (v: Vec<String>)
    ensures
        views(v@) == role_issues(id@, pred@, role@, count as nat),
{
    let mut v: Vec<String> = Vec::new();
    let rcs = crate::text::chars_of(role);
    if count > 1 && !crate::text::str_eq(role, "match") && !(rcs.len() > 0 && rcs[0] == '_') {
        let mut out: Vec<char> = Vec::new();
        push_str(&mut out, "language `");
        push_str(&mut out, id);
        push_str(&mut out, "` predicate `");
        push_str(&mut out, pred);
        push_str(&mut out, "` reuses capture role `@");
        push_str(&mut out, role);
        push_str(&mut out, "` ");
        push_str(&mut out, crate::text::u64_to_string(count as u64).as_str());
        push_str(&mut out, " times");
        v.push(string_from_chars(&out));
    }
    let ghost first = views(v@);
    if !is_canonical_role(role) {
        let mut out: Vec<char> = Vec::new();
        push_str(&mut out, "language `");
        push_str(&mut out, id);
        push_str(&mut out, "` predicate `");
        push_str(&mut out, pred);
        push_str(&mut out, "` uses non-canonical capture role `@");
        push_str(&mut out, role);
        push_str(&mut out, "`");
        let ghost f0 = v@;
        v.push(string_from_chars(&out));
        proof {
            crate::text::lemma_views_push(f0, v@.last());
        }
    }
    assert(views(v@) =~= role_issues(id@, pred@, role@, count as nat));
    v
}

/// The issues of one query.
fn query_lint(id: &str, pred: &str, query: &str) -> (v: Vec<String>)
    ensures
        views(v@) == query_issues(id@, pred@, query@),
{
    let mut v: Vec<String> = Vec::new();
    let t = crate::text::trim_str(query);
    if t.as_str().is_empty() {
        assert(views(v@) =~= Seq::<Seq<char>>::empty());
        return v;
    }
    if !crate::text::str_contains(query, "@match") {
        v.push(cat5("language `", id, "` predicate `", pred, "` is missing the required @match capture"));
    }
    let ghost head = views(v@);
    assert(head =~= (if !crate::text::has_substring(query@, "@match"@) {
        seq!["language `"@ + id@ + "` predicate `"@ + pred@ + "` is missing the required @match capture"@]
    } else {
        Seq::<Seq<char>>::empty()
    }));
    let caps = query_capture_names(query);
    let roles = sort_dedup(&caps);
    let ghost f = |c: Seq<char>| role_issues(id@, pred@, c, occurrences(views(caps@), c));
    let mut i: usize = 0;
    assert(views(roles@).take(0).map_values(f).flatten() =~= Seq::<Seq<char>>::empty());
    assert(head + Seq::<Seq<char>>::empty() =~= head);
    while i < roles.len()
        invariant
            i <= roles.len(),
            views(v@) == head + views(roles@).take(i as int).map_values(f).flatten(),
            f == (|c: Seq<char>| role_issues(id@, pred@, c, occurrences(views(caps@), c))),
        decreases roles.len() - i,
    {
        let n = count_occurrences(&caps, roles[i].as_str());
        let more = role_lint(id, pred, roles[i].as_str(), n);
        let ghost prev = views(roles@).take(i as int).map_values(f);
        append_all(&mut v, more);
        i = i + 1;
        proof {
            assert(views(roles@).take(i as int).map_values(f) =~= prev.push(f(roles@[i - 1]@)));
            prev.lemma_flatten_push(f(roles@[i - 1]@));
        }
    }
    assert(views(roles@).take(i as int) =~= views(roles@));
    v
}

/// The issues of the aliases of a catalog entry.
pub open spec fn alias_issues(r: Seq<(String, LanguageProfile)>, e: CanonicalLanguageProfile, alias: Seq<char>) -> Seq<
    Seq<char>,
> {
    let k = registry_index(r, alias);
    if k < 0 {
        seq!["alias `"@ + alias + "` is missing from LANGUAGE_PROFILES"@]
    } else {
        let p = r[k].1;
        (if p.name@ != e.profile.name@ {
            seq![
                "alias `"@ + alias + "` drifted from canonical `"@ + e.id@ + "` name: `"@ + p.name@ + "` != `"@
                    + e.profile.name@ + "`"@,
            ]
        } else {
            Seq::empty()
        }) + (if views(p.extensions@) != views(e.profile.extensions@) {
            seq!["alias `"@ + alias + "` drifted from canonical `"@ + e.id@ + "` extensions"@]
        } else {
            Seq::empty()
        }) + (if p.queries@.len() != e.profile.queries@.len() {
            seq!["alias `"@ + alias + "` drifted from canonical `"@ + e.id@ + "` predicate coverage"@]
        } else {
            Seq::empty()
        })
    }
}

/// All issues of a catalog entry: its aliases, then its queries.
pub open spec fn entry_issues(r: Seq<(String, LanguageProfile)>, e: CanonicalLanguageProfile) -> Seq<Seq<char>> {
    views(e.aliases@).map_values(|a: Seq<char>| alias_issues(r, e, a)).flatten() + e.profile.queries@.map_values(
        |q: (PredicateKey, String)| query_issues(e.id@, key_name(q.0), q.1@),
    ).flatten()
}

/// Whether two string lists hold the same strings in the same order.
fn same_strings(a: &Vec<String>, b: &Vec<String>) -> (r: bool)
    ensures
        r == (views(a@) == views(b@)),
{
    if a.len() != b.len() {
        assert(views(a@).len() != views(b@).len());
        return false;
    }
    let mut i: usize = 0;
    while i < a.len()
        invariant
            i <= a.len(),
            a@.len() == b@.len(),
            forall|j: int| 0 <= j < i ==> #[trigger] a@[j]@ == b@[j]@,
        decreases a.len() - i,
    {
        if !crate::text::str_eq(a[i].as_str(), b[i].as_str()) {
            assert(views(a@)[i as int] != views(b@)[i as int]);
            return false;
        }
        i = i + 1;
    }
    assert(views(a@) =~= views(b@));
    true
}

/// The issues of one alias of a catalog entry.
fn alias_lint(r: &Registry, e: &CanonicalLanguageProfile, alias: &str) -> (v: Vec<String>)
    ensures
        views(v@) == alias_issues(r@, *e, alias@),
{
    let mut v: Vec<String> = Vec::new();
    let k = match find_registry(r, alias) {
        Some(k) => k,
        None => {
            v.push(cat3("alias `", alias, "` is missing from LANGUAGE_PROFILES"));
            assert(views(v@) =~= alias_issues(r@, *e, alias@));
            return v;
        },
    };
    proof {
        lemma_registry_index(r@, alias@);
    }
    let p = &r[k].1;
    if !crate::text::str_eq(p.name.as_str(), e.profile.name.as_str()) {
        let mut out: Vec<char> = Vec::new();
        push_str(&mut out, "alias `");
        push_str(&mut out, alias);
        push_str(&mut out, "` drifted from canonical `");
        push_str(&mut out, e.id.as_str());
        push_str(&mut out, "` name: `");
        push_str(&mut out, p.name.as_str());
        push_str(&mut out, "` != `");
        push_str(&mut out, e.profile.name.as_str());
        push_str(&mut out, "`");
        v.push(string_from_chars(&out));
    }
    let ghost a1 = views(v@);
    if !same_strings(&p.extensions, &e.profile.extensions) {
        let ghost f0 = v@;
        v.push(cat5("alias `", alias, "` drifted from canonical `", e.id.as_str(), "` extensions"));
        proof {
            crate::text::lemma_views_push(f0, v@.last());
        }
    }
    let ghost a2 = views(v@);
    if p.queries.len() != e.profile.queries.len() {
        let ghost f0 = v@;
        v.push(cat5("alias `", alias, "` drifted from canonical `", e.id.as_str(), "` predicate coverage"));
        proof {
            crate::text::lemma_views_push(f0, v@.last());
        }
    }
    assert(views(v@) =~= alias_issues(r@, *e, alias@));
    v
}

/// `a`, `b` and `c` joined.
fn cat3(a: &str, b: &str, c: &str) -> (s: String)
    ensures
        s@ == a@ + b@ + c@,
{
    let mut out: Vec<char> = Vec::new();
    push_str(&mut out, a);
    push_str(&mut out, b);
    push_str(&mut out, c);
    string_from_chars(&out)
}

/// All issues of a catalog entry.
fn entry_lint(r: &Registry, e: &CanonicalLanguageProfile) -> (v: Vec<String>)
    ensures
        views(v@) == entry_issues(r@, *e),
{
    let mut v: Vec<String> = Vec::new();
    let ghost fa = |a: Seq<char>| alias_issues(r@, *e, a);
    let mut i: usize = 0;
    assert(views(e.aliases@).take(0).map_values(fa).flatten() =~= Seq::<Seq<char>>::empty());
    while i < e.aliases.len()
        invariant
            i <= e.aliases.len(),
            views(v@) == views(e.aliases@).take(i as int).map_values(fa).flatten(),
            fa == (|a: Seq<char>| alias_issues(r@, *e, a)),
        decreases e.aliases.len() - i,
    {
        let more = alias_lint(r, e, e.aliases[i].as_str());
        let ghost prev = views(e.aliases@).take(i as int).map_values(fa);
        append_all(&mut v, more);
        i = i + 1;
        proof {
            assert(views(e.aliases@).take(i as int).map_values(fa) =~= prev.push(fa(e.aliases@[i - 1]@)));
            prev.lemma_flatten_push(fa(e.aliases@[i - 1]@));
        }
    }
    assert(views(e.aliases@).take(i as int) =~= views(e.aliases@));
    let ghost head = views(v@);
    let ghost fq = |q: (PredicateKey, String)| query_issues(e.id@, key_name(q.0), q.1@);
    let mut j: usize = 0;
    assert(e.profile.queries@.take(0).map_values(fq).flatten() =~= Seq::<Seq<char>>::empty());
    assert(head + Seq::<Seq<char>>::empty() =~= head);
    while j < e.profile.queries.len()
        invariant
            j <= e.profile.queries.len(),
            views(v@) == head + e.profile.queries@.take(j as int).map_values(fq).flatten(),
            fq == (|q: (PredicateKey, String)| query_issues(e.id@, key_name(q.0), q.1@)),
        decreases e.profile.queries.len() - j,
    {
        let q = &e.profile.queries[j];
        let more = query_lint(e.id.as_str(), q.0.as_str(), q.1.as_str());
        let ghost prev = e.profile.queries@.take(j as int).map_values(fq);
        append_all(&mut v, more);
        j = j + 1;
        proof {
            assert(e.profile.queries@.take(j as int).map_values(fq) =~= prev.push(fq(e.profile.queries@[j - 1])));
            prev.lemma_flatten_push(fq(e.profile.queries@[j - 1]));
        }
    }
    assert(e.profile.queries@.take(j as int) =~= e.profile.queries@);
    v
}

/// The issues of a catalog, sorted and deduplicated.
pub open spec fn catalog_issues(r: Seq<(String, LanguageProfile)>, c: Seq<CanonicalLanguageProfile>) -> Seq<
    Seq<char>,
> {
    sort_unique(c.map_values(|e: CanonicalLanguageProfile| entry_issues(r, e)).flatten())
}

/// Lints a catalog against its registry.
pub fn lint_catalog(r: &Registry, catalog: &Vec<CanonicalLanguageProfile>) -> (v: Vec<String>)
    ensures
        views(v@) == catalog_issues(r@, catalog@),
{
    let mut all: Vec<String> = Vec::new();
    let ghost fe = |e: CanonicalLanguageProfile| entry_issues(r@, e);
    let mut i: usize = 0;
    assert(catalog@.take(0).map_values(fe).flatten() =~= Seq::<Seq<char>>::empty());
    while i < catalog.len()
        invariant
            i <= catalog.len(),
            views(all@) == catalog@.take(i as int).map_values(fe).flatten(),
            fe == (|e: CanonicalLanguageProfile| entry_issues(r@, e)),
        decreases catalog.len() - i,
    {
        let more = entry_lint(r, &catalog[i]);
        let ghost prev = catalog@.take(i as int).map_values(fe);
        append_all(&mut all, more);
        i = i + 1;
        proof {
            assert(catalog@.take(i as int).map_values(fe) =~= prev.push(fe(catalog@[i - 1])));
            prev.lemma_flatten_push(fe(catalog@[i - 1]));
        }
    }
    assert(catalog@.take(i as int) =~= catalog@);
    sort_dedup(&all)
}

/// Lints the registered profiles: alias drift, missing `@match` captures,
/// reused and non-canonical capture roles. Sorted and deduplicated.
pub fn lint_language_profiles() -> (v: Vec<String>)
    ensures
        strictly_sorted(views(v@)),
        exists|r: Seq<(String, LanguageProfile)>, c: Seq<CanonicalLanguageProfile>|
            #[trigger] registry_like(r) && #[trigger] catalog_of(r, c) && views(v@) == catalog_issues(r, c) && forall|j: int|
                0 <= j < builtin_canonical_ids().len() ==> catalog_has_id(c, #[trigger] builtin_canonical_ids()[j].0),
{
    let r = language_profiles();
    let catalog = canonical_catalog(&r);
    let v = lint_catalog(&r, &catalog);
    assert(registry_like(r@) && catalog_of(r@, catalog@));
    proof {
        lemma_builtin_catalog_complete(r@, catalog@);
    }
    proof {
        crate::config::lemma_sort_unique(catalog@.map_values(|e: CanonicalLanguageProfile| entry_issues(r@, e)).flatten());
    }
    v
}


// ---------------------------------------------------------------------------
// Reference document
// ---------------------------------------------------------------------------

/// The opening of the profile reference.
pub open spec fn reference_intro() -> Seq<char> {
    "# Language Semantic Profile Reference\n\nGenerated from live tree-sitter profiles. Capture convention: `@match`.\n\n"@
}

/// The matching rule of a predicate, by its name.
pub open spec fn rule_for_name(n: Seq<char>) -> Seq<char> {
    if n == "import"@ || n == "comment"@ || n == "str"@ || n == "call"@ {
        matching_rule_spec(PredicateKey::Import)
    } else if n == "hook"@ || n == "customhook"@ {
        matching_rule_spec(PredicateKey::Hook)
    } else {
        matching_rule_spec(PredicateKey::Def)
    }
}

/// The predicate names answered by a profile.
pub open spec fn profile_key_names(p: LanguageProfile) -> Seq<Seq<char>> {
    p.queries@.map_values(|q: (PredicateKey, String)| key_name(q.0))
}

/// The caveat lines of a language section.
pub open spec fn caveat_lines(id: Seq<char>) -> Seq<char> {
    let cs = caveats_spec(id);
    if cs.len() == 0 {
        "- Caveats: none recorded\n"@
    } else {
        "- Caveats:\n"@ + cs.map_values(|c: Seq<char>| "  - "@ + c + "\n"@).flatten()
    }
}

/// The section of one language.
pub open spec fn reference_section(e: CanonicalLanguageProfile) -> Seq<char> {
    let keys = sort_unique(profile_key_names(e.profile));
    "## "@ + e.profile.name@ + " ("@ + e.id@ + ")\n\n- Support tier: `"@ + tier_label(support_tier_spec(e.id@))
        + "`\n- Aliases: `"@ + crate::text::join_spec(views(e.aliases@), ", "@) + "`\n- Extensions: `"@
        + crate::text::join_spec(views(e.profile.extensions@), ", "@) + "`\n- Semantic predicates: `"@
        + crate::text::join_spec(keys, ", "@) + "`\n"@ + caveat_lines(e.id@) + "\n### Matching Rules\n\n"@
        + keys.map_values(|k: Seq<char>| "- `"@ + k + "`: "@ + rule_for_name(k) + "\n"@).flatten() + "\n"@
}

/// The reference document of a catalog.
pub open spec fn reference_text(c: Seq<CanonicalLanguageProfile>) -> Seq<char> {
    reference_intro() + c.map_values(|e: CanonicalLanguageProfile| reference_section(e)).flatten()
}

/// The matching rule for a predicate name.
fn rule_text(n: &str) -> (s: &'static str)
    ensures
        s@ == rule_for_name(n@),
{
    if crate::text::str_eq(n, "import") || crate::text::str_eq(n, "comment") || crate::text::str_eq(n, "str")
        || crate::text::str_eq(n, "call") {
        predicate_matching_rule(&PredicateKey::Import)
    } else if crate::text::str_eq(n, "hook") || crate::text::str_eq(n, "customhook") {
        predicate_matching_rule(&PredicateKey::Hook)
    } else {
        predicate_matching_rule(&PredicateKey::Def)
    }
}

/// Appends the text of `parts`, concatenated, to `out`.
fn push_flat(out: &mut Vec<char>, parts: &Vec<String>)
    ensures
        final(out)@ == old(out)@ + views(parts@).flatten(),
{
    let mut i: usize = 0;
    assert(views(parts@).take(0).flatten() =~= Seq::<char>::empty());
    assert(old(out)@ + Seq::<char>::empty() =~= old(out)@);
    while i < parts.len()
        invariant
            i <= parts.len(),
            out@ == old(out)@ + views(parts@).take(i as int).flatten(),
        decreases parts.len() - i,
    {
        let ghost prev = views(parts@).take(i as int);
        push_str(out, parts[i].as_str());
        i = i + 1;
        proof {
            assert(views(parts@).take(i as int) =~= prev.push(parts@[i - 1]@));
            prev.lemma_flatten_push(parts@[i - 1]@);
        }
    }
    assert(views(parts@).take(i as int) =~= views(parts@));
}

/// The section of one language.
fn reference_section_text(e: &CanonicalLanguageProfile) -> (s: String)
    ensures
        s@ == reference_section(*e),
{
    let mut names: Vec<String> = Vec::new();
    let mut i: usize = 0;
    while i < e.profile.queries.len()
        invariant
            i <= e.profile.queries.len(),
            views(names@) == profile_key_names(e.profile).take(i as int),
        decreases e.profile.queries.len() - i,
    {
        let ghost n0 = names@;
        names.push(owned(e.profile.queries[i].0.as_str()));
        i = i + 1;
        proof {
            crate::text::lemma_views_push(n0, names@.last());
            assert(views(names@) =~= profile_key_names(e.profile).take(i as int));
        }
    }
    assert(profile_key_names(e.profile).take(i as int) =~= profile_key_names(e.profile));
    let keys = sort_dedup(&names);
    let mut out: Vec<char> = Vec::new();
    push_str(&mut out, "## ");
    push_str(&mut out, e.profile.name.as_str());
    push_str(&mut out, " (");
    push_str(&mut out, e.id.as_str());
    push_str(&mut out, ")\n\n- Support tier: `");
    push_str(&mut out, tier_text(support_tier_for_id(e.id.as_str())));
    push_str(&mut out, "`\n- Aliases: `");
    push_str(&mut out, crate::text::join_strings(&e.aliases, ", ").as_str());
    push_str(&mut out, "`\n- Extensions: `");
    push_str(&mut out, crate::text::join_strings(&e.profile.extensions, ", ").as_str());
    push_str(&mut out, "`\n- Semantic predicates: `");
    push_str(&mut out, crate::text::join_strings(&keys, ", ").as_str());
    push_str(&mut out, "`\n");
    let caveats = semantic_caveats_for_id(e.id.as_str());
    if caveats.len() == 0 {
        push_str(&mut out, "- Caveats: none recorded\n");
    } else {
        push_str(&mut out, "- Caveats:\n");
        let mut lines: Vec<String> = Vec::new();
        let ghost fc = |c: Seq<char>| "  - "@ + c + "\n"@;
        let mut k: usize = 0;
        while k < caveats.len()
            invariant
                k <= caveats.len(),
                views(lines@) == views(caveats@).take(k as int).map_values(fc),
                fc == (|c: Seq<char>| "  - "@ + c + "\n"@),
            decreases caveats.len() - k,
        {
            let ghost l0 = lines@;
            lines.push(cat3("  - ", caveats[k].as_str(), "\n"));
            k = k + 1;
            proof {
                crate::text::lemma_views_push(l0, lines@.last());
                assert(views(lines@) =~= views(caveats@).take(k as int).map_values(fc));
            }
        }
        assert(views(caveats@).take(k as int) =~= views(caveats@));
        push_flat(&mut out, &lines);
    }
    push_str(&mut out, "\n### Matching Rules\n\n");
    let mut rules: Vec<String> = Vec::new();
    let ghost fr = |k: Seq<char>| "- `"@ + k + "`: "@ + rule_for_name(k) + "\n"@;
    let mut k: usize = 0;
    while k < keys.len()
        invariant
            k <= keys.len(),
            views(rules@) == views(keys@).take(k as int).map_values(fr),
            fr == (|k: Seq<char>| "- `"@ + k + "`: "@ + rule_for_name(k) + "\n"@),
        decreases keys.len() - k,
    {
        let ghost r0 = rules@;
        rules.push(cat5("- `", keys[k].as_str(), "`: ", rule_text(keys[k].as_str()), "\n"));
        k = k + 1;
        proof {
            crate::text::lemma_views_push(r0, rules@.last());
            assert(views(rules@) =~= views(keys@).take(k as int).map_values(fr));
        }
    }
    assert(views(keys@).take(k as int) =~= views(keys@));
    push_flat(&mut out, &rules);
    push_str(&mut out, "\n");
    let r = string_from_chars(&out);
    assert(r@ =~= reference_section(*e));
    r
}

/// Renders the reference document of a catalog.
pub fn render_catalog_reference(catalog: &Vec<CanonicalLanguageProfile>) -> (s: String)
    ensures
        s@ == reference_text(catalog@),
{
    let mut sections: Vec<String> = Vec::new();
    let ghost fs = |e: CanonicalLanguageProfile| reference_section(e);
    let mut i: usize = 0;
    while i < catalog.len()
        invariant
            i <= catalog.len(),
            views(sections@) == catalog@.take(i as int).map_values(fs),
            fs == (|e: CanonicalLanguageProfile| reference_section(e)),
        decreases catalog.len() - i,
    {
        let ghost s0 = sections@;
        sections.push(reference_section_text(&catalog[i]));
        i = i + 1;
        proof {
            crate::text::lemma_views_push(s0, sections@.last());
            assert(views(sections@) =~= catalog@.take(i as int).map_values(fs));
        }
    }
    assert(catalog@.take(i as int) =~= catalog@);
    let mut out: Vec<char> = Vec::new();
    push_str(&mut out, "# Language Semantic Profile Reference\n\nGenerated from live tree-sitter profiles. Capture convention: `@match`.\n\n");
    push_flat(&mut out, &sections);
    string_from_chars(&out)
}

/// Renders the reference document of the registered profiles.
pub fn render_language_profile_reference() -> (s: String)
    ensures
        exists|r: Seq<(String, LanguageProfile)>, c: Seq<CanonicalLanguageProfile>|
            #[trigger] registry_like(r) && #[trigger] catalog_of(r, c) && s@ == reference_text(c) && forall|j: int|
                0 <= j < builtin_canonical_ids().len() ==> catalog_has_id(c, #[trigger] builtin_canonical_ids()[j].0),
{
    let catalog = list_canonical_language_profiles();
    let s = render_catalog_reference(&catalog);
    proof {
        let r = choose|r: Seq<(String, LanguageProfile)>| #[trigger] registry_like(r) && catalog_of(r, catalog@);
        lemma_builtin_catalog_complete(r, catalog@);
        assert(registry_like(r) && catalog_of(r, catalog@) && s@ == reference_text(catalog@));
    }
    s
}

} // verus!

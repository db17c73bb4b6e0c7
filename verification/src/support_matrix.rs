//! The semantic support matrix: the cross-language cases that the shared
//! behaviour tests run, and their Markdown table.

use crate::text::{owned, push_str, string_from_chars, views};
use vstd::prelude::*;

verus! {

/// One case of the support matrix: a query run against a fixture, with
/// text that must and must not appear in its output.
#[derive(Debug, Clone)]
pub struct SupportMatrixCase {
    pub suite: String,
    pub fixture: String,
    pub language_scope: String,
    pub query: String,
    pub expected: Vec<String>,
    pub absent: Vec<String>,
    pub intentionally_language_specific: bool,
}

/// A case by view: suite, fixture, language scope, query, and whether it is
/// language-specific.
pub type CaseView = (Seq<char>, Seq<char>, Seq<char>, Seq<char>, bool);

/// The view of a case.
pub open spec fn case_view(c: SupportMatrixCase) -> CaseView {
    (c.suite@, c.fixture@, c.language_scope@, c.query@, c.intentionally_language_specific)
}

/// The views of cases.
pub open spec fn cases_view(v: Seq<SupportMatrixCase>) -> Seq<CaseView> {
    v.map_values(|c: SupportMatrixCase| case_view(c))
}

/// What a case's output must contain, and must not contain.
pub type CaseLists = (Seq<Seq<char>>, Seq<Seq<char>>);

/// The expected and absent texts of a case.
pub open spec fn case_lists(c: SupportMatrixCase) -> CaseLists {
    (views(c.expected@), views(c.absent@))
}

/// The expected and absent texts of cases.
pub open spec fn cases_lists(v: Seq<SupportMatrixCase>) -> Seq<CaseLists> {
    v.map_values(|c: SupportMatrixCase| case_lists(c))
}

/// What the output of each case of the `js_ts_shared` suite must and must not
/// contain.
pub open spec fn js_ts_shared_lists_spec() -> Seq<CaseLists> {
    seq![
        (seq!["logger.js"@, "export class OldLogger"@], seq!["log_utils.ts"@]),
        (seq!["log_utils.ts"@, "interface ILog"@, "type LogLevel = \"info\" | \"warn\" | \"error\";"@], Seq::<Seq<char>>::empty()),
        (seq!["log_utils.ts"@, "export function createLog"@], Seq::<Seq<char>>::empty()),
        (seq!["log_utils.ts"@, "import * as path from 'path';"@], Seq::<Seq<char>>::empty()),
        (seq!["logger.js"@, "logger.log(\"init\");"@], Seq::<Seq<char>>::empty()),
        (seq!["log_utils.ts"@, "console.log(newLog);"@], Seq::<Seq<char>>::empty()),
        (seq!["log_utils.ts"@], Seq::<Seq<char>>::empty()),
        (seq!["logger.js"@], Seq::<Seq<char>>::empty()),
        (seq!["log_utils.ts"@], Seq::<Seq<char>>::empty()),
    ]
}

/// What the output of each case of the `python_shared` suite must and must not
/// contain.
pub open spec fn python_shared_lists_spec() -> Seq<CaseLists> {
    seq![
        (seq!["helper.py"@, "class Helper"@], seq!["src/main.rs"@]),
        (seq!["helper.py"@, "def run_helper()"@], seq!["src/main.rs"@]),
        (seq!["helper.py"@, "import os"@], seq!["src/lib.rs"@]),
        (seq!["helper.py"@], Seq::<Seq<char>>::empty()),
        (seq!["helper.py"@], Seq::<Seq<char>>::empty()),
        (seq!["self.do_setup()"@, "run_helper()"@], Seq::<Seq<char>>::empty()),
    ]
}

/// What the output of each case of the `react_shared` suite must and must not
/// contain.
pub open spec fn react_shared_lists_spec() -> Seq<CaseLists> {
    seq![
        (seq!["function App()"@], Seq::<Seq<char>>::empty()),
        (seq!["export const Button"@], Seq::<Seq<char>>::empty()),
        (seq!["<h1>Welcome, {user?.name}</h1>"@], Seq::<Seq<char>>::empty()),
        (seq!["<Button onClick="@], Seq::<Seq<char>>::empty()),
        (seq!["const [count, setCount] = useState(0);"@], Seq::<Seq<char>>::empty()),
        (seq!["const { user } = useAuth();"@], Seq::<Seq<char>>::empty()),
        (seq!["export default function useAuth()"@], Seq::<Seq<char>>::empty()),
        (seq!["<Button onClick={"@, "<button onClick={onClick}"@], Seq::<Seq<char>>::empty()),
        (seq!["App.tsx"@], seq!["Button.jsx"@]),
    ]
}

/// The cases of the `js_ts_shared` suite, by view.
pub open spec fn js_ts_shared_cases_spec() -> Seq<CaseView> {
    seq![
        ("js_ts_shared"@, "mixed_project"@, "javascript, typescript"@, "def:OldLogger"@, false),
        ("js_ts_shared"@, "mixed_project"@, "javascript, typescript"@, "def:ILog | def:LogLevel"@, false),
        ("js_ts_shared"@, "mixed_project"@, "javascript, typescript"@, "func:createLog"@, false),
        ("js_ts_shared"@, "mixed_project"@, "javascript, typescript"@, "import:path & ext:ts"@, false),
        ("js_ts_shared"@, "mixed_project"@, "javascript, typescript"@, "call:log & ext:js"@, false),
        ("js_ts_shared"@, "mixed_project"@, "javascript, typescript"@, "call:log & ext:ts"@, false),
        ("js_ts_shared"@, "mixed_project"@, "javascript, typescript"@, "comment:REVIEW"@, false),
        ("js_ts_shared"@, "mixed_project"@, "javascript, typescript"@, "str:logging:"@, false),
        ("js_ts_shared"@, "mixed_project"@, "javascript, typescript"@, "interface:ILog & type:LogLevel"@, false),
    ]
}

/// The cases of the `python_shared` suite, by view.
pub open spec fn python_shared_cases_spec() -> Seq<CaseView> {
    seq![
        ("python_shared"@, "mixed_project"@, "python"@, "def:Helper & ext:py"@, false),
        ("python_shared"@, "mixed_project"@, "python"@, "func:run_helper"@, false),
        ("python_shared"@, "mixed_project"@, "python"@, "import:os & ext:py"@, false),
        ("python_shared"@, "mixed_project"@, "python"@, "comment:FIXME & class:Helper"@, false),
        ("python_shared"@, "mixed_project"@, "python"@, "str:/tmp/data"@, false),
        ("python_shared"@, "mixed_project"@, "python"@, "call:run_helper | call:do_setup"@, false),
    ]
}

/// The cases of the `react_shared` suite, by view.
pub open spec fn react_shared_cases_spec() -> Seq<CaseView> {
    seq![
        ("react_shared"@, "mixed_project"@, "react, jsx, tsx"@, "component:App & ext:tsx"@, false),
        ("react_shared"@, "mixed_project"@, "react, jsx, tsx"@, "component:Button & ext:jsx"@, false),
        ("react_shared"@, "mixed_project"@, "react, jsx, tsx"@, "element:h1 & ext:tsx"@, true),
        ("react_shared"@, "mixed_project"@, "react, jsx, tsx"@, "element:Button & ext:tsx"@, true),
        ("react_shared"@, "mixed_project"@, "react, jsx, tsx"@, "hook:useState"@, true),
        ("react_shared"@, "mixed_project"@, "react, jsx, tsx"@, "hook:useAuth"@, true),
        ("react_shared"@, "mixed_project"@, "react, jsx, tsx"@, "customhook:useAuth"@, true),
        ("react_shared"@, "mixed_project"@, "react, jsx, tsx"@, "prop:onClick"@, true),
        ("react_shared"@, "mixed_project"@, "react, jsx, tsx"@, "element:Button & prop:disabled"@, true),
    ]
}

/// Every case, by view: the JS/TS, Python and React suites in that order.
pub open spec fn all_cases_spec() -> Seq<CaseView> {
    js_ts_shared_cases_spec() + python_shared_cases_spec() + react_shared_cases_spec()
}

/// The table rows of cases, from their views.
pub open spec fn rows_of_views(v: Seq<CaseView>) -> Seq<char>
    decreases v.len(),
{
    if v.len() == 0 {
        Seq::<char>::empty()
    } else {
        rows_of_views(v.drop_last()) + "| "@ + v.last().0 + " | "@ + v.last().2 + " | "@ + v.last().1 + " | `"@ + v.last().3
            + "` | "@ + (if v.last().4 {
            "yes"@
        } else {
            "no"@
        }) + " |\n"@
    }
}

/// The queries of cases.
pub open spec fn case_queries(v: Seq<SupportMatrixCase>) -> Seq<Seq<char>> {
    v.map_values(|c: SupportMatrixCase| c.query@)
}

fn case(
    suite: &str,
    fixture: &str,
    language_scope: &str,
    query: &str,
    expected: Vec<&str>,
    absent: Vec<&str>,
    intentionally_language_specific: bool,
) -> (c: SupportMatrixCase)
    ensures
        c.suite@ == suite@,
        c.fixture@ == fixture@,
        c.language_scope@ == language_scope@,
        c.query@ == query@,
        views(c.expected@) == expected@.map_values(|s: &str| s@),
        views(c.absent@) == absent@.map_values(|s: &str| s@),
        c.intentionally_language_specific == intentionally_language_specific,
{
    SupportMatrixCase {
        suite: owned(suite),
        fixture: owned(fixture),
        language_scope: owned(language_scope),
        query: owned(query),
        expected: crate::predicates::strings(&expected),
        absent: crate::predicates::strings(&absent),
        intentionally_language_specific,
    }
}

/// The queries of the `js_ts_shared` suite.
pub open spec fn js_ts_shared_cases_queries() -> Seq<Seq<char>> {
    seq!["def:OldLogger"@, "def:ILog | def:LogLevel"@, "func:createLog"@, "import:path & ext:ts"@, "call:log & ext:js"@, "call:log & ext:ts"@, "comment:REVIEW"@, "str:logging:"@, "interface:ILog & type:LogLevel"@]
}

/// The `js_ts_shared` suite of the support matrix.
pub fn js_ts_shared_cases() -> (v: Vec<SupportMatrixCase>)
    ensures
        case_queries(v@) == js_ts_shared_cases_queries(),
        forall|i: int| 0 <= i < v@.len() ==> (#[trigger] v@[i]).suite@ == "js_ts_shared"@,
        cases_view(v@) == js_ts_shared_cases_spec(),
        cases_lists(v@) == js_ts_shared_lists_spec(),
{
    let mut v: Vec<SupportMatrixCase> = Vec::new();
    v.push(case("js_ts_shared", "mixed_project", "javascript, typescript", "def:OldLogger", vec!["logger.js", "export class OldLogger"], vec!["log_utils.ts"], false));
    v.push(case("js_ts_shared", "mixed_project", "javascript, typescript", "def:ILog | def:LogLevel", vec!["log_utils.ts", "interface ILog", "type LogLevel = \"info\" | \"warn\" | \"error\";"], vec![], false));
    v.push(case("js_ts_shared", "mixed_project", "javascript, typescript", "func:createLog", vec!["log_utils.ts", "export function createLog"], vec![], false));
    v.push(case("js_ts_shared", "mixed_project", "javascript, typescript", "import:path & ext:ts", vec!["log_utils.ts", "import * as path from 'path';"], vec![], false));
    v.push(case("js_ts_shared", "mixed_project", "javascript, typescript", "call:log & ext:js", vec!["logger.js", "logger.log(\"init\");"], vec![], false));
    v.push(case("js_ts_shared", "mixed_project", "javascript, typescript", "call:log & ext:ts", vec!["log_utils.ts", "console.log(newLog);"], vec![], false));
    v.push(case("js_ts_shared", "mixed_project", "javascript, typescript", "comment:REVIEW", vec!["log_utils.ts"], vec![], false));
    v.push(case("js_ts_shared", "mixed_project", "javascript, typescript", "str:logging:", vec!["logger.js"], vec![], false));
    v.push(case("js_ts_shared", "mixed_project", "javascript, typescript", "interface:ILog & type:LogLevel", vec!["log_utils.ts"], vec![], false));
    assert(case_queries(v@) =~= js_ts_shared_cases_queries());
    assert(cases_view(v@) =~= js_ts_shared_cases_spec());
    assert(cases_lists(v@) =~~= js_ts_shared_lists_spec());
    v
}

/// The queries of the `python_shared` suite.
pub open spec fn python_shared_cases_queries() -> Seq<Seq<char>> {
    seq!["def:Helper & ext:py"@, "func:run_helper"@, "import:os & ext:py"@, "comment:FIXME & class:Helper"@, "str:/tmp/data"@, "call:run_helper | call:do_setup"@]
}

/// The `python_shared` suite of the support matrix.
pub fn python_shared_cases() -> (v: Vec<SupportMatrixCase>)
    ensures
        case_queries(v@) == python_shared_cases_queries(),
        forall|i: int| 0 <= i < v@.len() ==> (#[trigger] v@[i]).suite@ == "python_shared"@,
        cases_view(v@) == python_shared_cases_spec(),
        cases_lists(v@) == python_shared_lists_spec(),
{
    let mut v: Vec<SupportMatrixCase> = Vec::new();
    v.push(case("python_shared", "mixed_project", "python", "def:Helper & ext:py", vec!["helper.py", "class Helper"], vec!["src/main.rs"], false));
    v.push(case("python_shared", "mixed_project", "python", "func:run_helper", vec!["helper.py", "def run_helper()"], vec!["src/main.rs"], false));
    v.push(case("python_shared", "mixed_project", "python", "import:os & ext:py", vec!["helper.py", "import os"], vec!["src/lib.rs"], false));
    v.push(case("python_shared", "mixed_project", "python", "comment:FIXME & class:Helper", vec!["helper.py"], vec![], false));
    v.push(case("python_shared", "mixed_project", "python", "str:/tmp/data", vec!["helper.py"], vec![], false));
    v.push(case("python_shared", "mixed_project", "python", "call:run_helper | call:do_setup", vec!["self.do_setup()", "run_helper()"], vec![], false));
    assert(case_queries(v@) =~= python_shared_cases_queries());
    assert(cases_view(v@) =~= python_shared_cases_spec());
    assert(cases_lists(v@) =~~= python_shared_lists_spec());
    v
}

/// The queries of the `react_shared` suite.
pub open spec fn react_shared_cases_queries() -> Seq<Seq<char>> {
    seq!["component:App & ext:tsx"@, "component:Button & ext:jsx"@, "element:h1 & ext:tsx"@, "element:Button & ext:tsx"@, "hook:useState"@, "hook:useAuth"@, "customhook:useAuth"@, "prop:onClick"@, "element:Button & prop:disabled"@]
}

/// The `react_shared` suite of the support matrix.
pub fn react_shared_cases() -> (v: Vec<SupportMatrixCase>)
    ensures
        case_queries(v@) == react_shared_cases_queries(),
        forall|i: int| 0 <= i < v@.len() ==> (#[trigger] v@[i]).suite@ == "react_shared"@,
        cases_view(v@) == react_shared_cases_spec(),
        cases_lists(v@) == react_shared_lists_spec(),
{
    let mut v: Vec<SupportMatrixCase> = Vec::new();
    v.push(case("react_shared", "mixed_project", "react, jsx, tsx", "component:App & ext:tsx", vec!["function App()"], vec![], false));
    v.push(case("react_shared", "mixed_project", "react, jsx, tsx", "component:Button & ext:jsx", vec!["export const Button"], vec![], false));
    v.push(case("react_shared", "mixed_project", "react, jsx, tsx", "element:h1 & ext:tsx", vec!["<h1>Welcome, {user?.name}</h1>"], vec![], true));
    v.push(case("react_shared", "mixed_project", "react, jsx, tsx", "element:Button & ext:tsx", vec!["<Button onClick="], vec![], true));
    v.push(case("react_shared", "mixed_project", "react, jsx, tsx", "hook:useState", vec!["const [count, setCount] = useState(0);"], vec![], true));
    v.push(case("react_shared", "mixed_project", "react, jsx, tsx", "hook:useAuth", vec!["const { user } = useAuth();"], vec![], true));
    v.push(case("react_shared", "mixed_project", "react, jsx, tsx", "customhook:useAuth", vec!["export default function useAuth()"], vec![], true));
    v.push(case("react_shared", "mixed_project", "react, jsx, tsx", "prop:onClick", vec!["<Button onClick={", "<button onClick={onClick}"], vec![], true));
    v.push(case("react_shared", "mixed_project", "react, jsx, tsx", "element:Button & prop:disabled", vec!["App.tsx"], vec!["Button.jsx"], true));
    assert(case_queries(v@) =~= react_shared_cases_queries());
    assert(cases_view(v@) =~= react_shared_cases_spec());
    assert(cases_lists(v@) =~~= react_shared_lists_spec());
    v
}

/// All cases: the JS/TS, Python and React suites in that order.
pub fn all_support_matrix_cases() -> (v: Vec<SupportMatrixCase>)
    ensures
        case_queries(v@) == js_ts_shared_cases_queries() + python_shared_cases_queries() + react_shared_cases_queries(),
        cases_view(v@) == all_cases_spec(),
        cases_lists(v@) == js_ts_shared_lists_spec() + python_shared_lists_spec() + react_shared_lists_spec(),
        all_cases_spec().len() == 24,
{
    let mut v = js_ts_shared_cases();
    let mut p = python_shared_cases();
    let mut r = react_shared_cases();
    let ghost a = v@;
    let ghost b = p@;
    let ghost c = r@;
    v.append(&mut p);
    v.append(&mut r);
    assert(case_queries(v@) =~= case_queries(a) + case_queries(b) + case_queries(c));
    assert(cases_view(v@) =~= cases_view(a) + cases_view(b) + cases_view(c));
    assert(cases_lists(v@) =~= cases_lists(a) + cases_lists(b) + cases_lists(c));
    v
}

/// The heading of the support matrix document, down to the table header.
pub open spec fn matrix_heading() -> Seq<char> {
    "# Semantic Support Matrix\n\nGenerated from the shared language-behavior tests that exercise cross-language semantic predicates.\n\n| Suite | Languages | Fixture | Query | Language-specific |\n| --- | --- | --- | --- | --- |\n"@
}

/// One table row of a case.
pub open spec fn matrix_row(c: SupportMatrixCase) -> Seq<char> {
    "| "@ + c.suite@ + " | "@ + c.language_scope@ + " | "@ + c.fixture@ + " | `"@ + c.query@ + "` | "@ + (if c.intentionally_language_specific {
        "yes"@
    } else {
        "no"@
    }) + " |\n"@
}

/// The table rows of cases.
pub open spec fn matrix_rows(cases: Seq<SupportMatrixCase>) -> Seq<char>
    decreases cases.len(),
{
    if cases.len() == 0 {
        Seq::<char>::empty()
    } else {
        matrix_rows(cases.drop_last()) + matrix_row(cases.last())
    }
}

/// The support matrix of the given cases as a Markdown document.
pub fn render_support_matrix_for(cases: &Vec<SupportMatrixCase>) -> (s: String)
    ensures
        s@ == matrix_heading() + matrix_rows(cases@),
{
    let mut out: Vec<char> = Vec::new();
    push_str(
        &mut out,
        "# Semantic Support Matrix\n\nGenerated from the shared language-behavior tests that exercise cross-language semantic predicates.\n\n| Suite | Languages | Fixture | Query | Language-specific |\n| --- | --- | --- | --- | --- |\n",
    );
    let mut i: usize = 0;
    while i < cases.len()
        invariant
            i <= cases.len(),
            out@ == matrix_heading() + matrix_rows(cases@.take(i as int)),
        decreases cases.len() - i,
    {
        let c = &cases[i];
        push_str(&mut out, "| ");
        push_str(&mut out, c.suite.as_str());
        push_str(&mut out, " | ");
        push_str(&mut out, c.language_scope.as_str());
        push_str(&mut out, " | ");
        push_str(&mut out, c.fixture.as_str());
        push_str(&mut out, " | `");
        push_str(&mut out, c.query.as_str());
        push_str(&mut out, "` | ");
        if c.intentionally_language_specific {
            push_str(&mut out, "yes");
        } else {
            push_str(&mut out, "no");
        }
        push_str(&mut out, " |\n");
        proof {
            assert(cases@.take(i + 1).drop_last() =~= cases@.take(i as int));
            assert(out@ =~= matrix_heading() + matrix_rows(cases@.take(i + 1)));
        }
        i = i + 1;
    }
    assert(cases@.take(i as int) =~= cases@);
    string_from_chars(&out)
}

/// The support matrix of all cases as a Markdown document.
pub fn render_support_matrix_markdown() -> (s: String)
    ensures
        s@ == matrix_heading() + rows_of_views(all_cases_spec()),
{
    let cases = all_support_matrix_cases();
    proof {
        lemma_rows_by_view(cases@);
    }
    render_support_matrix_for(&cases)
}

/// The rows of cases depend only on their views.
proof fn lemma_rows_by_view(cases: Seq<SupportMatrixCase>)
    ensures
        matrix_rows(cases) == rows_of_views(cases_view(cases)),
    decreases cases.len(),
{
    if cases.len() > 0 {
        lemma_rows_by_view(cases.drop_last());
        assert(cases_view(cases).drop_last() =~= cases_view(cases.drop_last()));
    }
}

} // verus!

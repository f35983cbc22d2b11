//! What the JavaScript analyzer reports of what it found: its functions,
//! classes and objects, and a text report.

use vstd::prelude::*;
use crate::queries::javascript::{JavaScriptSnippet, JavaScriptSnippetType, JavaScriptAnalysisResult};
use crate::text::{decimal, push_decimal, string_push_str};

verus! {

/// A function of any kind: declared, arrow, expression, method, class or
/// object method.
pub open spec fn js_function_kind(t: JavaScriptSnippetType) -> bool {
    ||| t == JavaScriptSnippetType::Function
    ||| t == JavaScriptSnippetType::ArrowFunction
    ||| t == JavaScriptSnippetType::FunctionExpression
    ||| t == JavaScriptSnippetType::Method
    ||| t == JavaScriptSnippetType::ClassMethod
    ||| t == JavaScriptSnippetType::ObjectMethod
}

/// The kinds of snippet a listing selects: functions (0), classes (1) or
/// objects (2).
pub open spec fn js_selected(t: JavaScriptSnippetType, which: u8) -> bool {
    if which == 0 {
        js_function_kind(t)
    } else if which == 1 {
        t == JavaScriptSnippetType::Class
    } else {
        t == JavaScriptSnippetType::Object
    }
}

/// The snippets of the selected kinds, in order.
pub open spec fn js_select(snippets: Seq<JavaScriptSnippet>, which: u8) -> Seq<JavaScriptSnippet>
    decreases snippets.len(),
{
    if snippets.len() == 0 {
        Seq::empty()
    } else {
        let rest = js_select(snippets.drop_last(), which);
        if js_selected(snippets.last().snippet_type, which) { rest.push(snippets.last()) } else { rest }
    }
}

fn is_selected(t: JavaScriptSnippetType, which: u8) -> (res: bool)
    ensures
        res == js_selected(t, which),
{
    if which == 0 {
        t == JavaScriptSnippetType::Function || t == JavaScriptSnippetType::ArrowFunction
            || t == JavaScriptSnippetType::FunctionExpression || t == JavaScriptSnippetType::Method
            || t == JavaScriptSnippetType::ClassMethod || t == JavaScriptSnippetType::ObjectMethod
    } else if which == 1 {
        t == JavaScriptSnippetType::Class
    } else {
        t == JavaScriptSnippetType::Object
    }
}

/// The snippets of the selected kinds, in order.
fn select<'a>(result: &'a JavaScriptAnalysisResult, which: u8) -> (res: Vec<&'a JavaScriptSnippet>)
    ensures
        res@.len() == js_select(result.snippets@, which).len(),
        forall|k: int| 0 <= k < res@.len() ==> *#[trigger] res@[k] == js_select(result.snippets@, which)[k],
{
    let mut res: Vec<&'a JavaScriptSnippet> = Vec::new();
    let mut i: usize = 0;
    while i < result.snippets.len()
        invariant
            i <= result.snippets@.len(),
            res@.len() == js_select(result.snippets@.subrange(0, i as int), which).len(),
            forall|k: int| 0 <= k < res@.len()
                ==> *#[trigger] res@[k] == js_select(result.snippets@.subrange(0, i as int), which)[k],
        decreases result.snippets@.len() - i,
    {
        proof {
            let s = result.snippets@.subrange(0, i + 1);
            assert(s.drop_last() =~= result.snippets@.subrange(0, i as int));
            assert(s.last() == result.snippets@[i as int]);
        }
        if is_selected(result.snippets[i].snippet_type, which) {
            res.push(&result.snippets[i]);
        }
        i = i + 1;
    }
    proof { assert(result.snippets@.subrange(0, result.snippets@.len() as int) =~= result.snippets@); }
    res
}

/// The functions found, of every kind, in order.
pub fn get_all_functions(result: &JavaScriptAnalysisResult) -> (res: Vec<&JavaScriptSnippet>)
    ensures
        res@.len() == js_select(result.snippets@, 0).len(),
        forall|k: int| 0 <= k < res@.len() ==> *#[trigger] res@[k] == js_select(result.snippets@, 0)[k],
{
    select(result, 0)
}

/// The classes found, in order.
pub fn get_all_classes(result: &JavaScriptAnalysisResult) -> (res: Vec<&JavaScriptSnippet>)
    ensures
        res@.len() == js_select(result.snippets@, 1).len(),
        forall|k: int| 0 <= k < res@.len() ==> *#[trigger] res@[k] == js_select(result.snippets@, 1)[k],
{
    select(result, 1)
}

/// The objects found, in order.
pub fn get_all_objects(result: &JavaScriptAnalysisResult) -> (res: Vec<&JavaScriptSnippet>)
    ensures
        res@.len() == js_select(result.snippets@, 2).len(),
        forall|k: int| 0 <= k < res@.len() ==> *#[trigger] res@[k] == js_select(result.snippets@, 2)[k],
{
    select(result, 2)
}

proof fn lemma_js_select_contains(snippets: Seq<JavaScriptSnippet>, which: u8, x: JavaScriptSnippet)
    ensures
        js_select(snippets, which).contains(x) <==> (snippets.contains(x) && js_selected(x.snippet_type, which)),
    decreases snippets.len(),
{
    if snippets.len() > 0 {
        let init = snippets.drop_last();
        lemma_js_select_contains(init, which, x);
        let rest = js_select(init, which);
        let r = js_select(snippets, which);
        if r.contains(x) {
            let k = choose|k: int| 0 <= k < r.len() && r[k] == x;
            if k < rest.len() {
                assert(rest[k] == x);
                let j = choose|j: int| 0 <= j < init.len() && init[j] == x;
                assert(snippets[j] == x);
            } else {
                assert(snippets[snippets.len() - 1] == x);
            }
        }
        if snippets.contains(x) && js_selected(x.snippet_type, which) {
            let j = choose|j: int| 0 <= j < snippets.len() && snippets[j] == x;
            if j < snippets.len() - 1 {
                assert(init[j] == x);
                let k = choose|k: int| 0 <= k < rest.len() && rest[k] == x;
                assert(r[k] == x);
            } else {
                assert(r[rest.len() as int] == x);
            }
        }
    }
}

/// The listings pick snippets by kind: the function listing holds exactly
/// the snippets that are functions of any kind (declared, arrow, function
/// expression, method, class method or object method), the class listing
/// exactly the classes, and the object listing exactly the objects.
pub proof fn law_listings_by_kind(snippets: Seq<JavaScriptSnippet>, x: JavaScriptSnippet)
    ensures
        js_select(snippets, 0).contains(x) <==> (snippets.contains(x) && (
            x.snippet_type == JavaScriptSnippetType::Function
            || x.snippet_type == JavaScriptSnippetType::ArrowFunction
            || x.snippet_type == JavaScriptSnippetType::FunctionExpression
            || x.snippet_type == JavaScriptSnippetType::Method
            || x.snippet_type == JavaScriptSnippetType::ClassMethod
            || x.snippet_type == JavaScriptSnippetType::ObjectMethod)),
        js_select(snippets, 1).contains(x) <==> (snippets.contains(x) && x.snippet_type == JavaScriptSnippetType::Class),
        js_select(snippets, 2).contains(x) <==> (snippets.contains(x) && x.snippet_type == JavaScriptSnippetType::Object),
{
    lemma_js_select_contains(snippets, 0, x);
    lemma_js_select_contains(snippets, 1, x);
    lemma_js_select_contains(snippets, 2, x);
}

/// A report line for a snippet: `  - name (file:start-end)`.
pub open spec fn js_report_line(s: JavaScriptSnippet) -> Seq<char> {
    "  - "@ + s.name@ + " ("@ + s.file_path@ + ":"@ + decimal(s.start_line as nat) + "-"@ + decimal(s.end_line as nat)
        + ")\n"@
}

/// The report lines of the snippets, one after the other.
pub open spec fn js_report_lines(snippets: Seq<JavaScriptSnippet>) -> Seq<char>
    decreases snippets.len(),
{
    if snippets.len() == 0 {
        Seq::empty()
    } else {
        js_report_lines(snippets.drop_last()) + js_report_line(snippets.last())
    }
}

/// The analysis report: the counts, then the functions, classes and objects,
/// one line each.
pub open spec fn js_report(r: JavaScriptAnalysisResult) -> Seq<char> {
    "=== JavaScript Code Analysis Report ===\n\n"@
        + "Total Snippets: "@ + decimal(r.snippets@.len()) + "\n"@
        + "Total Function Calls: "@ + decimal(r.function_calls@.len()) + "\n"@
        + "Total Scopes: "@ + decimal(r.scopes@.len()) + "\n"@
        + "Total Imports: "@ + decimal(r.imports@.len()) + "\n"@
        + "Total Exports: "@ + decimal(r.exports@.len()) + "\n"@
        + "\n=== Functions ===\n"@ + js_report_lines(js_select(r.snippets@, 0))
        + "\n=== Classes ===\n"@ + js_report_lines(js_select(r.snippets@, 1))
        + "\n=== Objects ===\n"@ + js_report_lines(js_select(r.snippets@, 2))
}

/// Appends the report lines of the selected snippets.
fn push_report_lines(report: &mut String, items: &Vec<&JavaScriptSnippet>, Ghost(expected): Ghost<Seq<JavaScriptSnippet>>)
    requires
        items@.len() == expected.len(),
        forall|k: int| 0 <= k < items@.len() ==> *#[trigger] items@[k] == expected[k],
    ensures
        final(report)@ == old(report)@ + js_report_lines(expected),
{
    let ghost start = report@;
    let mut i: usize = 0;
    while i < items.len()
        invariant
            i <= items@.len(),
            items@.len() == expected.len(),
            forall|k: int| 0 <= k < items@.len() ==> *#[trigger] items@[k] == expected[k],
            report@ == start + js_report_lines(expected.subrange(0, i as int)),
        decreases items@.len() - i,
    {
        let s = items[i];
        let ghost before = report@;
        string_push_str(report, "  - ");
        string_push_str(report, s.name.as_str());
        string_push_str(report, " (");
        string_push_str(report, s.file_path.as_str());
        string_push_str(report, ":");
        push_decimal(report, s.start_line as u64);
        string_push_str(report, "-");
        push_decimal(report, s.end_line as u64);
        string_push_str(report, ")\n");
        proof {
            let sub = expected.subrange(0, i + 1);
            assert(sub.drop_last() =~= expected.subrange(0, i as int));
            assert(sub.last() == expected[i as int]);
            assert(*items@[i as int] == expected[i as int]);
            assert(report@ =~= before + js_report_line(expected[i as int]));
        }
        i = i + 1;
    }
    proof { assert(expected.subrange(0, expected.len() as int) =~= expected); }
}

/// The analysis report: counts, then the functions, classes and objects found.
pub fn generate_report(result: &JavaScriptAnalysisResult) -> (res: String)
    ensures
        res@ == js_report(*result),
{
    let mut report = String::new();
    string_push_str(&mut report, "=== JavaScript Code Analysis Report ===\n\n");
    string_push_str(&mut report, "Total Snippets: ");
    push_decimal(&mut report, result.snippets.len() as u64);
    string_push_str(&mut report, "\n");
    string_push_str(&mut report, "Total Function Calls: ");
    push_decimal(&mut report, result.function_calls.len() as u64);
    string_push_str(&mut report, "\n");
    string_push_str(&mut report, "Total Scopes: ");
    push_decimal(&mut report, result.scopes.len() as u64);
    string_push_str(&mut report, "\n");
    string_push_str(&mut report, "Total Imports: ");
    push_decimal(&mut report, result.imports.len() as u64);
    string_push_str(&mut report, "\n");
    string_push_str(&mut report, "Total Exports: ");
    push_decimal(&mut report, result.exports.len() as u64);
    string_push_str(&mut report, "\n");
    string_push_str(&mut report, "\n=== Functions ===\n");
    let functions = get_all_functions(result);
    push_report_lines(&mut report, &functions, Ghost(js_select(result.snippets@, 0)));
    string_push_str(&mut report, "\n=== Classes ===\n");
    let classes = get_all_classes(result);
    push_report_lines(&mut report, &classes, Ghost(js_select(result.snippets@, 1)));
    string_push_str(&mut report, "\n=== Objects ===\n");
    let objects = get_all_objects(result);
    push_report_lines(&mut report, &objects, Ghost(js_select(result.snippets@, 2)));
    proof {
        assert(report@ =~= js_report(*result));
    }
    report
}

} // verus!

use codegraph::http::models::QueryCodeSnippetRequest;
use codegraph::http::snippets::{code_skeleton, query_code_snippet, snippet_target};
use codegraph::languages::LanguageId;
use codegraph::http::call_graph::{call_graph_chart, expand_call_chain, query_call_graph, CallGraphView, GraphEntry, GraphFunction, GraphLink};
use codegraph::graph_types::CodeGraphStats;
use codegraph::http::models::{FunctionInfo, QueryCallGraphRequest};

fn func(id: &str, name: &str, file: &str, start: usize, end: usize) -> GraphFunction {
    GraphFunction {
        id: id.to_string(),
        name: name.to_string(),
        file_path: file.to_string(),
        line_start: start,
        line_end: end,
    }
}

fn link(id: &str, name: &str, file: &str, line: usize) -> GraphLink {
    GraphLink { function: func(id, name, file, 0, 0), line_number: line }
}

// main (src/main.rs) calls helper and util; helper (src/lib.rs) calls util.
pub fn sample_graph() -> CallGraphView {
    CallGraphView {
        entries: vec![
            GraphEntry {
                function: func("id-main", "main", "src/main.rs", 1, 10),
                callers: vec![],
                callees: vec![link("id-helper", "helper", "src/lib.rs", 3), link("id-util", "util", "src/lib.rs", 4)],
            },
            GraphEntry {
                function: func("id-helper", "helper", "src/lib.rs", 1, 5),
                callers: vec![link("id-main", "main", "src/main.rs", 3)],
                callees: vec![link("id-util", "util", "src/lib.rs", 2)],
            },
            GraphEntry {
                function: func("id-util", "util", "src/lib.rs", 7, 9),
                callers: vec![link("id-main", "main", "src/main.rs", 4), link("id-helper", "helper", "src/lib.rs", 2)],
                callees: vec![],
            },
        ],
        stats: CodeGraphStats { total_functions: 3, total_files: 2, total_languages: 1, resolved_calls: 3, unresolved_calls: 1 },
    }
}

fn names(f: &FunctionInfo) -> (Vec<(String, usize)>, Vec<(String, usize)>) {
    (
        f.callers.iter().map(|c| (c.function_name.clone(), c.line_number)).collect(),
        f.callees.iter().map(|c| (c.function_name.clone(), c.line_number)).collect(),
    )
}

fn owned(v: &[(&str, usize)]) -> Vec<(String, usize)> {
    v.iter().map(|(n, l)| (n.to_string(), *l)).collect()
}

#[test]
fn depth_one_lists_the_file_functions_with_direct_calls() {
    let req = QueryCallGraphRequest { filepath: "src/lib.rs".to_string(), function_name: None, max_depth: Some(1) };
    let res = query_call_graph(&sample_graph(), req);
    assert_eq!(res.filepath, "src/lib.rs");
    assert_eq!(res.functions.len(), 2);
    assert_eq!(res.functions[0].id, "id-helper");
    assert_eq!(res.functions[0].line_start, 1);
    assert_eq!(names(&res.functions[0]), (owned(&[("main", 3)]), owned(&[("util", 2)])));
    assert_eq!(res.functions[1].name, "util");
    assert_eq!(names(&res.functions[1]), (owned(&[("main", 4), ("helper", 2)]), owned(&[])));
}

#[test]
fn default_depth_expands_one_level_and_merges_by_name() {
    let req = QueryCallGraphRequest { filepath: "src/main.rs".to_string(), function_name: None, max_depth: None };
    let res = query_call_graph(&sample_graph(), req);
    let got: Vec<String> = res.functions.iter().map(|f| f.name.clone()).collect();
    assert_eq!(got, vec!["main", "helper", "util"]);
    assert_eq!(names(&res.functions[0]), (owned(&[]), owned(&[("helper", 3), ("util", 4)])));
    // A function reached by the expansion is listed with the relation that reached it.
    assert_eq!(names(&res.functions[1]), (owned(&[]), owned(&[("helper", 3)])));
    assert_eq!(names(&res.functions[2]), (owned(&[]), owned(&[("util", 4)])));
    assert_eq!(res.functions[1].line_end, 0);
}

#[test]
fn query_by_name_and_deeper_expansion() {
    let req = QueryCallGraphRequest {
        filepath: "ignored".to_string(),
        function_name: Some("util".to_string()),
        max_depth: Some(3),
    };
    let res = query_call_graph(&sample_graph(), req);
    let got: Vec<String> = res.functions.iter().map(|f| f.name.clone()).collect();
    assert_eq!(got, vec!["util", "main", "helper"]);
    assert_eq!(names(&res.functions[0]), (owned(&[("main", 4), ("helper", 2)]), owned(&[])));
    // main is reached first as a caller of util; helper then, and from helper main again,
    // whose caller list already names main.
    assert_eq!(names(&res.functions[1]), (owned(&[("main", 4)]), owned(&[])));
    assert_eq!(names(&res.functions[2]), (owned(&[("helper", 2)]), owned(&[])));
}

#[test]
fn unknown_names_give_an_empty_answer() {
    let req = QueryCallGraphRequest { filepath: "x".to_string(), function_name: Some("nope".to_string()), max_depth: Some(5) };
    let res = query_call_graph(&sample_graph(), req);
    assert!(res.functions.is_empty());
}

#[test]
fn chart_links_only_functions_of_the_answer() {
    let req = QueryCallGraphRequest { filepath: "src/main.rs".to_string(), function_name: None, max_depth: None };
    let res = query_call_graph(&sample_graph(), req);
    let (nodes, links) = call_graph_chart(&res);
    let names: Vec<&str> = nodes.iter().map(|n| n.name.as_str()).collect();
    assert_eq!(names, vec!["main", "helper", "util"]);
    assert!(nodes.iter().all(|n| n.file_path == "src/main.rs"));
    let got: Vec<(String, String, String)> = links.iter().map(|l| (l.source.clone(), l.target.clone(), l.kind.clone())).collect();
    let want: Vec<(String, String, String)> = [
        ("main", "helper", "calls"),
        ("main", "util", "calls"),
        ("helper", "helper", "calls"),
        ("util", "util", "calls"),
    ]
    .iter()
    .map(|(a, b, c)| (a.to_string(), b.to_string(), c.to_string()))
    .collect();
    assert_eq!(got, want);

    let req = QueryCallGraphRequest { filepath: "src/lib.rs".to_string(), function_name: None, max_depth: Some(1) };
    let res = query_call_graph(&sample_graph(), req);
    let (_, links) = call_graph_chart(&res);
    // helper is called by main, which the answer does not list; util is called by helper.
    let got: Vec<(String, String, String)> = links.iter().map(|l| (l.source.clone(), l.target.clone(), l.kind.clone())).collect();
    assert_eq!(
        got,
        vec![
            ("helper".to_string(), "util".to_string(), "calls".to_string()),
            ("helper".to_string(), "util".to_string(), "called_by".to_string()),
        ]
    );
}

#[test]
fn code_snippet_of_the_asked_function() {
    let graph = sample_graph();
    let req = QueryCodeSnippetRequest {
        filepath: "src/lib.rs".to_string(),
        function_name: None,
        include_context: Some(false),
        context_lines: None,
    };
    let target = snippet_target(&graph, &req).unwrap();
    assert_eq!(target.name, "helper");
    let lines: Vec<String> = (0..12).map(|i| format!("line {}", i)).collect();
    let res = query_code_snippet(target, &lines, &req);
    assert_eq!(res.code_snippet, "line 1\nline 2\nline 3\nline 4");
    assert_eq!(res.function_name.as_deref(), Some("helper"));
    assert_eq!(res.language, "rust");
    assert_eq!((res.line_start, res.line_end), (1, 5));
    let req = QueryCodeSnippetRequest {
        filepath: "ignored".to_string(),
        function_name: Some("util".to_string()),
        include_context: None,
        context_lines: Some(1),
    };
    let target = snippet_target(&graph, &req).unwrap();
    let res = query_code_snippet(target, &lines, &req);
    assert_eq!(res.code_snippet, "line 6\nline 7\nline 8\nline 9");
    let req = QueryCodeSnippetRequest {
        filepath: "none.rs".to_string(),
        function_name: None,
        include_context: None,
        context_lines: None,
    };
    assert!(snippet_target(&graph, &req).is_none());
}

#[test]
fn file_outline_joins_declarations_with_blank_lines() {
    let lines = vec!["type A struct {\n}".to_string(), "type B struct {\n  X int\n}".to_string()];
    let res = code_skeleton("a.go".to_string(), LanguageId::Go, &lines);
    assert_eq!(res.filepath, "a.go");
    assert_eq!(res.language, "go");
    assert_eq!(res.skeleton_text, "type A struct {\n}\n\ntype B struct {\n  X int\n}");
    assert_eq!(code_skeleton("b.rs".to_string(), LanguageId::Rust, &vec![]).skeleton_text, "");
}

#[test]
fn call_chain_expansion_stops_at_the_depth() {
    // x calls y, y calls z, z calls x.
    let graph = CallGraphView {
        entries: vec![
            GraphEntry { function: func("x", "x", "a.rs", 1, 2), callers: vec![link("z", "z", "a.rs", 9)], callees: vec![link("y", "y", "a.rs", 1)] },
            GraphEntry { function: func("y", "y", "a.rs", 3, 4), callers: vec![link("x", "x", "a.rs", 1)], callees: vec![link("z", "z", "a.rs", 3)] },
            GraphEntry { function: func("z", "z", "a.rs", 5, 9), callers: vec![link("y", "y", "a.rs", 3)], callees: vec![link("x", "x", "a.rs", 9)] },
        ],
        stats: CodeGraphStats { total_functions: 3, total_files: 1, total_languages: 1, resolved_calls: 3, unresolved_calls: 0 },
    };
    let ids = |fs: &Vec<FunctionInfo>| fs.iter().map(|f| f.id.clone()).collect::<Vec<String>>();
    let mut visited = Vec::new();
    let mut fs = Vec::new();
    expand_call_chain(&graph, &"x".to_string(), &mut visited, &mut fs, 1, false);
    assert_eq!(ids(&fs), vec!["y".to_string()]);
    let mut visited = Vec::new();
    let mut fs = Vec::new();
    expand_call_chain(&graph, &"x".to_string(), &mut visited, &mut fs, 2, false);
    assert_eq!(ids(&fs), vec!["y".to_string(), "z".to_string()]);
    let mut visited = Vec::new();
    let mut fs = Vec::new();
    expand_call_chain(&graph, &"x".to_string(), &mut visited, &mut fs, 10, false);
    assert_eq!(ids(&fs), vec!["y".to_string(), "z".to_string(), "x".to_string()]);
    let mut fs = Vec::new();
    expand_call_chain(&graph, &"x".to_string(), &mut visited, &mut fs, 10, false);
    assert!(fs.is_empty());
}

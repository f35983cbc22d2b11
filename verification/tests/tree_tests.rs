use codegraph::graph_types::CodeGraphStats;
use codegraph::http::call_graph::{CallGraphView, GraphEntry, GraphFunction, GraphLink};
use codegraph::http::models::{HierarchicalNode, QueryHierarchicalGraphRequest};
use codegraph::http::tree::{build_hierarchical_tree_from_function, create_default_tree_structure, query_hierarchical_graph};

fn func(id: &str, name: &str, file: &str, start: usize, end: usize) -> GraphFunction {
    GraphFunction { id: id.to_string(), name: name.to_string(), file_path: file.to_string(), line_start: start, line_end: end }
}

fn link(id: &str, name: &str, file: &str, start: usize, end: usize, line: usize) -> GraphLink {
    GraphLink { function: func(id, name, file, start, end), line_number: line }
}

fn graph() -> CallGraphView {
    CallGraphView {
        entries: vec![
            GraphEntry {
                function: func("m", "main", "src/main.rs", 1, 10),
                callers: vec![],
                callees: vec![link("h", "helper", "src/lib.rs", 1, 5, 3), link("u", "util", "src/lib.rs", 7, 9, 4)],
            },
            GraphEntry {
                function: func("h", "helper", "src/lib.rs", 1, 5),
                callers: vec![link("m", "main", "src/main.rs", 1, 10, 3)],
                callees: vec![link("u", "util", "src/lib.rs", 7, 9, 2)],
            },
            GraphEntry {
                function: func("u", "util", "src/lib.rs", 7, 9),
                callers: vec![],
                callees: vec![],
            },
        ],
        stats: CodeGraphStats { total_functions: 3, total_files: 2, total_languages: 1, resolved_calls: 3, unresolved_calls: 2 },
    }
}

fn shape(n: &HierarchicalNode) -> String {
    let kids: Vec<String> = n.children.iter().map(shape).collect();
    if kids.is_empty() {
        n.name.clone()
    } else {
        format!("{}[{}]", n.name, kids.join(","))
    }
}

#[test]
fn call_tree_stops_at_the_depth_limit() {
    let tree = build_hierarchical_tree_from_function(&graph(), &"main".to_string(), 2, true).unwrap();
    assert_eq!(shape(&tree), "main[helper[util (max depth reached)],util]");
    assert_eq!(tree.call_type.as_deref(), Some("function"));
    assert_eq!(tree.children[0].children[0].call_type.as_deref(), Some("max_depth"));
    assert_eq!(tree.children[0].file_path.as_deref(), Some("src/lib.rs"));
    assert_eq!(tree.line_start, Some(1));
    assert_eq!(tree.function_id.as_deref(), Some("m"));
}

#[test]
fn call_tree_without_file_information() {
    let tree = build_hierarchical_tree_from_function(&graph(), &"helper".to_string(), 5, false).unwrap();
    assert_eq!(shape(&tree), "helper[util]");
    assert_eq!(tree.file_path, None);
    assert_eq!(tree.line_end, None);
    assert!(build_hierarchical_tree_from_function(&graph(), &"missing".to_string(), 5, false).is_none());
    let leaf = build_hierarchical_tree_from_function(&graph(), &"main".to_string(), 0, true).unwrap();
    assert_eq!(shape(&leaf), "main (max depth reached)");
}

#[test]
fn project_tree_groups_functions_by_file() {
    let tree = create_default_tree_structure(&graph(), true);
    assert_eq!(tree.name, "Project Functions");
    assert_eq!(tree.call_type, None);
    assert_eq!(shape(&tree), "Project Functions[\u{1F4C1} main.rs[main],\u{1F4C1} lib.rs[helper,util]]");
    assert_eq!(tree.children[1].file_path.as_deref(), Some("src/lib.rs"));
    assert_eq!(tree.children[1].children[1].line_start, Some(7));
    assert_eq!(tree.children[1].children[1].function_id.as_deref(), Some("u"));
}

#[test]
fn hierarchical_query_defaults_and_fallback() {
    let req = QueryHierarchicalGraphRequest {
        project_id: None,
        root_function: Some("nothing".to_string()),
        max_depth: None,
        include_file_info: None,
    };
    let res = query_hierarchical_graph(&graph(), "p1".to_string(), req);
    assert_eq!(res.project_id, "p1");
    assert_eq!(res.max_depth, 2);
    assert_eq!(res.root_function.as_deref(), Some("nothing"));
    assert_eq!(res.tree_structure.name, "Project Functions");
    assert_eq!(res.total_functions, 3);
    assert_eq!(res.total_relations, 5);

    let req = QueryHierarchicalGraphRequest {
        project_id: None,
        root_function: Some("main".to_string()),
        max_depth: Some(1),
        include_file_info: Some(false),
    };
    let res = query_hierarchical_graph(&graph(), "p1".to_string(), req);
    assert_eq!(shape(&res.tree_structure), "main[helper (max depth reached),util (max depth reached)]");
    assert_eq!(res.tree_structure.children[0].file_path, None);
}

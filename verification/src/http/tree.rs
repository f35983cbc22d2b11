//! The call tree query: the functions a function calls, level under level,
//! or, without a root function, the project's functions grouped by file.

use vstd::prelude::*;
use crate::http::call_graph::{CallGraphView, GraphEntry, GraphFunction, GraphLink, links_of, entry_position, visited_set, is_visited, mark_visited};
use crate::http::models::{HierarchicalNode, QueryHierarchicalGraphRequest, QueryHierarchicalGraphResponse};
use crate::languages::{path_file_name, path_file_name_of};
use crate::text::string_push_str;

verus! {

/// A node of the call tree as a value.
pub struct TreeModel {
    pub name: Seq<char>,
    pub function_id: Option<Seq<char>>,
    pub file_path: Option<Seq<char>>,
    pub line_start: Option<usize>,
    pub line_end: Option<usize>,
    pub children: Seq<TreeModel>,
    pub call_type: Option<Seq<char>>,
}

/// The text of an optional string.
pub open spec fn opt_text(s: Option<String>) -> Option<Seq<char>> {
    match s {
        Some(x) => Some(x@),
        None => None,
    }
}

/// The value of a node of the call tree.
pub open spec fn tree_model(n: HierarchicalNode) -> TreeModel
    decreases n, 0int,
{
    TreeModel {
        name: n.name@,
        function_id: opt_text(n.function_id),
        file_path: opt_text(n.file_path),
        line_start: n.line_start,
        line_end: n.line_end,
        children: tree_models(n.children@),
        call_type: opt_text(n.call_type),
    }
}

/// The values of a list of nodes.
pub open spec fn tree_models(ns: Seq<HierarchicalNode>) -> Seq<TreeModel>
    decreases ns, 1int,
{
    if ns.len() == 0 {
        Seq::empty()
    } else {
        tree_models(ns.subrange(0, ns.len() - 1)).push(tree_model(ns[ns.len() - 1]))
    }
}

proof fn lemma_tree_models_push(ns: Seq<HierarchicalNode>, n: HierarchicalNode)
    ensures
        tree_models(ns.push(n)) == tree_models(ns).push(tree_model(n)),
        tree_models(ns).len() == ns.len(),
    decreases ns.len(),
{
    assert(ns.push(n).subrange(0, ns.len() as int) =~= ns);
    if ns.len() > 0 {
        lemma_tree_models_push(ns.subrange(0, ns.len() - 1), ns[ns.len() - 1]);
        assert(ns.subrange(0, ns.len() - 1).push(ns[ns.len() - 1]) =~= ns);
    }
}

/// A function met again or past the depth: a leaf that says so.
pub open spec fn depth_leaf(f: GraphFunction, include_file_info: bool) -> TreeModel {
    TreeModel {
        name: f.name@ + " (max depth reached)"@,
        function_id: Some(f.id@),
        file_path: if include_file_info { Some(f.file_path@) } else { None },
        line_start: if include_file_info { Some(f.line_start) } else { None },
        line_end: if include_file_info { Some(f.line_end) } else { None },
        children: Seq::empty(),
        call_type: Some("max_depth"@),
    }
}

/// A function node with the trees of the functions it calls.
pub open spec fn function_node(f: GraphFunction, children: Seq<TreeModel>, include_file_info: bool) -> TreeModel {
    TreeModel {
        name: f.name@,
        function_id: Some(f.id@),
        file_path: if include_file_info { Some(f.file_path@) } else { None },
        line_start: if include_file_info { Some(f.line_start) } else { None },
        line_end: if include_file_info { Some(f.line_end) } else { None },
        children,
        call_type: Some("function"@),
    }
}

/// The call tree of `f` at `depth`: a leaf when the depth reaches
/// `max_depth` or `f` was visited; else `f` is marked visited and its
/// callees, in the graph's order, give its subtrees one level deeper. The
/// visited set threads through the whole walk.
pub open spec fn call_tree(
    es: Seq<GraphEntry>,
    f: GraphFunction,
    max_depth: nat,
    depth: nat,
    visited: Set<Seq<char>>,
    include_file_info: bool,
) -> (Set<Seq<char>>, TreeModel)
    decreases max_depth - depth, 1int, 0int,
{
    if depth >= max_depth || visited.contains(f.id@) {
        (visited, depth_leaf(f, include_file_info))
    } else {
        let r = subtrees(es, links_of(es, f.id@, false), 0, visited.insert(f.id@), max_depth, depth + 1, include_file_info);
        (r.0, function_node(f, r.1, include_file_info))
    }
}

/// The trees of the callees `links[i..]` at `depth`.
pub open spec fn subtrees(
    es: Seq<GraphEntry>,
    links: Seq<GraphLink>,
    i: nat,
    visited: Set<Seq<char>>,
    max_depth: nat,
    depth: nat,
    include_file_info: bool,
) -> (Set<Seq<char>>, Seq<TreeModel>)
    decreases max_depth - depth, 2int, links.len() - i,
{
    if i >= links.len() {
        (visited, Seq::empty())
    } else {
        let c = call_tree(es, links[i as int].function, max_depth, depth, visited, include_file_info);
        let rest = subtrees(es, links, i + 1, c.0, max_depth, depth, include_file_info);
        (rest.0, seq![c.1] + rest.1)
    }
}

/// An optional copy of a string: the string when `keep`, else none.
fn kept(keep: bool, s: &String) -> (res: Option<String>)
    ensures
        opt_text(res) == (if keep { Some(s@) } else { None::<Seq<char>> }),
{
    if keep { Some(s.clone()) } else { None }
}

/// An optional number: the number when `keep`, else none.
fn kept_number(keep: bool, n: usize) -> (res: Option<usize>)
    ensures
        res == (if keep { Some(n) } else { None::<usize> }),
{
    if keep { Some(n) } else { None }
}

/// Builds the call tree of `function` (see `call_tree`).
pub fn build_hierarchical_node(
    graph: &CallGraphView,
    function: &GraphFunction,
    max_depth: usize,
    current_depth: usize,
    visited: &mut Vec<String>,
    include_file_info: bool,
) -> (res: HierarchicalNode)
    ensures
        (visited_set(final(visited)@), tree_model(res)) == call_tree(
            graph.entries@,
            *function,
            max_depth as nat,
            current_depth as nat,
            visited_set(old(visited)@),
            include_file_info,
        ),
    decreases max_depth - current_depth,
{
    let ghost es = graph.entries@;
    if current_depth >= max_depth || is_visited(visited, &function.id) {
        let mut name = function.name.clone();
        string_push_str(&mut name, " (max depth reached)");
        let res = HierarchicalNode {
            name,
            function_id: Some(function.id.clone()),
            file_path: kept(include_file_info, &function.file_path),
            line_start: kept_number(include_file_info, function.line_start),
            line_end: kept_number(include_file_info, function.line_end),
            children: Vec::new(),
            call_type: Some(String::from_str("max_depth")),
        };
        proof {
            let empty: Seq<HierarchicalNode> = Seq::empty();
            assert(res.children@ =~= empty);
            assert(tree_models(empty) =~= Seq::<TreeModel>::empty());
            assert(tree_model(res) =~= depth_leaf(*function, include_file_info));
        }
        return res;
    }
    mark_visited(visited, &function.id);
    let ghost links = links_of(es, function.id@, false);
    let ghost v1 = visited_set(visited@);
    let mut children: Vec<HierarchicalNode> = Vec::new();
    let empty_links: Vec<GraphLink> = Vec::new();
    let callees: &Vec<GraphLink> = match entry_position(&graph.entries, &function.id) {
        Some(p) => &graph.entries[p].callees,
        None => &empty_links,
    };
    assert(callees@ == links);
    let mut i: usize = 0;
    while i < callees.len()
        invariant
            current_depth < max_depth,
            i <= callees@.len(),
            es == graph.entries@,
            callees@ == links,
            subtrees(es, links, 0, v1, max_depth as nat, (current_depth + 1) as nat, include_file_info)
                == (subtrees(es, links, i as nat, visited_set(visited@), max_depth as nat, (current_depth + 1) as nat, include_file_info).0,
                    tree_models(children@) + subtrees(es, links, i as nat, visited_set(visited@), max_depth as nat, (current_depth + 1) as nat, include_file_info).1),
        decreases callees@.len() - i,
    {
        let ghost vi = visited_set(visited@);
        let ghost before = children@;
        let child = build_hierarchical_node(graph, &callees[i].function, max_depth, current_depth + 1, visited, include_file_info);
        children.push(child);
        proof {
            lemma_tree_models_push(before, child);
            let d = (current_depth + 1) as nat;
            let c = call_tree(es, links[i as int].function, max_depth as nat, d, vi, include_file_info);
            let rest = subtrees(es, links, (i + 1) as nat, c.0, max_depth as nat, d, include_file_info);
            assert(tree_models(before) + (seq![c.1] + rest.1) =~= tree_models(children@) + rest.1);
        }
        i = i + 1;
    }
    let res = HierarchicalNode {
        name: function.name.clone(),
        function_id: Some(function.id.clone()),
        file_path: kept(include_file_info, &function.file_path),
        line_start: kept_number(include_file_info, function.line_start),
        line_end: kept_number(include_file_info, function.line_end),
        children,
        call_type: Some(String::from_str("function")),
    };
    proof {
        let r = subtrees(es, links, i as nat, visited_set(visited@), max_depth as nat, (current_depth + 1) as nat, include_file_info);
        assert(r.1 =~= Seq::<TreeModel>::empty());
        assert(tree_models(res.children@) + r.1 =~= tree_models(res.children@));
        assert(tree_model(res) =~= function_node(*function, tree_models(res.children@), include_file_info));
    }
    res
}

/// The position of the graph's first function named `name`, or -1.
pub open spec fn name_pos(es: Seq<GraphEntry>, name: Seq<char>) -> int
    decreases es.len(),
{
    if es.len() == 0 {
        -1
    } else if es[0].function.name@ == name {
        0
    } else {
        let r = name_pos(es.drop_first(), name);
        if r < 0 { -1 } else { r + 1 }
    }
}

/// `name_pos` is the first match.
pub proof fn lemma_name_pos(es: Seq<GraphEntry>, name: Seq<char>)
    ensures
        -1 <= name_pos(es, name) < es.len(),
        name_pos(es, name) >= 0 ==> es[name_pos(es, name)].function.name@ == name,
        forall|j: int| 0 <= j < es.len() && (name_pos(es, name) < 0 || j < name_pos(es, name))
            ==> #[trigger] es[j].function.name@ != name,
    decreases es.len(),
{
    if es.len() > 0 {
        lemma_name_pos(es.drop_first(), name);
        assert forall|j: int| 0 <= j < es.len() && (name_pos(es, name) < 0 || j < name_pos(es, name))
            implies #[trigger] es[j].function.name@ != name by {
            if j > 0 {
                assert(es[j] == es.drop_first()[j - 1]);
            }
        }
    }
}

/// The call tree from the graph's first function named `name`, from depth
/// 0 with nothing visited; none when no function has that name.
pub open spec fn tree_from_function(es: Seq<GraphEntry>, name: Seq<char>, max_depth: nat, include_file_info: bool) -> Option<TreeModel> {
    let p = name_pos(es, name);
    if p < 0 {
        None
    } else {
        Some(call_tree(es, es[p].function, max_depth, 0, Set::empty(), include_file_info).1)
    }
}

/// Builds the call tree from the first function named `function_name`, or
/// gives none when the graph has no function of that name.
pub fn build_hierarchical_tree_from_function(
    graph: &CallGraphView,
    function_name: &String,
    max_depth: usize,
    include_file_info: bool,
) -> (res: Option<HierarchicalNode>)
    ensures
        match res {
            Some(n) => tree_from_function(graph.entries@, function_name@, max_depth as nat, include_file_info)
                == Some(tree_model(n)),
            None => tree_from_function(graph.entries@, function_name@, max_depth as nat, include_file_info) is None,
        },
{
    let ghost es = graph.entries@;
    proof { lemma_name_pos(es, function_name@); }
    let mut i: usize = 0;
    while i < graph.entries.len()
        invariant
            i <= es.len(),
            es == graph.entries@,
            forall|j: int| 0 <= j < i ==> #[trigger] es[j].function.name@ != function_name@,
            -1 <= name_pos(es, function_name@) < es.len(),
            name_pos(es, function_name@) >= 0 ==> es[name_pos(es, function_name@)].function.name@ == function_name@,
            forall|j: int| 0 <= j < es.len() && (name_pos(es, function_name@) < 0 || j < name_pos(es, function_name@))
                ==> #[trigger] es[j].function.name@ != function_name@,
        decreases es.len() - i,
    {
        if graph.entries[i].function.name == *function_name {
            assert(name_pos(es, function_name@) == i as int) by {
                let p = name_pos(es, function_name@);
                if p < 0 || p > i as int {
                    assert(es[i as int].function.name@ != function_name@);
                } else if p < i as int {
                    assert(es[p].function.name@ != function_name@);
                }
            }
            let mut visited: Vec<String> = Vec::new();
            assert(visited_set(visited@) =~= Set::empty());
            let node = build_hierarchical_node(graph, &graph.entries[i].function, max_depth, 0, &mut visited, include_file_info);
            return Some(node);
        }
        i = i + 1;
    }
    None
}

/// A function under its file in the project tree.
pub open spec fn function_leaf(f: GraphFunction) -> TreeModel {
    TreeModel {
        name: f.name@,
        function_id: Some(f.id@),
        file_path: Some(f.file_path@),
        line_start: Some(f.line_start),
        line_end: Some(f.line_end),
        children: Seq::empty(),
        call_type: Some("function"@),
    }
}

/// A file and the leaves of its functions.
pub type FileGroup = (Seq<char>, Seq<TreeModel>);

/// The position of the group of the file `path`, or -1.
pub open spec fn group_pos(gs: Seq<FileGroup>, path: Seq<char>) -> int
    decreases gs.len(),
{
    if gs.len() == 0 {
        -1
    } else if gs[0].0 == path {
        0
    } else {
        let r = group_pos(gs.drop_first(), path);
        if r < 0 { -1 } else { r + 1 }
    }
}

proof fn lemma_group_pos(gs: Seq<FileGroup>, path: Seq<char>)
    ensures
        -1 <= group_pos(gs, path) < gs.len(),
        group_pos(gs, path) >= 0 ==> gs[group_pos(gs, path)].0 == path,
        forall|j: int| 0 <= j < gs.len() && (group_pos(gs, path) < 0 || j < group_pos(gs, path))
            ==> #[trigger] gs[j].0 != path,
    decreases gs.len(),
{
    if gs.len() > 0 {
        lemma_group_pos(gs.drop_first(), path);
        assert forall|j: int| 0 <= j < gs.len() && (group_pos(gs, path) < 0 || j < group_pos(gs, path))
            implies #[trigger] gs[j].0 != path by {
            if j > 0 {
                assert(gs[j] == gs.drop_first()[j - 1]);
            }
        }
    }
}

/// The graph's functions grouped by file: the files in the order their
/// first function comes, each with its functions in the graph's order.
pub open spec fn file_groups(es: Seq<GraphEntry>) -> Seq<FileGroup>
    decreases es.len(),
{
    if es.len() == 0 {
        Seq::empty()
    } else {
        let g = file_groups(es.drop_last());
        let f = es.last().function;
        let p = group_pos(g, f.file_path@);
        if p >= 0 {
            g.update(p, (g[p].0, g[p].1.push(function_leaf(f))))
        } else {
            g.push((f.file_path@, seq![function_leaf(f)]))
        }
    }
}

/// The label of a file node: a folder mark and the file's name.
pub open spec fn file_label(path: Seq<char>) -> Seq<char> {
    "\u{1F4C1} "@ + match path_file_name_of(path) {
        Some(n) => n,
        None => Seq::empty(),
    }
}

/// The node of a file and its functions.
pub open spec fn file_node(g: FileGroup) -> TreeModel {
    TreeModel {
        name: file_label(g.0),
        function_id: None,
        file_path: Some(g.0),
        line_start: None,
        line_end: None,
        children: g.1,
        call_type: None,
    }
}

/// The project tree: a root over one node per file, each over the file's functions.
pub open spec fn project_tree(es: Seq<GraphEntry>) -> TreeModel {
    TreeModel {
        name: "Project Functions"@,
        function_id: None,
        file_path: None,
        line_start: None,
        line_end: None,
        children: file_groups(es).map_values(|g: FileGroup| file_node(g)),
        call_type: None,
    }
}

/// The value of the groups being built.
pub open spec fn groups_model(gs: Seq<(String, Vec<HierarchicalNode>)>) -> Seq<FileGroup> {
    gs.map_values(|g: (String, Vec<HierarchicalNode>)| (g.0@, tree_models(g.1@)))
}

fn group_position(groups: &Vec<(String, Vec<HierarchicalNode>)>, path: &String) -> (res: Option<usize>)
    ensures
        match res {
            Some(i) => group_pos(groups_model(groups@), path@) == i as int && i < groups@.len(),
            None => group_pos(groups_model(groups@), path@) < 0,
        },
{
    let ghost gs = groups_model(groups@);
    proof { lemma_group_pos(gs, path@); }
    let mut i: usize = 0;
    while i < groups.len()
        invariant
            i <= groups@.len(),
            gs == groups_model(groups@),
            gs.len() == groups@.len(),
            forall|j: int| 0 <= j < i ==> #[trigger] gs[j].0 != path@,
            -1 <= group_pos(gs, path@) < gs.len(),
            group_pos(gs, path@) >= 0 ==> gs[group_pos(gs, path@)].0 == path@,
            forall|j: int| 0 <= j < gs.len() && (group_pos(gs, path@) < 0 || j < group_pos(gs, path@))
                ==> #[trigger] gs[j].0 != path@,
        decreases groups@.len() - i,
    {
        assert(gs[i as int].0 == groups@[i as int].0@);
        if groups[i].0 == *path {
            assert(group_pos(gs, path@) == i as int) by {
                let p = group_pos(gs, path@);
                if p < 0 || p > i as int {
                    assert(gs[i as int].0 != path@);
                } else if p < i as int {
                    assert(gs[p].0 != path@);
                }
            }
            return Some(i);
        }
        i = i + 1;
    }
    None
}

/// The leaf of a function under its file.
fn leaf_of(f: &GraphFunction) -> (res: HierarchicalNode)
    ensures
        tree_model(res) == function_leaf(*f),
{
    let res = HierarchicalNode {
        name: f.name.clone(),
        function_id: Some(f.id.clone()),
        file_path: Some(f.file_path.clone()),
        line_start: Some(f.line_start),
        line_end: Some(f.line_end),
        children: Vec::new(),
        call_type: Some(String::from_str("function")),
    };
    proof {
        let empty: Seq<HierarchicalNode> = Seq::empty();
        assert(res.children@ =~= empty);
        assert(tree_models(empty) =~= Seq::<TreeModel>::empty());
        assert(tree_model(res) =~= function_leaf(*f));
    }
    res
}

/// The project tree of the graph's functions, grouped by file (with their
/// file and lines whether or not file information is asked for).
pub fn create_default_tree_structure(graph: &CallGraphView, _include_file_info: bool) -> (res: HierarchicalNode)
    ensures
        tree_model(res) == project_tree(graph.entries@),
{
    let ghost es = graph.entries@;
    let mut groups: Vec<(String, Vec<HierarchicalNode>)> = Vec::new();
    let mut i: usize = 0;
    while i < graph.entries.len()
        invariant
            i <= es.len(),
            es == graph.entries@,
            groups_model(groups@) == file_groups(es.subrange(0, i as int)),
        decreases es.len() - i,
    {
        let f = &graph.entries[i].function;
        let ghost g0 = groups_model(groups@);
        proof {
            let sub = es.subrange(0, i + 1);
            assert(sub.drop_last() =~= es.subrange(0, i as int));
            assert(sub.last() == es[i as int]);
        }
        let leaf = leaf_of(f);
        match group_position(&groups, &f.file_path) {
            Some(p) => {
                let (path, mut members) = groups.remove(p);
                let ghost old_members = members@;
                members.push(leaf);
                proof { lemma_tree_models_push(old_members, leaf); }
                groups.insert(p, (path, members));
                assert(groups_model(groups@) =~= g0.update(p as int, (g0[p as int].0, g0[p as int].1.push(function_leaf(*f)))));
            },
            None => {
                let mut members: Vec<HierarchicalNode> = Vec::new();
                proof { lemma_tree_models_push(members@, leaf); }
                let ghost none: Seq<HierarchicalNode> = members@;
                members.push(leaf);
                assert(members@ =~= none.push(leaf));
                assert(tree_models(none) =~= Seq::<TreeModel>::empty());
                groups.push((f.file_path.clone(), members));
                assert(groups_model(groups@) =~= g0.push((f.file_path@, seq![function_leaf(*f)])));
            },
        }
        i = i + 1;
    }
    assert(es.subrange(0, es.len() as int) =~= es);
    let ghost all = groups_model(groups@);
    let mut children: Vec<HierarchicalNode> = Vec::new();
    let mut k: usize = 0;
    let n = groups.len();
    while groups.len() > 0
        invariant
            k + groups@.len() == n,
            n == all.len(),
            groups_model(groups@) == all.subrange(k as int, n as int),
            tree_models(children@) == all.subrange(0, k as int).map_values(|g: FileGroup| file_node(g)),
        decreases groups@.len(),
    {
        let ghost gm = groups_model(groups@);
        let (path, members) = groups.remove(0);
        assert(gm[0] == (path@, tree_models(members@)));
        assert(groups_model(groups@) =~= gm.drop_first());
        let mut name = String::from_str("\u{1F4C1} ");
        match path_file_name(path.as_str()) {
            Some(file_name) => string_push_str(&mut name, file_name.as_str()),
            None => {},
        }
        let node = HierarchicalNode {
            name,
            function_id: None,
            file_path: Some(path),
            line_start: None,
            line_end: None,
            children: members,
            call_type: None,
        };
        assert(tree_model(node) =~= file_node(all[k as int]));
        let ghost before = children@;
        children.push(node);
        proof {
            lemma_tree_models_push(before, node);
            assert(all.subrange(0, k + 1) =~= all.subrange(0, k as int).push(all[k as int]));
            assert(tree_models(children@) =~= all.subrange(0, k + 1).map_values(|g: FileGroup| file_node(g)));
            assert(all.subrange(k + 1, n as int) =~= all.subrange(k as int, n as int).drop_first());
        }
        k = k + 1;
    }
    assert(all.subrange(0, n as int) =~= all);
    let res = HierarchicalNode {
        name: String::from_str("Project Functions"),
        function_id: None,
        file_path: None,
        line_start: None,
        line_end: None,
        children,
        call_type: None,
    };
    assert(tree_model(res) =~= project_tree(es));
    res
}

/// The tree a call tree query answers with: from the root function when
/// one is asked for and the graph has it, else the project tree.
pub open spec fn hierarchical_answer(
    es: Seq<GraphEntry>,
    root_function: Option<Seq<char>>,
    max_depth: nat,
    include_file_info: bool,
) -> TreeModel {
    match root_function {
        Some(name) => match tree_from_function(es, name, max_depth, include_file_info) {
            Some(t) => t,
            None => project_tree(es),
        },
        None => project_tree(es),
    }
}

/// Answers a call tree query on a stored graph of the project `project_id`:
/// depth 2 and file information unless asked otherwise, the tree from the
/// root function (or the project tree), and the graph's counts of functions
/// and of calls.
pub fn query_hierarchical_graph(
    graph: &CallGraphView,
    project_id: String,
    request: QueryHierarchicalGraphRequest,
) -> (res: QueryHierarchicalGraphResponse)
    requires
        graph.stats.resolved_calls + graph.stats.unresolved_calls <= usize::MAX,
    ensures
        res.project_id == project_id,
        res.root_function == request.root_function,
        res.max_depth == (match request.max_depth { Some(d) => d, None => 2 }),
        tree_model(res.tree_structure) == hierarchical_answer(
            graph.entries@,
            opt_text(request.root_function),
            res.max_depth as nat,
            match request.include_file_info { Some(b) => b, None => true },
        ),
        res.total_functions == graph.stats.total_functions,
        res.total_relations == graph.stats.resolved_calls + graph.stats.unresolved_calls,
{
    let max_depth: usize = match request.max_depth {
        Some(d) => d,
        None => 2,
    };
    let include_file_info: bool = match request.include_file_info {
        Some(b) => b,
        None => true,
    };
    let tree_structure = match &request.root_function {
        Some(name) => match build_hierarchical_tree_from_function(graph, name, max_depth, include_file_info) {
            Some(t) => t,
            None => create_default_tree_structure(graph, include_file_info),
        },
        None => create_default_tree_structure(graph, include_file_info),
    };
    QueryHierarchicalGraphResponse {
        project_id,
        root_function: request.root_function,
        max_depth,
        tree_structure,
        total_functions: graph.stats.total_functions,
        total_relations: graph.stats.resolved_calls + graph.stats.unresolved_calls,
    }
}

/// The number of levels of a tree: 1 for a leaf.
pub open spec fn tree_height(t: TreeModel) -> nat
    decreases t, 0int,
{
    1 + forest_height(t.children)
}

/// The greatest number of levels among trees, 0 for none.
pub open spec fn forest_height(ts: Seq<TreeModel>) -> nat
    decreases ts, 1int,
{
    if ts.len() == 0 {
        0
    } else {
        let a = forest_height(ts.subrange(0, ts.len() - 1));
        let b = tree_height(ts[ts.len() - 1]);
        if a >= b { a } else { b }
    }
}

proof fn lemma_forest_height_cons(t: TreeModel, ts: Seq<TreeModel>, h: nat)
    requires
        tree_height(t) <= h,
        forest_height(ts) <= h,
    ensures
        forest_height(seq![t] + ts) <= h,
    decreases ts.len(),
{
    let all = seq![t] + ts;
    if ts.len() == 0 {
        assert(all.len() == 1);
        assert(all.subrange(0, all.len() - 1) =~= Seq::<TreeModel>::empty());
        assert(forest_height(Seq::<TreeModel>::empty()) == 0);
        assert(all[all.len() - 1] == t);
    } else {
        let init = ts.subrange(0, ts.len() - 1);
        assert(forest_height(init) <= h);
        assert(all.subrange(0, all.len() - 1) =~= seq![t] + init);
        assert(all[all.len() - 1] == ts[ts.len() - 1]);
        lemma_forest_height_cons(t, init, h);
        assert(forest_height(all.subrange(0, all.len() - 1)) <= h);
    }
}

/// A call tree built from any depth up to the limit has at most one level
/// more than the depth left: the walk stops at the depth limit with a leaf.
pub proof fn lemma_call_tree_height(
    es: Seq<GraphEntry>,
    f: GraphFunction,
    max_depth: nat,
    depth: nat,
    visited: Set<Seq<char>>,
    include_file_info: bool,
)
    requires
        depth <= max_depth,
    ensures
        tree_height(call_tree(es, f, max_depth, depth, visited, include_file_info).1) <= max_depth - depth + 1,
    decreases max_depth - depth, 1int, 0int,
{
    if depth >= max_depth || visited.contains(f.id@) {
        assert(depth_leaf(f, include_file_info).children.len() == 0);
    } else {
        lemma_subtrees_height(es, links_of(es, f.id@, false), 0, visited.insert(f.id@), max_depth, depth + 1, include_file_info);
    }
}

proof fn lemma_subtrees_height(
    es: Seq<GraphEntry>,
    links: Seq<GraphLink>,
    i: nat,
    visited: Set<Seq<char>>,
    max_depth: nat,
    depth: nat,
    include_file_info: bool,
)
    requires
        depth <= max_depth,
    ensures
        forest_height(subtrees(es, links, i, visited, max_depth, depth, include_file_info).1) <= max_depth - depth + 1,
    decreases max_depth - depth, 2int, links.len() - i,
{
    if i < links.len() {
        let c = call_tree(es, links[i as int].function, max_depth, depth, visited, include_file_info);
        let rest = subtrees(es, links, i + 1, c.0, max_depth, depth, include_file_info);
        lemma_call_tree_height(es, links[i as int].function, max_depth, depth, visited, include_file_info);
        lemma_subtrees_height(es, links, i + 1, c.0, max_depth, depth, include_file_info);
        lemma_forest_height_cons(c.1, rest.1, (max_depth - depth + 1) as nat);
    }
}

/// A call tree built from depth 0 has at most `max_depth + 1` levels: the
/// walk stops at the depth limit with a leaf.
pub proof fn law_call_tree_depth_bounded(
    es: Seq<GraphEntry>,
    f: GraphFunction,
    max_depth: nat,
    visited: Set<Seq<char>>,
    include_file_info: bool,
)
    ensures
        tree_height(call_tree(es, f, max_depth, 0, visited, include_file_info).1) <= max_depth + 1,
{
    lemma_call_tree_height(es, f, max_depth, 0, visited, include_file_info);
}

/// The number of functions in a list of file groups.
pub open spec fn grouped_count(gs: Seq<FileGroup>) -> nat
    decreases gs.len(),
{
    if gs.len() == 0 { 0 } else { grouped_count(gs.drop_last()) + gs.last().1.len() }
}

proof fn lemma_grouped_count_update(gs: Seq<FileGroup>, p: int, g: FileGroup)
    requires
        0 <= p < gs.len(),
    ensures
        grouped_count(gs.update(p, g)) == grouped_count(gs) - gs[p].1.len() + g.1.len(),
    decreases gs.len(),
{
    let u = gs.update(p, g);
    if p == gs.len() - 1 {
        assert(u.drop_last() =~= gs.drop_last());
    } else {
        assert(u.drop_last() =~= gs.drop_last().update(p, g));
        lemma_grouped_count_update(gs.drop_last(), p, g);
    }
}

/// Grouping by file keeps every function exactly once, each under the
/// group of its own file, and gives each file one group.
pub proof fn law_file_groups_partition(es: Seq<GraphEntry>)
    ensures
        grouped_count(file_groups(es)) == es.len(),
        forall|k: int, j: int| 0 <= k < file_groups(es).len() && 0 <= j < file_groups(es)[k].1.len()
            ==> (#[trigger] file_groups(es)[k].1[j]).file_path == Some(file_groups(es)[k].0),
        forall|a: int, b: int| 0 <= a < b < file_groups(es).len()
            ==> (#[trigger] file_groups(es)[a]).0 != (#[trigger] file_groups(es)[b]).0,
    decreases es.len(),
{
    if es.len() > 0 {
        let g = file_groups(es.drop_last());
        let f = es.last().function;
        law_file_groups_partition(es.drop_last());
        lemma_group_pos(g, f.file_path@);
        let p = group_pos(g, f.file_path@);
        let r = file_groups(es);
        if p >= 0 {
            lemma_grouped_count_update(g, p, (g[p].0, g[p].1.push(function_leaf(f))));
            assert forall|k: int, j: int| 0 <= k < r.len() && 0 <= j < r[k].1.len()
                implies (#[trigger] r[k].1[j]).file_path == Some(r[k].0) by {
                if k == p && j == g[p].1.len() {
                    assert(r[k].1[j] == function_leaf(f));
                } else if k == p {
                    assert(r[k].1[j] == g[k].1[j]);
                } else {
                    assert(r[k] == g[k]);
                }
            }
            assert forall|a: int, b: int| 0 <= a < b < r.len() implies (#[trigger] r[a]).0 != (#[trigger] r[b]).0 by {
                assert(r[a].0 == g[a].0);
                assert(r[b].0 == g[b].0);
            }
        } else {
            assert(r.drop_last() =~= g);
            assert forall|k: int, j: int| 0 <= k < r.len() && 0 <= j < r[k].1.len()
                implies (#[trigger] r[k].1[j]).file_path == Some(r[k].0) by {
                if k < g.len() {
                    assert(r[k] == g[k]);
                }
            }
            assert forall|a: int, b: int| 0 <= a < b < r.len() implies (#[trigger] r[a]).0 != (#[trigger] r[b]).0 by {
                assert(r[a] == g[a]);
                if b < g.len() {
                    assert(r[b] == g[b]);
                } else {
                    assert(g[a].0 != f.file_path@);
                }
            }
        }
    }
}

/// Every function of the graph sits, as a leaf, under the group of its own
/// file in the project tree.
pub proof fn law_functions_under_their_file(es: Seq<GraphEntry>, i: int)
    requires
        0 <= i < es.len(),
    ensures
        exists|k: int| 0 <= k < file_groups(es).len()
            && (#[trigger] file_groups(es)[k]).0 == es[i].function.file_path@
            && file_groups(es)[k].1.contains(function_leaf(es[i].function)),
    decreases es.len(),
{
    let g = file_groups(es.drop_last());
    let f = es.last().function;
    lemma_group_pos(g, f.file_path@);
    let p = group_pos(g, f.file_path@);
    let r = file_groups(es);
    if i == es.len() - 1 {
        if p >= 0 {
            let leaves = g[p].1.push(function_leaf(f));
            assert(r[p].1 == leaves);
            assert(leaves[leaves.len() - 1] == function_leaf(f));
            assert(r[p].0 == es[i].function.file_path@);
        } else {
            let k = g.len() as int;
            assert(r[k].1 == seq![function_leaf(f)]);
            assert(r[k].1[0] == function_leaf(f));
            assert(r[k].0 == es[i].function.file_path@);
        }
    } else {
        law_functions_under_their_file(es.drop_last(), i);
        assert(es.drop_last()[i] == es[i]);
        let k = choose|k: int| 0 <= k < g.len() && (#[trigger] g[k]).0 == es[i].function.file_path@
            && g[k].1.contains(function_leaf(es[i].function));
        let j = choose|j: int| 0 <= j < g[k].1.len() && g[k].1[j] == function_leaf(es[i].function);
        if p >= 0 && k == p {
            assert(r[k].1[j] == g[k].1[j]);
            assert(r[k].0 == g[k].0);
        } else {
            assert(r[k] == g[k]);
        }
        assert(r[k].1[j] == function_leaf(es[i].function));
    }
}

/// The ids of the function nodes (those expanded, not the leaves that stop
/// the walk) of a tree, in pre-order.
pub open spec fn expanded_ids(t: TreeModel) -> Seq<Seq<char>>
    decreases t, 0int,
{
    let own = if t.call_type == Some("function"@) {
        match t.function_id {
            Some(id) => seq![id],
            None => Seq::empty(),
        }
    } else {
        Seq::empty()
    };
    own + expanded_forest(t.children)
}

/// The ids of the function nodes of trees, tree after tree.
pub open spec fn expanded_forest(ts: Seq<TreeModel>) -> Seq<Seq<char>>
    decreases ts, 1int,
{
    if ts.len() == 0 {
        Seq::empty()
    } else {
        expanded_ids(ts[0]) + expanded_forest(ts.subrange(1, ts.len() as int))
    }
}

/// No id occurs twice.
pub open spec fn ids_distinct(ids: Seq<Seq<char>>) -> bool {
    forall|a: int, b: int| 0 <= a < b < ids.len() ==> ids[a] != ids[b]
}

/// The ids expanded from `visited` on: distinct, none visited before, all
/// visited after.
pub open spec fn fresh_expansions(ids: Seq<Seq<char>>, before: Set<Seq<char>>, after: Set<Seq<char>>) -> bool {
    &&& ids_distinct(ids)
    &&& forall|k: int| 0 <= k < ids.len() ==> !before.contains(#[trigger] ids[k]) && after.contains(ids[k])
    &&& forall|x: Seq<char>| before.contains(x) ==> after.contains(x)
}

proof fn lemma_call_tree_fresh(
    es: Seq<GraphEntry>,
    f: GraphFunction,
    max_depth: nat,
    depth: nat,
    visited: Set<Seq<char>>,
    include_file_info: bool,
)
    ensures
        fresh_expansions(expanded_ids(call_tree(es, f, max_depth, depth, visited, include_file_info).1), visited,
            call_tree(es, f, max_depth, depth, visited, include_file_info).0),
    decreases max_depth - depth, 1int, 0int,
{
    let r = call_tree(es, f, max_depth, depth, visited, include_file_info);
    reveal_strlit("function");
    reveal_strlit("max_depth");
    if depth >= max_depth || visited.contains(f.id@) {
        assert("function"@ != "max_depth"@) by { assert("function"@.len() != "max_depth"@.len()); }
        assert(expanded_forest(depth_leaf(f, include_file_info).children) =~= Seq::<Seq<char>>::empty());
        assert(expanded_ids(r.1) =~= Seq::<Seq<char>>::empty());
    } else {
        let v1 = visited.insert(f.id@);
        let sub = subtrees(es, links_of(es, f.id@, false), 0, v1, max_depth, depth + 1, include_file_info);
        lemma_subtrees_fresh(es, links_of(es, f.id@, false), 0, v1, max_depth, depth + 1, include_file_info);
        let rest = expanded_forest(sub.1);
        let ids = expanded_ids(r.1);
        assert(ids =~= seq![f.id@] + rest);
        assert forall|a: int, b: int| 0 <= a < b < ids.len() implies ids[a] != ids[b] by {
            if a == 0 {
                assert(ids[b] == rest[b - 1]);
                assert(!v1.contains(rest[b - 1]));
            } else {
                assert(ids[a] == rest[a - 1] && ids[b] == rest[b - 1]);
            }
        }
        assert forall|k: int| 0 <= k < ids.len() implies !visited.contains(#[trigger] ids[k]) && r.0.contains(ids[k]) by {
            if k > 0 {
                assert(ids[k] == rest[k - 1]);
                assert(!v1.contains(rest[k - 1]));
            } else {
                assert(v1.contains(f.id@));
            }
        }
    }
}

proof fn lemma_subtrees_fresh(
    es: Seq<GraphEntry>,
    links: Seq<GraphLink>,
    i: nat,
    visited: Set<Seq<char>>,
    max_depth: nat,
    depth: nat,
    include_file_info: bool,
)
    ensures
        fresh_expansions(expanded_forest(subtrees(es, links, i, visited, max_depth, depth, include_file_info).1), visited,
            subtrees(es, links, i, visited, max_depth, depth, include_file_info).0),
    decreases max_depth - depth, 2int, links.len() - i,
{
    let r = subtrees(es, links, i, visited, max_depth, depth, include_file_info);
    if i >= links.len() {
        assert(expanded_forest(r.1) =~= Seq::<Seq<char>>::empty());
    } else {
        let c = call_tree(es, links[i as int].function, max_depth, depth, visited, include_file_info);
        let rest = subtrees(es, links, i + 1, c.0, max_depth, depth, include_file_info);
        lemma_call_tree_fresh(es, links[i as int].function, max_depth, depth, visited, include_file_info);
        lemma_subtrees_fresh(es, links, i + 1, c.0, max_depth, depth, include_file_info);
        let a = expanded_ids(c.1);
        let b = expanded_forest(rest.1);
        let ts = seq![c.1] + rest.1;
        assert(ts[0] == c.1);
        assert(ts.subrange(1, ts.len() as int) =~= rest.1);
        let ids = expanded_forest(r.1);
        assert(ids =~= a + b);
        assert forall|x: int, y: int| 0 <= x < y < ids.len() implies ids[x] != ids[y] by {
            if y < a.len() {
                assert(ids[x] == a[x] && ids[y] == a[y]);
            } else if x < a.len() {
                assert(ids[x] == a[x] && ids[y] == b[y - a.len()]);
                assert(c.0.contains(a[x]));
                assert(!c.0.contains(b[y - a.len()]));
            } else {
                assert(ids[x] == b[x - a.len()] && ids[y] == b[y - a.len()]);
            }
        }
        assert forall|k: int| 0 <= k < ids.len() implies !visited.contains(#[trigger] ids[k]) && r.0.contains(ids[k]) by {
            if k < a.len() {
                assert(ids[k] == a[k]);
                assert(c.0.contains(a[k]));
            } else {
                assert(ids[k] == b[k - a.len()]);
                assert(!c.0.contains(b[k - a.len()]));
            }
        }
    }
}

/// A call tree expands each function at most once: the function nodes of the
/// tree have distinct ids, none of them among those visited before; a
/// function met again is a leaf.
pub proof fn law_call_tree_expands_each_function_once(
    es: Seq<GraphEntry>,
    f: GraphFunction,
    max_depth: nat,
    depth: nat,
    visited: Set<Seq<char>>,
    include_file_info: bool,
)
    ensures
        ids_distinct(expanded_ids(call_tree(es, f, max_depth, depth, visited, include_file_info).1)),
        forall|k: int| 0 <= k < expanded_ids(call_tree(es, f, max_depth, depth, visited, include_file_info).1).len()
            ==> !visited.contains(#[trigger] expanded_ids(call_tree(es, f, max_depth, depth, visited, include_file_info).1)[k]),
{
    lemma_call_tree_fresh(es, f, max_depth, depth, visited, include_file_info);
}

} // verus!

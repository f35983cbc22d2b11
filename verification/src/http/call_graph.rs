//! The call graph query: the functions of a file (or those of one name) with
//! their callers and callees, and the expansion of those call chains to a
//! given depth.
//!
//! The stored graph enters as a `CallGraphView`: for each function, the
//! callers and callees that the graph lists for it, in the graph's order.

use vstd::prelude::*;
use crate::graph_types::CodeGraphStats;
use crate::http::models::{CallRelation, FunctionInfo, QueryCallGraphRequest, QueryCallGraphResponse};

verus! {

/// A function of a stored call graph, as the queries read it.
#[derive(Debug)]
pub struct GraphFunction {
    /// The function's id in its text form.
    pub id: String,
    pub name: String,
    pub file_path: String,
    pub line_start: usize,
    pub line_end: usize,
}

/// A call seen from one end: the function at the other end, and the line of the call.
#[derive(Debug)]
pub struct GraphLink {
    pub function: GraphFunction,
    pub line_number: usize,
}

/// A function of a stored call graph with the callers and callees the graph
/// lists for it.
#[derive(Debug)]
pub struct GraphEntry {
    pub function: GraphFunction,
    pub callers: Vec<GraphLink>,
    pub callees: Vec<GraphLink>,
}

/// What the call graph queries read of a stored graph: its functions in the
/// graph's order, each with its callers and callees, and its counts.
#[derive(Debug)]
pub struct CallGraphView {
    pub entries: Vec<GraphEntry>,
    pub stats: CodeGraphStats,
}

/// One end of a call as a value: the function's name, its file, the line of the call.
pub type RelationModel = (Seq<char>, Seq<char>, usize);

/// A function of a call graph answer as a value.
pub struct FunctionModel {
    pub id: Seq<char>,
    pub name: Seq<char>,
    pub line_start: usize,
    pub line_end: usize,
    pub callers: Seq<RelationModel>,
    pub callees: Seq<RelationModel>,
}

/// The value of a relation of an answer.
pub open spec fn relation_model(r: CallRelation) -> RelationModel {
    (r.function_name@, r.file_path@, r.line_number)
}

/// The values of the relations of an answer.
pub open spec fn relation_models(rs: Seq<CallRelation>) -> Seq<RelationModel> {
    rs.map_values(|r: CallRelation| relation_model(r))
}

/// The value of a function of an answer.
pub open spec fn function_model(f: FunctionInfo) -> FunctionModel {
    FunctionModel {
        id: f.id@,
        name: f.name@,
        line_start: f.line_start,
        line_end: f.line_end,
        callers: relation_models(f.callers@),
        callees: relation_models(f.callees@),
    }
}

/// The values of the functions of an answer.
pub open spec fn function_models(fs: Seq<FunctionInfo>) -> Seq<FunctionModel> {
    fs.map_values(|f: FunctionInfo| function_model(f))
}

/// The relation of an answer that a link of the graph gives.
pub open spec fn link_relation(l: GraphLink) -> RelationModel {
    (l.function.name@, l.function.file_path@, l.line_number)
}

/// The position of the first graph entry whose function has the id `id`, or -1.
pub open spec fn entry_pos(es: Seq<GraphEntry>, id: Seq<char>) -> int
    decreases es.len(),
{
    if es.len() == 0 {
        -1
    } else if es[0].function.id@ == id {
        0
    } else {
        let r = entry_pos(es.drop_first(), id);
        if r < 0 { -1 } else { r + 1 }
    }
}

/// `entry_pos` is the first match.
pub proof fn lemma_entry_pos(es: Seq<GraphEntry>, id: Seq<char>)
    ensures
        -1 <= entry_pos(es, id) < es.len(),
        entry_pos(es, id) >= 0 ==> es[entry_pos(es, id)].function.id@ == id,
        forall|j: int| 0 <= j < es.len() && (entry_pos(es, id) < 0 || j < entry_pos(es, id))
            ==> #[trigger] es[j].function.id@ != id,
    decreases es.len(),
{
    if es.len() > 0 {
        lemma_entry_pos(es.drop_first(), id);
        assert forall|j: int| 0 <= j < es.len() && (entry_pos(es, id) < 0 || j < entry_pos(es, id))
            implies #[trigger] es[j].function.id@ != id by {
            if j > 0 {
                assert(es[j] == es.drop_first()[j - 1]);
            }
        }
    }
}

/// The callers (or the callees) that the graph lists for the function `id`:
/// none when the graph has no such function.
pub open spec fn links_of(es: Seq<GraphEntry>, id: Seq<char>, is_caller: bool) -> Seq<GraphLink> {
    let p = entry_pos(es, id);
    if p < 0 {
        Seq::empty()
    } else if is_caller {
        es[p].callers@
    } else {
        es[p].callees@
    }
}

/// Finds the position of the graph's first function with the id `id`.
pub fn entry_position(es: &Vec<GraphEntry>, id: &String) -> (res: Option<usize>)
    ensures
        match res {
            Some(i) => entry_pos(es@, id@) == i as int && i < es@.len(),
            None => entry_pos(es@, id@) < 0,
        },
{
    proof { lemma_entry_pos(es@, id@); }
    let mut i: usize = 0;
    while i < es.len()
        invariant
            i <= es.len(),
            forall|j: int| 0 <= j < i ==> #[trigger] es@[j].function.id@ != id@,
            -1 <= entry_pos(es@, id@) < es@.len(),
            entry_pos(es@, id@) >= 0 ==> es@[entry_pos(es@, id@)].function.id@ == id@,
            forall|j: int| 0 <= j < es@.len() && (entry_pos(es@, id@) < 0 || j < entry_pos(es@, id@))
                ==> #[trigger] es@[j].function.id@ != id@,
        decreases es.len() - i,
    {
        if es[i].function.id == *id {
            return Some(i);
        }
        i = i + 1;
    }
    None
}

/// The position of the first function of an answer with the id `id`, or -1.
pub open spec fn model_pos(fs: Seq<FunctionModel>, id: Seq<char>) -> int
    decreases fs.len(),
{
    if fs.len() == 0 {
        -1
    } else if fs[0].id == id {
        0
    } else {
        let r = model_pos(fs.drop_first(), id);
        if r < 0 { -1 } else { r + 1 }
    }
}

/// `model_pos` is the first match.
pub proof fn lemma_model_pos(fs: Seq<FunctionModel>, id: Seq<char>)
    ensures
        -1 <= model_pos(fs, id) < fs.len(),
        model_pos(fs, id) >= 0 ==> fs[model_pos(fs, id)].id == id,
        forall|j: int| 0 <= j < fs.len() && (model_pos(fs, id) < 0 || j < model_pos(fs, id))
            ==> #[trigger] fs[j].id != id,
    decreases fs.len(),
{
    if fs.len() > 0 {
        lemma_model_pos(fs.drop_first(), id);
        assert forall|j: int| 0 <= j < fs.len() && (model_pos(fs, id) < 0 || j < model_pos(fs, id))
            implies #[trigger] fs[j].id != id by {
            if j > 0 {
                assert(fs[j] == fs.drop_first()[j - 1]);
            }
        }
    }
}

/// Whether some relation of `rs` names the function `name`.
pub open spec fn names_function(rs: Seq<RelationModel>, name: Seq<char>) -> bool {
    exists|k: int| 0 <= k < rs.len() && (#[trigger] rs[k]).0 == name
}

/// The answer after recording `link` for the function at its other end: a
/// function already in the answer gains the relation unless one of that
/// name is there; a new function is appended with the relation alone.
pub open spec fn merge_link(fs: Seq<FunctionModel>, link: GraphLink, is_caller: bool) -> Seq<FunctionModel> {
    let r = link_relation(link);
    let p = model_pos(fs, link.function.id@);
    if p >= 0 {
        let f = fs[p];
        if is_caller {
            if names_function(f.callers, r.0) {
                fs
            } else {
                fs.update(p, FunctionModel {
                    id: f.id, name: f.name, line_start: f.line_start, line_end: f.line_end,
                    callers: f.callers.push(r), callees: f.callees,
                })
            }
        } else {
            if names_function(f.callees, r.0) {
                fs
            } else {
                fs.update(p, FunctionModel {
                    id: f.id, name: f.name, line_start: f.line_start, line_end: f.line_end,
                    callers: f.callers, callees: f.callees.push(r),
                })
            }
        }
    } else {
        fs.push(FunctionModel {
            id: link.function.id@,
            name: link.function.name@,
            line_start: link.function.line_start,
            line_end: link.function.line_end,
            callers: if is_caller { seq![r] } else { Seq::empty() },
            callees: if is_caller { Seq::empty() } else { seq![r] },
        })
    }
}

/// A copy of a relation of an answer.
fn copy_relation(r: &CallRelation) -> (res: CallRelation)
    ensures
        relation_model(res) == relation_model(*r),
{
    CallRelation { function_name: r.function_name.clone(), file_path: r.file_path.clone(), line_number: r.line_number }
}

/// Finds the position of the first function of an answer with the id `id`.
fn function_position(fs: &Vec<FunctionInfo>, id: &String) -> (res: Option<usize>)
    ensures
        match res {
            Some(i) => model_pos(function_models(fs@), id@) == i as int && i < fs@.len(),
            None => model_pos(function_models(fs@), id@) < 0,
        },
{
    let ghost ms = function_models(fs@);
    proof { lemma_model_pos(ms, id@); }
    let mut i: usize = 0;
    while i < fs.len()
        invariant
            i <= fs.len(),
            ms == function_models(fs@),
            ms.len() == fs@.len(),
            forall|j: int| 0 <= j < i ==> #[trigger] ms[j].id != id@,
            -1 <= model_pos(ms, id@) < ms.len(),
            model_pos(ms, id@) >= 0 ==> ms[model_pos(ms, id@)].id == id@,
            forall|j: int| 0 <= j < ms.len() && (model_pos(ms, id@) < 0 || j < model_pos(ms, id@))
                ==> #[trigger] ms[j].id != id@,
        decreases fs.len() - i,
    {
        assert(ms[i as int] == function_model(fs@[i as int]));
        if fs[i].id == *id {
            assert(ms[i as int].id == id@);
            assert(model_pos(ms, id@) == i as int) by {
                if model_pos(ms, id@) < 0 || model_pos(ms, id@) > i as int {
                    assert(ms[i as int].id != id@);
                } else if model_pos(ms, id@) < i as int {
                    assert(ms[model_pos(ms, id@)].id != id@);
                }
            }
            return Some(i);
        }
        i = i + 1;
    }
    None
}

/// Whether some relation of `rs` names the function `name`.
fn has_relation_named(rs: &Vec<CallRelation>, name: &String) -> (res: bool)
    ensures
        res == names_function(relation_models(rs@), name@),
{
    let ghost ms = relation_models(rs@);
    let mut i: usize = 0;
    while i < rs.len()
        invariant
            i <= rs.len(),
            ms == relation_models(rs@),
            ms.len() == rs@.len(),
            forall|k: int| 0 <= k < i ==> (#[trigger] ms[k]).0 != name@,
        decreases rs.len() - i,
    {
        assert(ms[i as int] == relation_model(rs@[i as int]));
        if rs[i].function_name == *name {
            assert(ms[i as int].0 == name@);
            return true;
        }
        i = i + 1;
    }
    false
}

/// Records `link` for the function at its other end (see `merge_link`).
fn record_link(functions: &mut Vec<FunctionInfo>, link: &GraphLink, is_caller: bool)
    ensures
        function_models(final(functions)@)
            == merge_link(function_models(old(functions)@), *link, is_caller),
{
    let ghost ms = function_models(functions@);
    let relation = CallRelation {
        function_name: link.function.name.clone(),
        file_path: link.function.file_path.clone(),
        line_number: link.line_number,
    };
    assert(relation_model(relation) == link_relation(*link));
    match function_position(functions, &link.function.id) {
        Some(p) => {
            let named = if is_caller {
                has_relation_named(&functions[p].callers, &relation.function_name)
            } else {
                has_relation_named(&functions[p].callees, &relation.function_name)
            };
            assert(ms[p as int] == function_model(functions@[p as int]));
            if !named {
                let mut f = functions.remove(p);
                if is_caller {
                    f.callers.push(relation);
                    assert(relation_models(f.callers@) =~= ms[p as int].callers.push(link_relation(*link)));
                } else {
                    f.callees.push(relation);
                    assert(relation_models(f.callees@) =~= ms[p as int].callees.push(link_relation(*link)));
                }
                functions.insert(p, f);
                assert(function_models(functions@) =~= merge_link(ms, *link, is_caller));
            }
        },
        None => {
            let mut callers: Vec<CallRelation> = Vec::new();
            let mut callees: Vec<CallRelation> = Vec::new();
            if is_caller {
                callers.push(relation);
            } else {
                callees.push(relation);
            }
            assert(relation_models(callers@) =~= (if is_caller { seq![link_relation(*link)] } else { Seq::empty() }));
            assert(relation_models(callees@) =~= (if is_caller { Seq::empty() } else { seq![link_relation(*link)] }));
            functions.push(FunctionInfo {
                id: link.function.id.clone(),
                name: link.function.name.clone(),
                line_start: link.function.line_start,
                line_end: link.function.line_end,
                callers,
                callees,
            });
            assert(function_models(functions@) =~= merge_link(ms, *link, is_caller));
        },
    }
}

/// The ids held by a list of visited functions.
pub open spec fn visited_set(v: Seq<String>) -> Set<Seq<char>> {
    Set::new(|s: Seq<char>| exists|i: int| 0 <= i < v.len() && (#[trigger] v[i])@ == s)
}

/// Whether the list of visited functions holds `id`.
pub(crate) fn is_visited(visited: &Vec<String>, id: &String) -> (res: bool)
    ensures
        res == visited_set(visited@).contains(id@),
{
    let res = crate::cha::types::contains_string(visited, id);
    proof {
        if res {
            let vs = crate::cha::types::views(visited@);
            let k = choose|k: int| 0 <= k < vs.len() && vs[k] == id@;
            assert(visited@[k]@ == id@);
        } else {
            assert forall|i: int| 0 <= i < visited@.len() implies (#[trigger] visited@[i])@ != id@ by {
                assert(crate::cha::types::views(visited@)[i] == visited@[i]@);
            }
        }
    }
    res
}

/// Marks `id` visited.
pub(crate) fn mark_visited(visited: &mut Vec<String>, id: &String)
    ensures
        visited_set(final(visited)@) == visited_set(old(visited)@).insert(id@),
{
    let ghost before = visited@;
    let ghost v0 = visited_set(visited@);
    visited.push(id.clone());
    proof {
        assert forall|s: Seq<char>| visited_set(visited@).contains(s) == v0.insert(id@).contains(s) by {
            if v0.insert(id@).contains(s) {
                if s == id@ {
                    assert(visited@[before.len() as int]@ == s);
                } else {
                    let i = choose|i: int| 0 <= i < before.len() && (#[trigger] before[i])@ == s;
                    assert(visited@[i] == before[i]);
                }
            }
            if visited_set(visited@).contains(s) {
                let i = choose|i: int| 0 <= i < visited@.len() && (#[trigger] visited@[i])@ == s;
                if i < before.len() {
                    assert(visited@[i] == before[i]);
                }
            }
        }
        assert(visited_set(visited@) =~= v0.insert(id@));
    }
}

/// The expansion of the call chain from the function `id`: unless the depth
/// is spent or `id` was visited, `id` is marked visited and each of its
/// callers (or callees), in the graph's order, is recorded in the answer and
/// expanded in turn one level deeper. The visited set and the answer thread
/// through the whole walk.
pub open spec fn expand(
    es: Seq<GraphEntry>,
    id: Seq<char>,
    visited: Set<Seq<char>>,
    fs: Seq<FunctionModel>,
    depth: nat,
    is_caller: bool,
) -> (Set<Seq<char>>, Seq<FunctionModel>)
    decreases depth, 1nat, 0int,
{
    if depth == 0 || visited.contains(id) {
        (visited, fs)
    } else {
        expand_links(es, links_of(es, id, is_caller), 0, visited.insert(id), fs, depth, is_caller)
    }
}

/// The expansion of the links `links[i..]` of a function expanded at `depth`.
pub open spec fn expand_links(
    es: Seq<GraphEntry>,
    links: Seq<GraphLink>,
    i: nat,
    visited: Set<Seq<char>>,
    fs: Seq<FunctionModel>,
    depth: nat,
    is_caller: bool,
) -> (Set<Seq<char>>, Seq<FunctionModel>)
    decreases depth, 0nat, links.len() - i,
{
    if depth == 0 || i >= links.len() {
        (visited, fs)
    } else {
        let l = links[i as int];
        let next = expand(es, l.function.id@, visited, merge_link(fs, l, is_caller), (depth - 1) as nat, is_caller);
        expand_links(es, links, i + 1, next.0, next.1, depth, is_caller)
    }
}

/// Expands the call chain from the function `function_id` (see `expand`).
pub fn expand_call_chain(
    graph: &CallGraphView,
    function_id: &String,
    visited: &mut Vec<String>,
    functions: &mut Vec<FunctionInfo>,
    depth: usize,
    is_caller: bool,
)
    ensures
        (visited_set(final(visited)@), function_models(final(functions)@)) == expand(
            graph.entries@,
            function_id@,
            visited_set(old(visited)@),
            function_models(old(functions)@),
            depth as nat,
            is_caller,
        ),
    decreases depth,
{
    let ghost es = graph.entries@;
    if depth == 0 {
        return;
    }
    if is_visited(visited, function_id) {
        return;
    }
    mark_visited(visited, function_id);
    let p = match entry_position(&graph.entries, function_id) {
        Some(p) => p,
        None => {
            return;
        },
    };
    let links: &Vec<GraphLink> = if is_caller { &graph.entries[p].callers } else { &graph.entries[p].callees };
    assert(links@ == links_of(es, function_id@, is_caller));
    let ghost f0 = function_models(functions@);
    let ghost v1 = visited_set(visited@);
    let mut i: usize = 0;
    while i < links.len()
        invariant
            0 < depth,
            i <= links@.len(),
            es == graph.entries@,
            links@ == links_of(es, function_id@, is_caller),
            expand_links(es, links@, 0, v1, f0, depth as nat, is_caller) == expand_links(
                es,
                links@,
                i as nat,
                visited_set(visited@),
                function_models(functions@),
                depth as nat,
                is_caller,
            ),
        decreases links@.len() - i,
    {
        let link = &links[i];
        record_link(functions, link, is_caller);
        expand_call_chain(graph, &link.function.id, visited, functions, depth - 1, is_caller);
        i = i + 1;
    }
}

/// Whether a graph function is one the query asks for: the functions of the
/// given name when a name is given, else those of the given file.
pub open spec fn asked_for(f: GraphFunction, filepath: Seq<char>, function_name: Option<Seq<char>>) -> bool {
    match function_name {
        Some(n) => f.name@ == n,
        None => f.file_path@ == filepath,
    }
}

/// The graph entries the query asks for, in the graph's order.
pub open spec fn asked_entries(es: Seq<GraphEntry>, filepath: Seq<char>, function_name: Option<Seq<char>>) -> Seq<GraphEntry>
    decreases es.len(),
{
    if es.len() == 0 {
        Seq::empty()
    } else {
        let r = asked_entries(es.drop_last(), filepath, function_name);
        if asked_for(es.last().function, filepath, function_name) { r.push(es.last()) } else { r }
    }
}

/// The relations of an answer that a list of links gives.
pub open spec fn link_relations(links: Seq<GraphLink>) -> Seq<RelationModel> {
    links.map_values(|l: GraphLink| link_relation(l))
}

/// A function of the graph as the answer first lists it: with the callers
/// and callees the graph gives for its id.
pub open spec fn answer_function(es: Seq<GraphEntry>, f: GraphFunction) -> FunctionModel {
    FunctionModel {
        id: f.id@,
        name: f.name@,
        line_start: f.line_start,
        line_end: f.line_end,
        callers: link_relations(links_of(es, f.id@, true)),
        callees: link_relations(links_of(es, f.id@, false)),
    }
}

/// The answer before any expansion: one function per asked entry.
pub open spec fn first_level(es: Seq<GraphEntry>, filepath: Seq<char>, function_name: Option<Seq<char>>) -> Seq<FunctionModel> {
    asked_entries(es, filepath, function_name).map_values(|e: GraphEntry| answer_function(es, e.function))
}

/// The answer `acc` after expanding, from the functions `asked[i..]`
/// one after the other, first their callers' chains and then their callees'
/// chains, each walk with a fresh visited set.
pub open spec fn expand_each(
    es: Seq<GraphEntry>,
    asked: Seq<FunctionModel>,
    i: nat,
    acc: Seq<FunctionModel>,
    depth: nat,
) -> Seq<FunctionModel>
    decreases asked.len() - i,
{
    if i >= asked.len() {
        acc
    } else {
        let a1 = expand(es, asked[i as int].id, Set::empty(), acc, depth, true).1;
        let a2 = expand(es, asked[i as int].id, Set::empty(), a1, depth, false).1;
        expand_each(es, asked, i + 1, a2, depth)
    }
}

/// The functions of the answer to a call graph query with the depth
/// `max_depth`: the asked functions, expanded `max_depth - 1` levels when
/// `max_depth` is over 1.
pub open spec fn call_graph_answer(
    es: Seq<GraphEntry>,
    filepath: Seq<char>,
    function_name: Option<Seq<char>>,
    max_depth: nat,
) -> Seq<FunctionModel> {
    let fs = first_level(es, filepath, function_name);
    if max_depth > 1 { expand_each(es, fs, 0, fs, (max_depth - 1) as nat) } else { fs }
}

/// The text of an optional string.
pub open spec fn opt_view(s: Option<String>) -> Option<Seq<char>> {
    match s {
        Some(x) => Some(x@),
        None => None,
    }
}

/// The relations of an answer that a list of links gives.
fn relations_from_links(links: &Vec<GraphLink>) -> (res: Vec<CallRelation>)
    ensures
        relation_models(res@) == link_relations(links@),
{
    let mut res: Vec<CallRelation> = Vec::new();
    let mut i: usize = 0;
    while i < links.len()
        invariant
            i <= links@.len(),
            relation_models(res@) == link_relations(links@.subrange(0, i as int)),
        decreases links@.len() - i,
    {
        let l = &links[i];
        let ghost prev = res@;
        let r = CallRelation {
            function_name: l.function.name.clone(),
            file_path: l.function.file_path.clone(),
            line_number: l.line_number,
        };
        assert(relation_model(r) == link_relation(links@[i as int]));
        res.push(r);
        proof {
            assert(links@.subrange(0, i + 1) =~= links@.subrange(0, i as int).push(links@[i as int]));
            assert(relation_models(res@) =~= relation_models(prev).push(relation_model(r)));
            assert(link_relations(links@.subrange(0, i + 1)) =~= link_relations(links@.subrange(0, i as int)).push(link_relation(links@[i as int])));
        }
        i = i + 1;
    }
    assert(links@.subrange(0, links@.len() as int) =~= links@);
    res
}

/// The callers (or the callees) that the graph lists for the function `id`.
fn graph_links(graph: &CallGraphView, id: &String, is_caller: bool) -> (res: Vec<CallRelation>)
    ensures
        relation_models(res@) == link_relations(links_of(graph.entries@, id@, is_caller)),
{
    match entry_position(&graph.entries, id) {
        Some(p) => {
            if is_caller {
                relations_from_links(&graph.entries[p].callers)
            } else {
                relations_from_links(&graph.entries[p].callees)
            }
        },
        None => {
            let res: Vec<CallRelation> = Vec::new();
            assert(relation_models(res@) =~= link_relations(Seq::empty()));
            res
        },
    }
}

/// A copy of a list of relations.
fn copy_relations(rs: &Vec<CallRelation>) -> (res: Vec<CallRelation>)
    ensures
        relation_models(res@) == relation_models(rs@),
{
    let mut res: Vec<CallRelation> = Vec::new();
    let mut i: usize = 0;
    while i < rs.len()
        invariant
            i <= rs@.len(),
            relation_models(res@) == relation_models(rs@.subrange(0, i as int)),
        decreases rs@.len() - i,
    {
        let ghost prev = res@;
        let r = copy_relation(&rs[i]);
        res.push(r);
        proof {
            assert(rs@.subrange(0, i + 1) =~= rs@.subrange(0, i as int).push(rs@[i as int]));
            assert(relation_models(res@) =~= relation_models(prev).push(relation_model(r)));
            assert(relation_models(rs@.subrange(0, i + 1)) =~= relation_models(rs@.subrange(0, i as int)).push(relation_model(rs@[i as int])));
        }
        i = i + 1;
    }
    assert(rs@.subrange(0, rs@.len() as int) =~= rs@);
    res
}

/// A copy of a function of an answer.
fn copy_function(f: &FunctionInfo) -> (res: FunctionInfo)
    ensures
        function_model(res) == function_model(*f),
{
    FunctionInfo {
        id: f.id.clone(),
        name: f.name.clone(),
        line_start: f.line_start,
        line_end: f.line_end,
        callers: copy_relations(&f.callers),
        callees: copy_relations(&f.callees),
    }
}

/// A copy of the functions of an answer.
fn copy_functions(fs: &Vec<FunctionInfo>) -> (res: Vec<FunctionInfo>)
    ensures
        function_models(res@) == function_models(fs@),
{
    let mut res: Vec<FunctionInfo> = Vec::new();
    let mut i: usize = 0;
    while i < fs.len()
        invariant
            i <= fs@.len(),
            function_models(res@) == function_models(fs@.subrange(0, i as int)),
        decreases fs@.len() - i,
    {
        res.push(copy_function(&fs[i]));
        proof {
            assert(fs@.subrange(0, i + 1) =~= fs@.subrange(0, i as int).push(fs@[i as int]));
            assert(function_models(res@) =~= function_models(fs@.subrange(0, i as int)).push(function_model(fs@[i as int])));
        }
        i = i + 1;
    }
    assert(fs@.subrange(0, fs@.len() as int) =~= fs@);
    res
}

/// Answers a call graph query on a stored graph: the functions of the given
/// name (or, without a name, those of the given file), each with its callers
/// and callees, and, for a depth over 1 (2 when none is given), the chains of
/// callers and of callees expanded one level less deep than the depth.
pub fn query_call_graph(graph: &CallGraphView, request: QueryCallGraphRequest) -> (res: QueryCallGraphResponse)
    ensures
        res.filepath == request.filepath,
        function_models(res.functions@) == call_graph_answer(
            graph.entries@,
            request.filepath@,
            opt_view(request.function_name),
            (match request.max_depth { Some(d) => d, None => 2 }) as nat,
        ),
{
    let ghost es = graph.entries@;
    let max_depth: usize = match request.max_depth {
        Some(d) => d,
        None => 2,
    };
    let ghost name = opt_view(request.function_name);
    let mut functions: Vec<FunctionInfo> = Vec::new();
    let mut i: usize = 0;
    while i < graph.entries.len()
        invariant
            i <= es.len(),
            es == graph.entries@,
            name == opt_view(request.function_name),
            function_models(functions@) == asked_entries(es.subrange(0, i as int), request.filepath@, name)
                .map_values(|e: GraphEntry| answer_function(es, e.function)),
        decreases es.len() - i,
    {
        let f = &graph.entries[i].function;
        let asked = match &request.function_name {
            Some(n) => f.name == *n,
            None => f.file_path == request.filepath,
        };
        proof {
            let sub = es.subrange(0, i + 1);
            assert(sub.drop_last() =~= es.subrange(0, i as int));
            assert(sub.last() == es[i as int]);
        }
        if asked {
            let callers = graph_links(graph, &f.id, true);
            let callees = graph_links(graph, &f.id, false);
            let ghost before = functions@;
            let entry = FunctionInfo {
                id: f.id.clone(),
                name: f.name.clone(),
                line_start: f.line_start,
                line_end: f.line_end,
                callers,
                callees,
            };
            assert(function_model(entry) == answer_function(es, es[i as int].function));
            functions.push(entry);
            proof {
                let prev = asked_entries(es.subrange(0, i as int), request.filepath@, name);
                assert(asked_entries(es.subrange(0, i + 1), request.filepath@, name) == prev.push(es[i as int]));
                assert(function_models(functions@) =~= function_models(before).push(function_model(entry)));
                assert(prev.push(es[i as int]).map_values(|e: GraphEntry| answer_function(es, e.function))
                    =~= prev.map_values(|e: GraphEntry| answer_function(es, e.function)).push(answer_function(es, es[i as int].function)));
            }
        } else {
            proof {
                let prev = asked_entries(es.subrange(0, i as int), request.filepath@, name);
                assert(asked_entries(es.subrange(0, i + 1), request.filepath@, name) == prev);
            }
        }
        i = i + 1;
    }
    assert(es.subrange(0, es.len() as int) =~= es);
    let ghost fs0 = function_models(functions@);
    assert(fs0 == first_level(es, request.filepath@, name));
    if max_depth > 1 {
        let mut expanded = copy_functions(&functions);
        let mut k: usize = 0;
        while k < functions.len()
            invariant
                k <= functions@.len(),
                max_depth > 1,
                es == graph.entries@,
                fs0 == function_models(functions@),
                expand_each(es, fs0, 0, fs0, (max_depth - 1) as nat)
                    == expand_each(es, fs0, k as nat, function_models(expanded@), (max_depth - 1) as nat),
            decreases functions@.len() - k,
        {
            assert(fs0[k as int] == function_model(functions@[k as int]));
            let mut visited: Vec<String> = Vec::new();
            assert(visited_set(visited@) =~= Set::empty());
            expand_call_chain(graph, &functions[k].id, &mut visited, &mut expanded, max_depth - 1, true);
            let mut visited: Vec<String> = Vec::new();
            assert(visited_set(visited@) =~= Set::empty());
            expand_call_chain(graph, &functions[k].id, &mut visited, &mut expanded, max_depth - 1, false);
            k = k + 1;
        }
        functions = expanded;
    }
    QueryCallGraphResponse { filepath: request.filepath, functions }
}

/// `new` keeps the functions of `old` in place, with the same id, name and
/// lines, and with their callers and callees only added to at the end.
pub open spec fn extends(old: Seq<FunctionModel>, new: Seq<FunctionModel>) -> bool {
    &&& old.len() <= new.len()
    &&& forall|j: int| 0 <= j < old.len() ==> {
        &&& (#[trigger] new[j]).id == old[j].id
        &&& new[j].name == old[j].name
        &&& new[j].line_start == old[j].line_start
        &&& new[j].line_end == old[j].line_end
        &&& old[j].callers.is_prefix_of(new[j].callers)
        &&& old[j].callees.is_prefix_of(new[j].callees)
    }
}

/// No two functions of the answer have the same id.
pub open spec fn ids_unique(fs: Seq<FunctionModel>) -> bool {
    forall|i: int, j: int| 0 <= i < j < fs.len() ==> (#[trigger] fs[i]).id != (#[trigger] fs[j]).id
}

proof fn lemma_extends_trans(a: Seq<FunctionModel>, b: Seq<FunctionModel>, c: Seq<FunctionModel>)
    requires
        extends(a, b),
        extends(b, c),
    ensures
        extends(a, c),
{
    assert forall|j: int| 0 <= j < a.len() implies {
        &&& (#[trigger] c[j]).id == a[j].id
        &&& c[j].name == a[j].name
        &&& c[j].line_start == a[j].line_start
        &&& c[j].line_end == a[j].line_end
        &&& a[j].callers.is_prefix_of(c[j].callers)
        &&& a[j].callees.is_prefix_of(c[j].callees)
    } by {
        assert(b[j].id == a[j].id);
        assert(c[j].id == b[j].id);
        assert forall|k: int| 0 <= k < a[j].callers.len() implies a[j].callers[k] == c[j].callers[k] by {
            assert(a[j].callers[k] == b[j].callers[k]);
        }
        assert forall|k: int| 0 <= k < a[j].callees.len() implies a[j].callees[k] == c[j].callees[k] by {
            assert(a[j].callees[k] == b[j].callees[k]);
        }
    }
}

proof fn lemma_extends_refl(a: Seq<FunctionModel>)
    ensures
        extends(a, a),
{
    assert forall|j: int| 0 <= j < a.len() implies a[j].callers.is_prefix_of((#[trigger] a[j]).callers)
        && a[j].callees.is_prefix_of(a[j].callees) by {
        assert(a[j].callers.subrange(0, a[j].callers.len() as int) =~= a[j].callers);
        assert(a[j].callees.subrange(0, a[j].callees.len() as int) =~= a[j].callees);
    }
}

proof fn lemma_merge_link(fs: Seq<FunctionModel>, l: GraphLink, is_caller: bool)
    ensures
        extends(fs, merge_link(fs, l, is_caller)),
        ids_unique(fs) ==> ids_unique(merge_link(fs, l, is_caller)),
        model_pos(merge_link(fs, l, is_caller), l.function.id@) >= 0,
{
    lemma_model_pos(fs, l.function.id@);
    let m = merge_link(fs, l, is_caller);
    let p = model_pos(fs, l.function.id@);
    lemma_extends_refl(fs);
    if p >= 0 {
        let f = fs[p];
        let r = link_relation(l);
        assert(f.callers.is_prefix_of(f.callers.push(r))) by {
            assert(f.callers.push(r).subrange(0, f.callers.len() as int) =~= f.callers);
        }
        assert(f.callees.is_prefix_of(f.callees.push(r))) by {
            assert(f.callees.push(r).subrange(0, f.callees.len() as int) =~= f.callees);
        }
        assert(extends(fs, m)) by {
            assert forall|j: int| 0 <= j < fs.len() implies {
                &&& (#[trigger] m[j]).id == fs[j].id
                &&& m[j].name == fs[j].name
                &&& m[j].line_start == fs[j].line_start
                &&& m[j].line_end == fs[j].line_end
                &&& fs[j].callers.is_prefix_of(m[j].callers)
                &&& fs[j].callees.is_prefix_of(m[j].callees)
            } by {
                if j != p {
                    assert(m[j] == fs[j]);
                }
            }
        }
        assert(ids_unique(fs) ==> ids_unique(m)) by {
            if ids_unique(fs) {
                assert forall|i: int, j: int| 0 <= i < j < m.len() implies (#[trigger] m[i]).id != (#[trigger] m[j]).id by {
                    assert(m[i].id == fs[i].id);
                    assert(m[j].id == fs[j].id);
                }
            }
        }
        lemma_model_pos(m, l.function.id@);
        assert(m[p].id == l.function.id@);
    } else {
        assert(m =~= fs.push(m[fs.len() as int]));
        assert(extends(fs, m)) by {
            assert forall|j: int| 0 <= j < fs.len() implies {
                &&& (#[trigger] m[j]).id == fs[j].id
                &&& m[j].name == fs[j].name
                &&& m[j].line_start == fs[j].line_start
                &&& m[j].line_end == fs[j].line_end
                &&& fs[j].callers.is_prefix_of(m[j].callers)
                &&& fs[j].callees.is_prefix_of(m[j].callees)
            } by {
                assert(m[j] == fs[j]);
            }
        }
        assert(ids_unique(fs) ==> ids_unique(m)) by {
            if ids_unique(fs) {
                assert forall|i: int, j: int| 0 <= i < j < m.len() implies (#[trigger] m[i]).id != (#[trigger] m[j]).id by {
                    if j == fs.len() {
                        assert(m[i] == fs[i]);
                        assert(fs[i].id != l.function.id@);
                    } else {
                        assert(m[i] == fs[i]);
                        assert(m[j] == fs[j]);
                    }
                }
            }
        }
        lemma_model_pos(m, l.function.id@);
        assert(m[fs.len() as int].id == l.function.id@);
    }
}

proof fn lemma_expand(
    es: Seq<GraphEntry>,
    id: Seq<char>,
    visited: Set<Seq<char>>,
    fs: Seq<FunctionModel>,
    depth: nat,
    is_caller: bool,
)
    ensures
        extends(fs, expand(es, id, visited, fs, depth, is_caller).1),
        ids_unique(fs) ==> ids_unique(expand(es, id, visited, fs, depth, is_caller).1),
    decreases depth, 1nat, 0int,
{
    if depth == 0 || visited.contains(id) {
        lemma_extends_refl(fs);
    } else {
        lemma_expand_links(es, links_of(es, id, is_caller), 0, visited.insert(id), fs, depth, is_caller);
    }
}

proof fn lemma_expand_links(
    es: Seq<GraphEntry>,
    links: Seq<GraphLink>,
    i: nat,
    visited: Set<Seq<char>>,
    fs: Seq<FunctionModel>,
    depth: nat,
    is_caller: bool,
)
    ensures
        extends(fs, expand_links(es, links, i, visited, fs, depth, is_caller).1),
        ids_unique(fs) ==> ids_unique(expand_links(es, links, i, visited, fs, depth, is_caller).1),
    decreases depth, 0nat, links.len() - i,
{
    if depth == 0 || i >= links.len() {
        lemma_extends_refl(fs);
    } else {
        let l = links[i as int];
        let fs1 = merge_link(fs, l, is_caller);
        let next = expand(es, l.function.id@, visited, fs1, (depth - 1) as nat, is_caller);
        lemma_merge_link(fs, l, is_caller);
        lemma_expand(es, l.function.id@, visited, fs1, (depth - 1) as nat, is_caller);
        lemma_expand_links(es, links, i + 1, next.0, next.1, depth, is_caller);
        lemma_extends_trans(fs, fs1, next.1);
        lemma_extends_trans(fs, next.1, expand_links(es, links, i + 1, next.0, next.1, depth, is_caller).1);
    }
}

proof fn lemma_expand_each(es: Seq<GraphEntry>, asked: Seq<FunctionModel>, i: nat, acc: Seq<FunctionModel>, depth: nat)
    ensures
        extends(acc, expand_each(es, asked, i, acc, depth)),
        ids_unique(acc) ==> ids_unique(expand_each(es, asked, i, acc, depth)),
    decreases asked.len() - i,
{
    if i >= asked.len() {
        lemma_extends_refl(acc);
    } else {
        let a1 = expand(es, asked[i as int].id, Set::empty(), acc, depth, true).1;
        let a2 = expand(es, asked[i as int].id, Set::empty(), a1, depth, false).1;
        lemma_expand(es, asked[i as int].id, Set::empty(), acc, depth, true);
        lemma_expand(es, asked[i as int].id, Set::empty(), a1, depth, false);
        lemma_expand_each(es, asked, i + 1, a2, depth);
        lemma_extends_trans(acc, a1, a2);
        lemma_extends_trans(acc, a2, expand_each(es, asked, i + 1, a2, depth));
    }
}

/// Some function of the graph lists a caller or callee with the id `id`.
pub open spec fn linked_in_graph(es: Seq<GraphEntry>, id: Seq<char>) -> bool {
    ||| exists|p: int, k: int| 0 <= p < es.len() && 0 <= k < es[p].callers@.len()
            && (#[trigger] es[p].callers@[k]).function.id@ == id
    ||| exists|p: int, k: int| 0 <= p < es.len() && 0 <= k < es[p].callees@.len()
            && (#[trigger] es[p].callees@[k]).function.id@ == id
}

/// Every function of `new` past the first `n` is linked in the graph.
pub open spec fn added_are_linked(es: Seq<GraphEntry>, new: Seq<FunctionModel>, n: nat) -> bool {
    forall|j: int| n <= j < new.len() ==> linked_in_graph(es, (#[trigger] new[j]).id)
}

proof fn lemma_links_linked(es: Seq<GraphEntry>, id: Seq<char>, is_caller: bool, k: int)
    requires
        0 <= k < links_of(es, id, is_caller).len(),
    ensures
        linked_in_graph(es, links_of(es, id, is_caller)[k].function.id@),
{
    lemma_entry_pos(es, id);
    let p = entry_pos(es, id);
    let t = links_of(es, id, is_caller)[k].function.id@;
    if is_caller {
        assert(es[p].callers@[k] == links_of(es, id, is_caller)[k]);
        assert(0 <= p < es.len() && 0 <= k < es[p].callers@.len() && es[p].callers@[k].function.id@ == t);
    } else {
        assert(es[p].callees@[k] == links_of(es, id, is_caller)[k]);
        assert(0 <= p < es.len() && 0 <= k < es[p].callees@.len() && es[p].callees@[k].function.id@ == t);
    }
}

proof fn lemma_expand_linked(
    es: Seq<GraphEntry>,
    id: Seq<char>,
    visited: Set<Seq<char>>,
    fs: Seq<FunctionModel>,
    depth: nat,
    is_caller: bool,
)
    ensures
        added_are_linked(es, expand(es, id, visited, fs, depth, is_caller).1, fs.len()),
    decreases depth, 1nat, 0int,
{
    if !(depth == 0 || visited.contains(id)) {
        lemma_expand_links_linked(es, id, links_of(es, id, is_caller), 0, visited.insert(id), fs, depth, is_caller);
    }
}

proof fn lemma_expand_links_linked(
    es: Seq<GraphEntry>,
    from: Seq<char>,
    links: Seq<GraphLink>,
    i: nat,
    visited: Set<Seq<char>>,
    fs: Seq<FunctionModel>,
    depth: nat,
    is_caller: bool,
)
    requires
        links == links_of(es, from, is_caller),
    ensures
        added_are_linked(es, expand_links(es, links, i, visited, fs, depth, is_caller).1, fs.len()),
    decreases depth, 0nat, links.len() - i,
{
    if !(depth == 0 || i >= links.len()) {
        let l = links[i as int];
        let fs1 = merge_link(fs, l, is_caller);
        let next = expand(es, l.function.id@, visited, fs1, (depth - 1) as nat, is_caller);
        let last = expand_links(es, links, i + 1, next.0, next.1, depth, is_caller).1;
        lemma_merge_link(fs, l, is_caller);
        lemma_links_linked(es, from, is_caller, i as int);
        lemma_expand_linked(es, l.function.id@, visited, fs1, (depth - 1) as nat, is_caller);
        lemma_expand_links_linked(es, from, links, i + 1, next.0, next.1, depth, is_caller);
        lemma_expand(es, l.function.id@, visited, fs1, (depth - 1) as nat, is_caller);
        lemma_expand_links(es, links, i + 1, next.0, next.1, depth, is_caller);
        assert forall|j: int| fs.len() <= j < last.len() implies linked_in_graph(es, (#[trigger] last[j]).id) by {
            if j >= next.1.len() {
            } else if j >= fs1.len() {
                assert(last[j].id == next.1[j].id);
            } else {
                assert(last[j].id == next.1[j].id);
                assert(next.1[j].id == fs1[j].id);
                lemma_model_pos(fs, l.function.id@);
                if model_pos(fs, l.function.id@) >= 0 {
                    assert(fs1.len() == fs.len());
                } else {
                    assert(fs1.len() == fs.len() + 1);
                    assert(j == fs.len());
                    assert(fs1[fs.len() as int].id == l.function.id@);
                }
            }
        }
    }
}

/// A walk of at most `k` links, each from a function to one of its callers
/// (or callees), leads from `from` to `target`.
pub open spec fn within_steps(es: Seq<GraphEntry>, from: Seq<char>, target: Seq<char>, k: nat, is_caller: bool) -> bool
    decreases k,
{
    if k == 0 {
        false
    } else {
        exists|j: int| 0 <= j < links_of(es, from, is_caller).len() && ({
            let t = (#[trigger] links_of(es, from, is_caller)[j]).function.id@;
            t == target || within_steps(es, t, target, (k - 1) as nat, is_caller)
        })
    }
}

/// Every function past the first `n` of `new` is within `k` links of `from`.
pub open spec fn added_within(es: Seq<GraphEntry>, from: Seq<char>, new: Seq<FunctionModel>, n: nat, k: nat, is_caller: bool) -> bool {
    forall|j: int| n <= j < new.len() ==> within_steps(es, from, (#[trigger] new[j]).id, k, is_caller)
}

proof fn lemma_expand_within(
    es: Seq<GraphEntry>,
    id: Seq<char>,
    visited: Set<Seq<char>>,
    fs: Seq<FunctionModel>,
    depth: nat,
    is_caller: bool,
)
    ensures
        added_within(es, id, expand(es, id, visited, fs, depth, is_caller).1, fs.len(), depth, is_caller),
    decreases depth, 1nat, 0int,
{
    if !(depth == 0 || visited.contains(id)) {
        lemma_expand_links_within(es, id, links_of(es, id, is_caller), 0, visited.insert(id), fs, depth, is_caller);
    }
}

proof fn lemma_expand_links_within(
    es: Seq<GraphEntry>,
    from: Seq<char>,
    links: Seq<GraphLink>,
    i: nat,
    visited: Set<Seq<char>>,
    fs: Seq<FunctionModel>,
    depth: nat,
    is_caller: bool,
)
    requires
        links == links_of(es, from, is_caller),
    ensures
        added_within(es, from, expand_links(es, links, i, visited, fs, depth, is_caller).1, fs.len(), depth, is_caller),
    decreases depth, 0nat, links.len() - i,
{
    if !(depth == 0 || i >= links.len()) {
        let l = links[i as int];
        let lid = l.function.id@;
        let fs1 = merge_link(fs, l, is_caller);
        let next = expand(es, lid, visited, fs1, (depth - 1) as nat, is_caller);
        let last = expand_links(es, links, i + 1, next.0, next.1, depth, is_caller).1;
        lemma_merge_link(fs, l, is_caller);
        lemma_expand_within(es, lid, visited, fs1, (depth - 1) as nat, is_caller);
        lemma_expand_links_within(es, from, links, i + 1, next.0, next.1, depth, is_caller);
        lemma_expand(es, lid, visited, fs1, (depth - 1) as nat, is_caller);
        lemma_expand_links(es, links, i + 1, next.0, next.1, depth, is_caller);
        assert forall|j: int| fs.len() <= j < last.len() implies within_steps(es, from, (#[trigger] last[j]).id, depth, is_caller) by {
            if j >= next.1.len() {
            } else if j >= fs1.len() {
                assert(last[j].id == next.1[j].id);
                assert(within_steps(es, lid, next.1[j].id, (depth - 1) as nat, is_caller));
                assert(links_of(es, from, is_caller)[i as int].function.id@ == lid);
            } else {
                assert(last[j].id == next.1[j].id);
                assert(next.1[j].id == fs1[j].id);
                lemma_model_pos(fs, lid);
                if model_pos(fs, lid) >= 0 {
                    assert(fs1.len() == fs.len());
                } else {
                    assert(fs1.len() == fs.len() + 1);
                    assert(j == fs.len());
                    assert(fs1[fs.len() as int].id == lid);
                    assert(links_of(es, from, is_caller)[i as int].function.id@ == lid);
                }
            }
        }
    }
}

/// The expansion goes no deeper than asked: every function that expanding
/// the call chain of `id` to `depth` levels adds to the answer is reached
/// from `id` by at most `depth` caller (or callee) links of the graph.
pub proof fn law_expansion_stays_within_depth(
    es: Seq<GraphEntry>,
    id: Seq<char>,
    visited: Set<Seq<char>>,
    fs: Seq<FunctionModel>,
    depth: nat,
    is_caller: bool,
)
    ensures
        forall|j: int| fs.len() <= j < expand(es, id, visited, fs, depth, is_caller).1.len()
            ==> within_steps(es, id, (#[trigger] expand(es, id, visited, fs, depth, is_caller).1[j]).id, depth, is_caller),
{
    lemma_expand_within(es, id, visited, fs, depth, is_caller);
}

/// Expanding a call chain keeps every function already in the answer in its
/// place, with its id, name and lines, and only appends to its callers and
/// callees; a function already in the answer is never listed twice; and
/// every function it adds is one the graph lists as a caller or callee.
pub proof fn law_expansion_extends_answer(
    es: Seq<GraphEntry>,
    id: Seq<char>,
    visited: Set<Seq<char>>,
    fs: Seq<FunctionModel>,
    depth: nat,
    is_caller: bool,
)
    ensures
        extends(fs, expand(es, id, visited, fs, depth, is_caller).1),
        ids_unique(fs) ==> ids_unique(expand(es, id, visited, fs, depth, is_caller).1),
        added_are_linked(es, expand(es, id, visited, fs, depth, is_caller).1, fs.len()),
{
    lemma_expand(es, id, visited, fs, depth, is_caller);
    lemma_expand_linked(es, id, visited, fs, depth, is_caller);
}

/// The answer to a call graph query lists first the functions it asks for,
/// in the graph's order, each with its own callers and callees at the front
/// of its lists; whatever the depth, the expansion only adds to that.
pub proof fn law_answer_starts_with_asked_functions(
    es: Seq<GraphEntry>,
    filepath: Seq<char>,
    function_name: Option<Seq<char>>,
    max_depth: nat,
)
    ensures
        extends(first_level(es, filepath, function_name), call_graph_answer(es, filepath, function_name, max_depth)),
{
    let fs = first_level(es, filepath, function_name);
    if max_depth > 1 {
        lemma_expand_each(es, fs, 0, fs, (max_depth - 1) as nat);
    } else {
        lemma_extends_refl(fs);
    }
}

/// A node of the call graph chart: a function of the answer, drawn under the
/// answer's file path.
#[derive(Debug)]
pub struct ChartNode {
    pub name: String,
    pub file_path: String,
    pub line_start: usize,
    pub line_end: usize,
}

/// A link of the call graph chart, between two function names: `calls` from
/// a function to a callee, `called_by` from a caller to the function.
#[derive(Debug)]
pub struct ChartLink {
    pub source: String,
    pub target: String,
    pub kind: String,
}

/// A chart link as a value: source, target, kind.
pub type LinkModel = (Seq<char>, Seq<char>, Seq<char>);

/// The value of a chart link.
pub open spec fn link_model(l: ChartLink) -> LinkModel {
    (l.source@, l.target@, l.kind@)
}

/// The values of chart links.
pub open spec fn link_models(ls: Seq<ChartLink>) -> Seq<LinkModel> {
    ls.map_values(|l: ChartLink| link_model(l))
}

/// Whether some function of the answer has the name `name`.
pub open spec fn answer_names(fs: Seq<FunctionInfo>, name: Seq<char>) -> bool {
    exists|k: int| 0 <= k < fs.len() && (#[trigger] fs[k]).name@ == name
}

/// The links of the relations `rs` of the function `f`, each toward a
/// function the answer lists: `calls` links for callees, `called_by` links
/// for callers.
pub open spec fn relation_links(fs: Seq<FunctionInfo>, f: FunctionInfo, rs: Seq<CallRelation>, callees: bool) -> Seq<LinkModel>
    decreases rs.len(),
{
    if rs.len() == 0 {
        Seq::empty()
    } else {
        let rest = relation_links(fs, f, rs.drop_last(), callees);
        let other = rs.last().function_name@;
        if answer_names(fs, other) {
            if callees {
                rest.push((f.name@, other, "calls"@))
            } else {
                rest.push((other, f.name@, "called_by"@))
            }
        } else {
            rest
        }
    }
}

/// The chart links of the first `n` functions of the answer: for each, the
/// links of its callees and then those of its callers.
pub open spec fn chart_links(fs: Seq<FunctionInfo>, n: nat) -> Seq<LinkModel>
    decreases n,
{
    if n == 0 {
        Seq::empty()
    } else {
        let f = fs[n - 1];
        chart_links(fs, (n - 1) as nat) + relation_links(fs, f, f.callees@, true) + relation_links(fs, f, f.callers@, false)
    }
}

/// Whether some function of the answer has the name `name`.
fn names_a_function(fs: &Vec<FunctionInfo>, name: &String) -> (res: bool)
    ensures
        res == answer_names(fs@, name@),
{
    let mut i: usize = 0;
    while i < fs.len()
        invariant
            i <= fs@.len(),
            forall|k: int| 0 <= k < i ==> (#[trigger] fs@[k]).name@ != name@,
        decreases fs@.len() - i,
    {
        if fs[i].name == *name {
            assert(fs@[i as int].name@ == name@);
            return true;
        }
        i = i + 1;
    }
    false
}

/// Appends the links of the relations `rs` of `f` (see `relation_links`).
fn push_relation_links(out: &mut Vec<ChartLink>, fs: &Vec<FunctionInfo>, f: &FunctionInfo, rs: &Vec<CallRelation>, callees: bool)
    ensures
        link_models(final(out)@) == link_models(old(out)@) + relation_links(fs@, *f, rs@, callees),
{
    let ghost start = link_models(out@);
    let mut i: usize = 0;
    while i < rs.len()
        invariant
            i <= rs@.len(),
            link_models(out@) == start + relation_links(fs@, *f, rs@.subrange(0, i as int), callees),
        decreases rs@.len() - i,
    {
        proof {
            let sub = rs@.subrange(0, i + 1);
            assert(sub.drop_last() =~= rs@.subrange(0, i as int));
            assert(sub.last() == rs@[i as int]);
        }
        let other = &rs[i].function_name;
        if names_a_function(fs, other) {
            let ghost before = out@;
            let link = if callees {
                ChartLink { source: f.name.clone(), target: other.clone(), kind: String::from_str("calls") }
            } else {
                ChartLink { source: other.clone(), target: f.name.clone(), kind: String::from_str("called_by") }
            };
            out.push(link);
            proof {
                assert(link_models(out@) =~= link_models(before).push(link_model(link)));
            }
        }
        i = i + 1;
    }
    assert(rs@.subrange(0, rs@.len() as int) =~= rs@);
}

/// The data of the call graph chart of an answer: one node per function,
/// under the answer's file path, and the links between functions the answer
/// lists.
pub fn call_graph_chart(data: &QueryCallGraphResponse) -> (res: (Vec<ChartNode>, Vec<ChartLink>))
    ensures
        res.0@.len() == data.functions@.len(),
        forall|k: int| 0 <= k < res.0@.len() ==> {
            &&& (#[trigger] res.0@[k]).name@ == data.functions@[k].name@
            &&& res.0@[k].file_path@ == data.filepath@
            &&& res.0@[k].line_start == data.functions@[k].line_start
            &&& res.0@[k].line_end == data.functions@[k].line_end
        },
        link_models(res.1@) == chart_links(data.functions@, data.functions@.len()),
{
    let fs = &data.functions;
    let mut nodes: Vec<ChartNode> = Vec::new();
    let mut links: Vec<ChartLink> = Vec::new();
    let mut i: usize = 0;
    while i < fs.len()
        invariant
            i <= fs@.len(),
            fs == &data.functions,
            nodes@.len() == i,
            forall|k: int| 0 <= k < i ==> {
                &&& (#[trigger] nodes@[k]).name@ == fs@[k].name@
                &&& nodes@[k].file_path@ == data.filepath@
                &&& nodes@[k].line_start == fs@[k].line_start
                &&& nodes@[k].line_end == fs@[k].line_end
            },
            link_models(links@) == chart_links(fs@, i as nat),
        decreases fs@.len() - i,
    {
        let f = &fs[i];
        nodes.push(ChartNode {
            name: f.name.clone(),
            file_path: data.filepath.clone(),
            line_start: f.line_start,
            line_end: f.line_end,
        });
        push_relation_links(&mut links, fs, f, &f.callees, true);
        push_relation_links(&mut links, fs, f, &f.callers, false);
        i = i + 1;
    }
    (nodes, links)
}

} // verus!

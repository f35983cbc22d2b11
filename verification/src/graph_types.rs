//! The records of a code graph: functions, classes, the calls between
//! functions, and the graph's statistics.

use vstd::prelude::*;
use crate::cha::types::clone_opt_string;
use crate::cha_simple::analysis::{function_pos, lemma_function_pos};

verus! {

/// A parameter of a function.
#[derive(Debug)]
pub struct ParameterInfo {
    pub name: String,
    /// The declared type, when known.
    pub param_type: Option<String>,
    pub default_value: Option<String>,
}

/// A function found in a source file.
#[derive(Debug)]
pub struct FunctionInfo {
    pub id: u128,
    pub name: String,
    pub file_path: String,
    pub line_start: usize,
    pub line_end: usize,
    pub namespace: String,
    pub language: String,
    pub signature: Option<String>,
    pub return_type: Option<String>,
    pub parameters: Vec<ParameterInfo>,
}

/// A class (or struct) found in a source file.
#[derive(Debug)]
pub struct ClassInfo {
    pub id: u128,
    pub name: String,
    pub file_path: String,
    pub line_start: usize,
    pub line_end: usize,
    pub namespace: String,
    pub language: String,
}

/// A call from one function to another.
#[derive(Debug, Clone)]
pub struct CallRelation {
    pub caller_id: u128,
    pub callee_id: u128,
    pub caller_name: String,
    pub callee_name: String,
    pub caller_file: String,
    pub callee_file: String,
    pub line_number: usize,
    pub is_resolved: bool,
}

/// Counts over a code graph.
#[derive(Debug, Clone)]
pub struct CodeGraphStats {
    pub total_functions: usize,
    pub total_files: usize,
    pub total_languages: usize,
    pub resolved_calls: usize,
    pub unresolved_calls: usize,
}

impl Default for CodeGraphStats {
    fn default() -> (res: Self)
        ensures
            res.total_functions == 0,
            res.total_files == 0,
            res.total_languages == 0,
            res.resolved_calls == 0,
            res.unresolved_calls == 0,
    {
        CodeGraphStats { total_functions: 0, total_files: 0, total_languages: 0, resolved_calls: 0, unresolved_calls: 0 }
    }
}


impl Clone for ParameterInfo {
    fn clone(&self) -> (res: Self)
        ensures
            res == *self,
    {
        ParameterInfo {
            name: self.name.clone(),
            param_type: clone_opt_string(&self.param_type),
            default_value: clone_opt_string(&self.default_value),
        }
    }
}

/// `b` is a copy of `a`: the same fields, the parameters equal one by one.
pub open spec fn same_function(a: FunctionInfo, b: FunctionInfo) -> bool {
    &&& a.id == b.id
    &&& a.name == b.name
    &&& a.file_path == b.file_path
    &&& a.line_start == b.line_start
    &&& a.line_end == b.line_end
    &&& a.namespace == b.namespace
    &&& a.language == b.language
    &&& a.signature == b.signature
    &&& a.return_type == b.return_type
    &&& a.parameters@ == b.parameters@
}

impl Clone for FunctionInfo {
    fn clone(&self) -> (res: Self)
        ensures
            same_function(*self, res),
    {
        let parameters = self.parameters.clone();
        proof {
            assert(parameters@ =~= self.parameters@);
        }
        FunctionInfo {
            id: self.id,
            name: self.name.clone(),
            file_path: self.file_path.clone(),
            line_start: self.line_start,
            line_end: self.line_end,
            namespace: self.namespace.clone(),
            language: self.language.clone(),
            signature: clone_opt_string(&self.signature),
            return_type: clone_opt_string(&self.return_type),
            parameters,
        }
    }
}

impl Clone for ClassInfo {
    fn clone(&self) -> (res: Self)
        ensures
            res == *self,
    {
        ClassInfo {
            id: self.id,
            name: self.name.clone(),
            file_path: self.file_path.clone(),
            line_start: self.line_start,
            line_end: self.line_end,
            namespace: self.namespace.clone(),
            language: self.language.clone(),
        }
    }
}

/// A call relation as a value: caller and callee ids, caller and callee
/// names, caller and callee files, the line of the call, and whether it was
/// resolved.
pub type RelationView = (u128, u128, Seq<char>, Seq<char>, Seq<char>, Seq<char>, usize, bool);

/// The value of a call relation.
pub open spec fn relation_view(r: CallRelation) -> RelationView {
    (r.caller_id, r.callee_id, r.caller_name@, r.callee_name@, r.caller_file@, r.callee_file@, r.line_number, r.is_resolved)
}

/// The values of a list of call relations.
pub open spec fn relation_views(rs: Seq<CallRelation>) -> Seq<RelationView> {
    rs.map_values(|r: CallRelation| relation_view(r))
}

/// The resolved relations of one call, made in `file` at `line` by the
/// function `caller` to a method named `callee_name`: one per target, in
/// order, that is among `functions`, toward that function and its file. The
/// caller's name is left empty for the graph to fill in.
pub open spec fn target_relations(
    caller: u128,
    callee_name: Seq<char>,
    file: Seq<char>,
    line: usize,
    targets: Seq<u128>,
    functions: Seq<FunctionInfo>,
) -> Seq<RelationView>
    decreases targets.len(),
{
    if targets.len() == 0 {
        Seq::empty()
    } else {
        let rest = target_relations(caller, callee_name, file, line, targets.drop_last(), functions);
        let t = targets.last();
        let p = function_pos(functions, t);
        if p >= 0 {
            rest.push((caller, t, Seq::empty(), callee_name, file, functions[p].file_path@, line, true))
        } else {
            rest
        }
    }
}

/// The position of the first function with the id `id`.
pub fn function_position(functions: &Vec<FunctionInfo>, id: u128) -> (res: Option<usize>)
    ensures
        match res {
            Some(i) => i == function_pos(functions@, id) && i < functions@.len(),
            None => function_pos(functions@, id) < 0,
        },
{
    proof { lemma_function_pos(functions@, id); }
    let mut i: usize = 0;
    while i < functions.len()
        invariant
            i <= functions.len(),
            forall|j: int| 0 <= j < i ==> functions@[j].id != id,
            -1 <= function_pos(functions@, id) < functions@.len(),
            function_pos(functions@, id) >= 0 ==> functions@[function_pos(functions@, id)].id == id,
            forall|j: int| 0 <= j < functions@.len() && (function_pos(functions@, id) < 0 || j < function_pos(functions@, id))
                ==> #[trigger] functions@[j].id != id,
        decreases functions.len() - i,
    {
        if functions[i].id == id {
            return Some(i);
        }
        i = i + 1;
    }
    None
}

/// Appends the resolved relations of one call (see `target_relations`).
pub fn push_target_relations(
    out: &mut Vec<CallRelation>,
    caller: u128,
    callee_name: &String,
    file: &String,
    line: usize,
    targets: &Vec<u128>,
    functions: &Vec<FunctionInfo>,
)
    ensures
        relation_views(final(out)@) == relation_views(old(out)@)
            + target_relations(caller, callee_name@, file@, line, targets@, functions@),
{
    let ghost start = relation_views(out@);
    let mut i: usize = 0;
    while i < targets.len()
        invariant
            i <= targets@.len(),
            relation_views(out@) == start + target_relations(caller, callee_name@, file@, line, targets@.subrange(0, i as int), functions@),
        decreases targets@.len() - i,
    {
        proof {
            let sub = targets@.subrange(0, i + 1);
            assert(sub.drop_last() =~= targets@.subrange(0, i as int));
            assert(sub.last() == targets@[i as int]);
        }
        let t = targets[i];
        match function_position(functions, t) {
            Some(p) => {
                let ghost before = out@;
                let r = CallRelation {
                    caller_id: caller,
                    callee_id: t,
                    caller_name: String::new(),
                    callee_name: callee_name.clone(),
                    caller_file: file.clone(),
                    callee_file: functions[p].file_path.clone(),
                    line_number: line,
                    is_resolved: true,
                };
                out.push(r);
                proof {
                    assert(relation_views(out@) =~= relation_views(before).push(relation_view(r)));
                }
            },
            None => {},
        }
        i = i + 1;
    }
    assert(targets@.subrange(0, targets@.len() as int) =~= targets@);
}

/// Each relation of one call is resolved, goes from the calling function to
/// one of the call's targets, and that target is among `functions`.
pub proof fn lemma_target_relations(
    caller: u128,
    callee_name: Seq<char>,
    file: Seq<char>,
    line: usize,
    targets: Seq<u128>,
    functions: Seq<FunctionInfo>,
)
    ensures
        forall|k: int| 0 <= k < target_relations(caller, callee_name, file, line, targets, functions).len() ==> {
            let r = #[trigger] target_relations(caller, callee_name, file, line, targets, functions)[k];
            &&& r.0 == caller
            &&& targets.contains(r.1)
            &&& function_pos(functions, r.1) >= 0
            &&& r.3 == callee_name
            &&& r.6 == line
            &&& r.7
        },
    decreases targets.len(),
{
    if targets.len() > 0 {
        lemma_target_relations(caller, callee_name, file, line, targets.drop_last(), functions);
        let rest = target_relations(caller, callee_name, file, line, targets.drop_last(), functions);
        let all = target_relations(caller, callee_name, file, line, targets, functions);
        assert forall|k: int| 0 <= k < all.len() implies {
            let r = #[trigger] all[k];
            &&& r.0 == caller
            &&& targets.contains(r.1)
            &&& function_pos(functions, r.1) >= 0
            &&& r.3 == callee_name
            &&& r.6 == line
            &&& r.7
        } by {
            if k < rest.len() {
                assert(all[k] == rest[k]);
                let t = rest[k].1;
                let w = choose|w: int| 0 <= w < targets.drop_last().len() && targets.drop_last()[w] == t;
                assert(targets[w] == t);
            } else {
                assert(all[k].1 == targets.last());
                assert(targets[targets.len() - 1] == targets.last());
            }
        }
    }
}

} // verus!

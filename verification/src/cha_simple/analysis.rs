//! The simple class-hierarchy analysis.

use vstd::prelude::*;
use std::collections::HashMap;
use crate::cha_simple::types::{SimpleClassInfo, SimpleCallSite};
use crate::graph_types::{FunctionInfo, CallRelation, RelationView, relation_views, target_relations, push_target_relations};
use crate::cha::types::views;

verus! {

broadcast use vstd::std_specs::hash::group_hash_axioms;

/// The position of the class named `name`, or -1 when there is none.
pub open spec fn simple_class_pos(classes: Seq<SimpleClassInfo>, name: Seq<char>) -> int
    decreases classes.len(),
{
    if classes.len() == 0 {
        -1
    } else if classes[0].name@ == name {
        0
    } else {
        let r = simple_class_pos(classes.drop_first(), name);
        if r < 0 { -1 } else { r + 1 }
    }
}

/// The calls of the call graph over `functions` from the first `n` call
/// sites: for each resolved one that is the first of its id, its relations.
pub open spec fn simple_call_relations(
    sites: Seq<SimpleCallSite>,
    resolved: Map<u128, Seq<u128>>,
    functions: Seq<FunctionInfo>,
    n: nat,
) -> Seq<RelationView>
    decreases n,
{
    if n == 0 {
        Seq::empty()
    } else {
        let i = n - 1;
        let s = sites[i];
        let rest = simple_call_relations(sites, resolved, functions, (n - 1) as nat);
        if (forall|j: int| 0 <= j < i ==> sites[j].id != s.id) && resolved.contains_key(s.id) {
            rest + target_relations(s.caller_function, s.callee_name@, s.file_path@, s.line_number, resolved[s.id], functions)
        } else {
            rest
        }
    }
}

/// The class named `name`.
pub open spec fn simple_class_named(classes: Seq<SimpleClassInfo>, name: Seq<char>) -> Option<SimpleClassInfo> {
    let p = simple_class_pos(classes, name);
    if p >= 0 { Some(classes[p]) } else { None }
}

/// The position of the function with id `id`, or -1 when there is none.
pub open spec fn function_pos(functions: Seq<FunctionInfo>, id: u128) -> int
    decreases functions.len(),
{
    if functions.len() == 0 {
        -1
    } else if functions[0].id == id {
        0
    } else {
        let r = function_pos(functions.drop_first(), id);
        if r < 0 { -1 } else { r + 1 }
    }
}

/// The function with id `id`.
pub open spec fn function_with_id(functions: Seq<FunctionInfo>, id: u128) -> Option<FunctionInfo> {
    let p = function_pos(functions, id);
    if p >= 0 { Some(functions[p]) } else { None }
}

/// The ids of the functions named `name`, in order.
pub open spec fn ids_named(functions: Seq<FunctionInfo>, name: Seq<char>) -> Seq<u128>
    decreases functions.len(),
{
    if functions.len() == 0 {
        Seq::empty()
    } else {
        let rest = ids_named(functions.drop_last(), name);
        if functions.last().name@ == name { rest.push(functions.last().id) } else { rest }
    }
}

/// Of the method ids, those whose function is named `name`, in order.
pub open spec fn methods_named(functions: Seq<FunctionInfo>, methods: Seq<u128>, name: Seq<char>) -> Seq<u128>
    decreases methods.len(),
{
    if methods.len() == 0 {
        Seq::empty()
    } else {
        let rest = methods_named(functions, methods.drop_last(), name);
        match function_with_id(functions, methods.last()) {
            Some(f) => if f.name@ == name { rest.push(methods.last()) } else { rest },
            None => rest,
        }
    }
}

/// For each candidate type in turn, the methods named `name` of the class of
/// that name.
pub open spec fn cha_targets(
    classes: Seq<SimpleClassInfo>,
    functions: Seq<FunctionInfo>,
    name: Seq<char>,
    candidates: Seq<Seq<char>>,
) -> Seq<u128>
    decreases candidates.len(),
{
    if candidates.len() == 0 {
        Seq::empty()
    } else {
        cha_targets(classes, functions, name, candidates.drop_last()) + match simple_class_named(classes, candidates.last()) {
            Some(c) => methods_named(functions, c.methods@, name),
            None => Seq::empty(),
        }
    }
}

/// `c`'s parent is named `name`.
pub open spec fn is_child_of(c: SimpleClassInfo, name: Seq<char>) -> bool {
    c.parent_class matches Some(p) && p@ == name
}

/// The subtypes of `name`, depth first: each class whose parent is `name`, in
/// class order, followed by its own subtypes; `fuel` bounds the depth.
pub open spec fn descendants(classes: Seq<SimpleClassInfo>, name: Seq<char>, fuel: nat) -> Seq<Seq<char>>
    decreases fuel, 0nat,
{
    if fuel == 0 {
        Seq::empty()
    } else {
        descendants_upto(classes, name, classes.len(), (fuel - 1) as nat)
    }
}

/// The subtypes found among the first `k` classes (see `descendants`).
pub open spec fn descendants_upto(classes: Seq<SimpleClassInfo>, name: Seq<char>, k: nat, fuel: nat) -> Seq<Seq<char>>
    decreases fuel, k,
{
    if k == 0 || k > classes.len() {
        Seq::empty()
    } else {
        let rest = descendants_upto(classes, name, (k - 1) as nat, fuel);
        let c = classes[k - 1];
        if is_child_of(c, name) {
            rest.push(c.name@) + descendants(classes, c.name@, fuel)
        } else {
            rest
        }
    }
}

/// Every chain of subclasses below `name` is shorter than `fuel`: the walk
/// down from `name` to its subtypes comes to an end.
pub open spec fn descent_ends(classes: Seq<SimpleClassInfo>, name: Seq<char>, fuel: nat) -> bool
    decreases fuel,
{
    fuel > 0 && forall|i: int| 0 <= i < classes.len() && #[trigger] is_child_of(classes[i], name)
        ==> descent_ends(classes, classes[i].name@, (fuel - 1) as nat)
}

/// What the analysis holds.
pub struct SimpleCHAView {
    pub classes: Seq<SimpleClassInfo>,
    pub call_sites: Seq<SimpleCallSite>,
    pub resolved: Map<u128, Seq<u128>>,
    pub functions: Seq<FunctionInfo>,
}

/// The targets of a call: with a receiver type, the methods of that name in
/// the receiver type and its subtypes; without one, every function of that name.
pub open spec fn call_targets(v: SimpleCHAView, cs: SimpleCallSite) -> Seq<u128> {
    match cs.receiver_type {
        Some(r) => cha_targets(
            v.classes,
            v.functions,
            cs.callee_name@,
            seq![r@] + descendants(v.classes, r@, (v.classes.len() + 1) as nat),
        ),
        None => ids_named(v.functions, cs.callee_name@),
    }
}

/// The resolution of each call site, recorded in order when it has targets.
pub open spec fn record_simple(v: SimpleCHAView, sites: Seq<SimpleCallSite>, m: Map<u128, Seq<u128>>) -> Map<u128, Seq<u128>>
    decreases sites.len(),
{
    if sites.len() == 0 {
        m
    } else {
        let m2 = record_simple(v, sites.drop_last(), m);
        let t = call_targets(v, sites.last());
        if t.len() > 0 { m2.insert(sites.last().id, t) } else { m2 }
    }
}

/// The subtype walk from every receiver type of the call sites comes to an end.
pub open spec fn receivers_descend(v: SimpleCHAView, sites: Seq<SimpleCallSite>) -> bool {
    forall|i: int| 0 <= i < sites.len() ==> match #[trigger] sites[i].receiver_type {
        Some(r) => descent_ends(v.classes, r@, (v.classes.len() + 1) as nat),
        None => true,
    }
}

/// The classes after storing `c`: in place of the class of the same name, or at the end.
pub open spec fn insert_simple_class(classes: Seq<SimpleClassInfo>, c: SimpleClassInfo) -> Seq<SimpleClassInfo> {
    let p = simple_class_pos(classes, c.name@);
    if p >= 0 { classes.update(p, c) } else { classes.push(c) }
}

/// The functions after storing `f`: in place of the function with the same id, or at the end.
pub open spec fn insert_function(functions: Seq<FunctionInfo>, f: FunctionInfo) -> Seq<FunctionInfo> {
    let p = function_pos(functions, f.id);
    if p >= 0 { functions.update(p, f) } else { functions.push(f) }
}

/// The simple class-hierarchy analysis.
pub struct SimpleCHA {
    /// The classes, at most one per name.
    classes: Vec<SimpleClassInfo>,
    call_sites: Vec<SimpleCallSite>,
    /// Call site id -> the ids of the methods it may call.
    resolved_calls: HashMap<u128, Vec<u128>>,
    /// The functions, at most one per id.
    functions: Vec<FunctionInfo>,
}

/// Counts over the simple analysis.
#[derive(Debug, Clone)]
pub struct SimpleCHAStats {
    pub total_call_sites: usize,
    pub resolved_calls: usize,
    pub unresolved_calls: usize,
    pub total_classes: usize,
    pub total_functions: usize,
}

/// `simple_class_pos` is the first match.
pub proof fn lemma_simple_class_pos(classes: Seq<SimpleClassInfo>, name: Seq<char>)
    ensures
        -1 <= simple_class_pos(classes, name) < classes.len(),
        simple_class_pos(classes, name) >= 0 ==> classes[simple_class_pos(classes, name)].name@ == name,
        forall|j: int| 0 <= j < classes.len() && (simple_class_pos(classes, name) < 0 || j < simple_class_pos(classes, name))
            ==> #[trigger] classes[j].name@ != name,
    decreases classes.len(),
{
    if classes.len() > 0 {
        lemma_simple_class_pos(classes.drop_first(), name);
        assert forall|j: int| 0 <= j < classes.len() && (simple_class_pos(classes, name) < 0 || j < simple_class_pos(classes, name))
            implies #[trigger] classes[j].name@ != name by {
            if j > 0 {
                assert(classes[j] == classes.drop_first()[j - 1]);
            }
        }
    }
}

/// `function_pos` is the first match.
pub proof fn lemma_function_pos(functions: Seq<FunctionInfo>, id: u128)
    ensures
        -1 <= function_pos(functions, id) < functions.len(),
        function_pos(functions, id) >= 0 ==> functions[function_pos(functions, id)].id == id,
        forall|j: int| 0 <= j < functions.len() && (function_pos(functions, id) < 0 || j < function_pos(functions, id))
            ==> #[trigger] functions[j].id != id,
    decreases functions.len(),
{
    if functions.len() > 0 {
        lemma_function_pos(functions.drop_first(), id);
        assert forall|j: int| 0 <= j < functions.len() && (function_pos(functions, id) < 0 || j < function_pos(functions, id))
            implies #[trigger] functions[j].id != id by {
            if j > 0 {
                assert(functions[j] == functions.drop_first()[j - 1]);
            }
        }
    }
}

impl View for SimpleCHA {
    type V = SimpleCHAView;

    closed spec fn view(&self) -> SimpleCHAView {
        SimpleCHAView {
            classes: self.classes@,
            call_sites: self.call_sites@,
            resolved: self.resolved_calls@.map_values(|t: Vec<u128>| t@),
            functions: self.functions@,
        }
    }
}

impl SimpleCHA {
    /// The analysis's invariant: only its call sites are resolved, and there
    /// are fewer classes than the largest `usize`.
    pub closed spec fn well_formed(&self) -> bool {
        &&& forall|k: u128| #[trigger] self.resolved_calls@.contains_key(k)
            ==> exists|i: int| 0 <= i < self.call_sites@.len() && self.call_sites@[i].id == k
        &&& self.classes@.len() < usize::MAX
    }

    /// An empty analysis.
    pub fn new() -> (res: Self)
        ensures
            res.well_formed(),
            res@.classes.len() == 0,
            res@.call_sites.len() == 0,
            res@.resolved.dom().len() == 0,
            res@.functions.len() == 0,
    {
        let res = SimpleCHA {
            classes: Vec::new(),
            call_sites: Vec::new(),
            resolved_calls: HashMap::new(),
            functions: Vec::new(),
        };
        proof {
            assert(res@.resolved.dom() =~= Set::<u128>::empty());
        }
        res
    }

    /// Adds a class, in place of the class of the same name if there is one.
    pub fn add_class(&mut self, class: SimpleClassInfo)
        requires
            old(self).well_formed(),
            old(self)@.classes.len() + 1 < usize::MAX,
        ensures
            final(self).well_formed(),
            final(self)@ == (SimpleCHAView { classes: insert_simple_class(old(self)@.classes, class), ..old(self)@ }),
    {
        match self.class_index(&class.name) {
            Some(i) => {
                self.classes.set(i, class);
            },
            None => {
                self.classes.push(class);
            },
        }
        proof { assert(self@.resolved =~= old(self)@.resolved); }
    }

    /// Adds a function, in place of the function with the same id if there is one.
    pub fn add_function(&mut self, function: FunctionInfo)
        requires
            old(self).well_formed(),
        ensures
            final(self).well_formed(),
            final(self)@ == (SimpleCHAView { functions: insert_function(old(self)@.functions, function), ..old(self)@ }),
    {
        match self.function_index(function.id) {
            Some(i) => {
                self.functions.set(i, function);
            },
            None => {
                self.functions.push(function);
            },
        }
        proof {
            assert(self.resolved_calls@ == old(self).resolved_calls@);
            assert(self.call_sites@ == old(self).call_sites@);
        }
    }

    /// Adds a call site.
    pub fn add_call_site(&mut self, call_site: SimpleCallSite)
        requires
            old(self).well_formed(),
        ensures
            final(self).well_formed(),
            final(self)@ == (SimpleCHAView { call_sites: old(self)@.call_sites.push(call_site), ..old(self)@ }),
    {
        self.call_sites.push(call_site);
        proof {
            assert forall|k: u128| #[trigger] self.resolved_calls@.contains_key(k)
                implies exists|i: int| 0 <= i < self.call_sites@.len() && self.call_sites@[i].id == k by {
                let i = choose|i: int| 0 <= i < old(self).call_sites@.len() && old(self).call_sites@[i].id == k;
                assert(self.call_sites@[i] == old(self).call_sites@[i]);
            }
        }
    }

    /// The position of the class named `name`.
    fn class_index(&self, name: &String) -> (res: Option<usize>)
        ensures
            match res {
                Some(i) => i == simple_class_pos(self.classes@, name@) && i < self.classes@.len()
                    && self.classes@[i as int].name@ == name@,
                None => simple_class_pos(self.classes@, name@) < 0,
            },
    {
        proof { lemma_simple_class_pos(self.classes@, name@); }
        let mut i: usize = 0;
        while i < self.classes.len()
            invariant
                i <= self.classes.len(),
                forall|j: int| 0 <= j < i ==> self.classes@[j].name@ != name@,
                -1 <= simple_class_pos(self.classes@, name@) < self.classes@.len(),
                simple_class_pos(self.classes@, name@) >= 0
                    ==> self.classes@[simple_class_pos(self.classes@, name@)].name@ == name@,
                forall|j: int| 0 <= j < self.classes@.len()
                    && (simple_class_pos(self.classes@, name@) < 0 || j < simple_class_pos(self.classes@, name@))
                    ==> #[trigger] self.classes@[j].name@ != name@,
            decreases self.classes.len() - i,
        {
            if self.classes[i].name == *name {
                return Some(i);
            }
            i = i + 1;
        }
        None
    }

    /// The position of the function with id `id`.
    fn function_index(&self, id: u128) -> (res: Option<usize>)
        ensures
            match res {
                Some(i) => i == function_pos(self.functions@, id) && i < self.functions@.len()
                    && self.functions@[i as int].id == id,
                None => function_pos(self.functions@, id) < 0,
            },
    {
        proof { lemma_function_pos(self.functions@, id); }
        let mut i: usize = 0;
        while i < self.functions.len()
            invariant
                i <= self.functions.len(),
                forall|j: int| 0 <= j < i ==> self.functions@[j].id != id,
                -1 <= function_pos(self.functions@, id) < self.functions@.len(),
                function_pos(self.functions@, id) >= 0 ==> self.functions@[function_pos(self.functions@, id)].id == id,
                forall|j: int| 0 <= j < self.functions@.len()
                    && (function_pos(self.functions@, id) < 0 || j < function_pos(self.functions@, id))
                    ==> #[trigger] self.functions@[j].id != id,
            decreases self.functions.len() - i,
        {
            if self.functions[i].id == id {
                return Some(i);
            }
            i = i + 1;
        }
        None
    }

    /// The subtypes of `class_name` found within `fuel` levels (see `descendants`).
    fn subtypes_within(&self, class_name: &String, fuel: usize) -> (res: Vec<String>)
        ensures
            views(res@) == descendants(self.classes@, class_name@, fuel as nat),
        decreases fuel,
    {
        let mut subtypes: Vec<String> = Vec::new();
        if fuel == 0 {
            proof { assert(views(subtypes@) =~= Seq::<Seq<char>>::empty()); }
            return subtypes;
        }
        let ghost f1 = (fuel - 1) as nat;
        let mut i: usize = 0;
        while i < self.classes.len()
            invariant
                fuel > 0,
                f1 == (fuel - 1) as nat,
                i <= self.classes.len(),
                views(subtypes@) == descendants_upto(self.classes@, class_name@, i as nat, f1),
            decreases self.classes.len() - i,
        {
            let ghost before = views(subtypes@);
            let mut is_child = false;
            match &self.classes[i].parent_class {
                Some(parent) => {
                    is_child = *parent == *class_name;
                },
                None => {},
            }
            if is_child {
                subtypes.push(self.classes[i].name.clone());
                let more = self.subtypes_within(&self.classes[i].name, fuel - 1);
                let ghost mid = views(subtypes@);
                let mut j: usize = 0;
                while j < more.len()
                    invariant
                        j <= more.len(),
                        views(subtypes@) == mid + views(more@).subrange(0, j as int),
                    decreases more.len() - j,
                {
                    let ghost prev = subtypes@;
                    subtypes.push(more[j].clone());
                    proof {
                        assert(subtypes@ =~= prev.push(more@[j as int]));
                        assert(views(subtypes@) =~= views(prev).push(more@[j as int]@));
                        assert(views(more@)[j as int] == more@[j as int]@);
                        assert(views(more@).subrange(0, j + 1) =~= views(more@).subrange(0, j as int).push(more@[j as int]@));
                        assert(views(subtypes@) =~= mid + views(more@).subrange(0, j + 1));
                    }
                    j = j + 1;
                }
                proof {
                    assert(views(more@).subrange(0, more.len() as int) =~= views(more@));
                    assert(mid =~= before.push(self.classes@[i as int].name@));
                }
            }
            proof {
                assert(is_child == is_child_of(self.classes@[i as int], class_name@));
            }
            i = i + 1;
        }
        subtypes
    }

    /// The subtypes of a class, depth first: each class whose parent it is, in
    /// class order, followed by that class's own subtypes.
    fn get_subtypes(&self, class_name: &String) -> (res: Vec<String>)
        requires
            self.well_formed(),
        ensures
            views(res@) == descendants(self@.classes, class_name@, (self@.classes.len() + 1) as nat),
    {
        self.subtypes_within(class_name, self.classes.len() + 1)
    }

    /// Of the method ids, those whose function is named `method_name`.
    fn methods_named_in(&self, methods: &Vec<u128>, method_name: &String) -> (res: Vec<u128>)
        ensures
            res@ == methods_named(self.functions@, methods@, method_name@),
    {
        let mut res: Vec<u128> = Vec::new();
        let mut k: usize = 0;
        while k < methods.len()
            invariant
                k <= methods.len(),
                res@ == methods_named(self.functions@, methods@.subrange(0, k as int), method_name@),
            decreases methods.len() - k,
        {
            proof {
                let s = methods@.subrange(0, k + 1);
                assert(s.drop_last() =~= methods@.subrange(0, k as int));
                assert(s.last() == methods@[k as int]);
            }
            match self.function_index(methods[k]) {
                Some(p) => {
                    if self.functions[p].name == *method_name {
                        res.push(methods[k]);
                    }
                },
                None => {},
            }
            k = k + 1;
        }
        proof { assert(methods@.subrange(0, methods.len() as int) =~= methods@); }
        res
    }

    /// The methods named `method_name` in the receiver type and all its subtypes.
    fn resolve_method_call_with_cha(&self, method_name: &String, receiver_type: &String) -> (res: Vec<u128>)
        requires
            self.well_formed(),
        ensures
            res@ == cha_targets(
                self@.classes,
                self@.functions,
                method_name@,
                seq![receiver_type@] + descendants(self@.classes, receiver_type@, (self@.classes.len() + 1) as nat),
            ),
    {
        let mut candidate_types: Vec<String> = Vec::new();
        candidate_types.push(receiver_type.clone());
        let subtypes = self.get_subtypes(receiver_type);
        let mut k: usize = 0;
        while k < subtypes.len()
            invariant
                k <= subtypes.len(),
                views(candidate_types@) == seq![receiver_type@] + views(subtypes@).subrange(0, k as int),
            decreases subtypes.len() - k,
        {
            let ghost prev = candidate_types@;
            candidate_types.push(subtypes[k].clone());
            proof {
                assert(views(candidate_types@) =~= views(prev).push(subtypes@[k as int]@));
                assert(views(subtypes@)[k as int] == subtypes@[k as int]@);
                assert(views(candidate_types@) =~= seq![receiver_type@] + views(subtypes@).subrange(0, k + 1));
            }
            k = k + 1;
        }
        proof {
            assert(views(subtypes@).subrange(0, subtypes.len() as int) =~= views(subtypes@));
        }
        let ghost cands = views(candidate_types@);
        let mut target_methods: Vec<u128> = Vec::new();
        let mut i: usize = 0;
        while i < candidate_types.len()
            invariant
                i <= candidate_types.len(),
                cands == views(candidate_types@),
                target_methods@ == cha_targets(self@.classes, self@.functions, method_name@, cands.subrange(0, i as int)),
            decreases candidate_types.len() - i,
        {
            proof {
                let s = cands.subrange(0, i + 1);
                assert(s.drop_last() =~= cands.subrange(0, i as int));
                assert(s.last() == candidate_types@[i as int]@);
            }
            match self.class_index(&candidate_types[i]) {
                Some(p) => {
                    let found = self.methods_named_in(&self.classes[p].methods, method_name);
                    let ghost before = target_methods@;
                    let mut j: usize = 0;
                    while j < found.len()
                        invariant
                            j <= found.len(),
                            target_methods@ == before + found@.subrange(0, j as int),
                        decreases found.len() - j,
                    {
                        target_methods.push(found[j]);
                        proof { assert(target_methods@ =~= before + found@.subrange(0, j + 1)); }
                        j = j + 1;
                    }
                    proof { assert(found@.subrange(0, found.len() as int) =~= found@); }
                },
                None => {
                    proof {
                        assert(target_methods@ =~= target_methods@ + Seq::<u128>::empty());
                    }
                },
            }
            i = i + 1;
        }
        proof { assert(cands.subrange(0, candidate_types.len() as int) =~= cands); }
        target_methods
    }

    /// The ids of all functions named `method_name`.
    fn resolve_method_call_by_name(&self, method_name: &String) -> (res: Vec<u128>)
        ensures
            res@ == ids_named(self@.functions, method_name@),
    {
        let mut target_methods: Vec<u128> = Vec::new();
        let mut i: usize = 0;
        while i < self.functions.len()
            invariant
                i <= self.functions.len(),
                target_methods@ == ids_named(self.functions@.subrange(0, i as int), method_name@),
            decreases self.functions.len() - i,
        {
            proof {
                let s = self.functions@.subrange(0, i + 1);
                assert(s.drop_last() =~= self.functions@.subrange(0, i as int));
            }
            if self.functions[i].name == *method_name {
                target_methods.push(self.functions[i].id);
            }
            i = i + 1;
        }
        proof { assert(self.functions@.subrange(0, self.functions.len() as int) =~= self.functions@); }
        target_methods
    }

    /// Resolves one of the analysis's call sites and records its targets, if any.
    fn resolve_call_site(&mut self, call_site: &SimpleCallSite) -> (res: Result<(), String>)
        requires
            old(self).well_formed(),
            exists|i: int| 0 <= i < old(self)@.call_sites.len() && old(self)@.call_sites[i].id == call_site.id,
        ensures
            res is Ok,
            final(self).well_formed(),
            final(self)@ == (SimpleCHAView {
                resolved: if call_targets(old(self)@, *call_site).len() > 0 {
                    old(self)@.resolved.insert(call_site.id, call_targets(old(self)@, *call_site))
                } else {
                    old(self)@.resolved
                },
                ..old(self)@
            }),
    {
        let target_methods = match &call_site.receiver_type {
            Some(receiver_type) => self.resolve_method_call_with_cha(&call_site.callee_name, receiver_type),
            None => self.resolve_method_call_by_name(&call_site.callee_name),
        };
        if target_methods.len() > 0 {
            let ghost t = target_methods@;
            self.resolved_calls.insert(call_site.id, target_methods);
            proof {
                assert(self@.resolved =~= old(self)@.resolved.insert(call_site.id, t));
                assert forall|k: u128| #[trigger] self.resolved_calls@.contains_key(k)
                    implies exists|i: int| 0 <= i < self.call_sites@.len() && self.call_sites@[i].id == k by {
                    if k != call_site.id {
                        assert(old(self).resolved_calls@.contains_key(k));
                    }
                }
            }
        }
        Ok(())
    }

    /// Resolves every call site in turn, recording the targets of each that has some.
    pub fn analyze(&mut self) -> (res: Result<(), String>)
        requires
            old(self).well_formed(),
            receivers_descend(old(self)@, old(self)@.call_sites),
        ensures
            res is Ok,
            final(self).well_formed(),
            final(self)@ == (SimpleCHAView {
                resolved: record_simple(old(self)@, old(self)@.call_sites, old(self)@.resolved),
                ..old(self)@
            }),
    {
        let ghost v0 = self@;
        let mut i: usize = 0;
        while i < self.call_sites.len()
            invariant
                self.well_formed(),
                i <= self.call_sites.len(),
                self@ == (SimpleCHAView {
                    resolved: record_simple(v0, v0.call_sites.subrange(0, i as int), v0.resolved),
                    ..v0
                }),
            decreases self.call_sites.len() - i,
        {
            let call_site = self.call_sites[i].clone();
            proof {
                let s = v0.call_sites.subrange(0, i + 1);
                assert(s.drop_last() =~= v0.call_sites.subrange(0, i as int));
                assert(s.last() == v0.call_sites[i as int]);
                assert(call_site == v0.call_sites[i as int]);
                assert(self@.call_sites[i as int].id == call_site.id);
                assert(call_targets(self@, call_site) == call_targets(v0, call_site));
            }
            let _ = self.resolve_call_site(&call_site);
            i = i + 1;
        }
        proof { assert(v0.call_sites.subrange(0, self.call_sites.len() as int) =~= v0.call_sites); }
        Ok(())
    }

    /// At most as many call sites are resolved as there are call sites.
    proof fn lemma_resolved_bounded(&self)
        requires
            self.well_formed(),
        ensures
            self.resolved_calls@.dom().len() <= self.call_sites@.len(),
            self@.resolved.dom() == self.resolved_calls@.dom(),
    {
        let ids = self.call_sites@.map_values(|c: SimpleCallSite| c.id);
        assert(self.resolved_calls@.dom().subset_of(ids.to_set())) by {
            assert forall|k: u128| self.resolved_calls@.dom().contains(k) implies ids.to_set().contains(k) by {
                assert(self.resolved_calls@.contains_key(k));
                let i = choose|i: int| 0 <= i < self.call_sites@.len() && self.call_sites@[i].id == k;
                assert(ids[i] == k);
            }
        }
        ids.lemma_cardinality_of_set();
        vstd::set_lib::lemma_len_subset(self.resolved_calls@.dom(), ids.to_set());
        assert(self@.resolved.dom() =~= self.resolved_calls@.dom());
    }

    /// The calls of the call graph over the analysis's functions: for each
    /// resolved call site (the first of each id), in call site order, a
    /// resolved relation to each of its targets that is a known function.
    pub fn build_call_graph(&self) -> (res: Result<Vec<CallRelation>, String>)
        ensures
            res matches Ok(rs)
                && relation_views(rs@) == simple_call_relations(self@.call_sites, self@.resolved, self@.functions, self@.call_sites.len()),
    {
        let ghost sites = self.call_sites@;
        let mut out: Vec<CallRelation> = Vec::new();
        let mut i: usize = 0;
        while i < self.call_sites.len()
            invariant
                i <= sites.len(),
                sites == self.call_sites@,
                relation_views(out@) == simple_call_relations(sites, self@.resolved, self@.functions, i as nat),
            decreases sites.len() - i,
        {
            let site = &self.call_sites[i];
            let mut first = true;
            let mut j: usize = 0;
            while j < i
                invariant
                    j <= i < sites.len(),
                    sites == self.call_sites@,
                    site.id == sites[i as int].id,
                    first == forall|k: int| 0 <= k < j ==> sites[k].id != sites[i as int].id,
                decreases i - j,
            {
                if self.call_sites[j].id == site.id {
                    first = false;
                }
                j = j + 1;
            }
            if first {
                match self.resolved_calls.get(&site.id) {
                    Some(targets) => {
                        push_target_relations(&mut out, site.caller_function, &site.callee_name, &site.file_path,
                            site.line_number, targets, &self.functions);
                    },
                    None => {},
                }
            }
            i = i + 1;
        }
        Ok(out)
    }

    /// The counts: call sites, resolved and unresolved ones, classes and functions.
    pub fn get_stats(&self) -> (res: SimpleCHAStats)
        requires
            self.well_formed(),
        ensures
            res.total_call_sites == self@.call_sites.len(),
            res.resolved_calls == self@.resolved.dom().len(),
            res.resolved_calls <= res.total_call_sites,
            res.unresolved_calls == res.total_call_sites - res.resolved_calls,
            res.total_classes == self@.classes.len(),
            res.total_functions == self@.functions.len(),
    {
        proof { self.lemma_resolved_bounded(); }
        let total_call_sites = self.call_sites.len();
        let resolved_calls = self.resolved_calls.len();
        SimpleCHAStats {
            total_call_sites,
            resolved_calls,
            unresolved_calls: total_call_sites - resolved_calls,
            total_classes: self.classes.len(),
            total_functions: self.functions.len(),
        }
    }
}

impl Default for SimpleCHA {
    fn default() -> (res: Self)
        ensures
            res.well_formed(),
            res@.classes.len() == 0,
            res@.call_sites.len() == 0,
            res@.resolved.dom().len() == 0,
            res@.functions.len() == 0,
    {
        SimpleCHA::new()
    }
}


/// `f` is the function `id`, and is named `name`.
pub open spec fn is_function_named(f: FunctionInfo, name: Seq<char>, id: u128) -> bool {
    f.id == id && f.name@ == name
}

/// Some function of `functions` is the function `id` and is named `name`.
pub open spec fn names_function(functions: Seq<FunctionInfo>, name: Seq<char>, id: u128) -> bool {
    exists|i: int| 0 <= i < functions.len() && #[trigger] is_function_named(functions[i], name, id)
}

proof fn lemma_ids_named(functions: Seq<FunctionInfo>, name: Seq<char>)
    ensures
        forall|k: int| 0 <= k < ids_named(functions, name).len()
            ==> names_function(functions, name, #[trigger] ids_named(functions, name)[k]),
    decreases functions.len(),
{
    if functions.len() > 0 {
        let init = functions.drop_last();
        lemma_ids_named(init, name);
        let rest = ids_named(init, name);
        let r = ids_named(functions, name);
        assert forall|k: int| 0 <= k < r.len() implies names_function(functions, name, #[trigger] r[k]) by {
            if k < rest.len() {
                assert(r[k] == rest[k]);
                let i = choose|i: int| 0 <= i < init.len() && #[trigger] is_function_named(init[i], name, rest[k]);
                assert(init[i] == functions[i]);
                assert(is_function_named(functions[i], name, r[k]));
            } else {
                assert(is_function_named(functions[functions.len() - 1], name, r[k]));
            }
        }
    }
}

proof fn lemma_methods_named(functions: Seq<FunctionInfo>, methods: Seq<u128>, name: Seq<char>)
    ensures
        forall|k: int| 0 <= k < methods_named(functions, methods, name).len()
            ==> names_function(functions, name, #[trigger] methods_named(functions, methods, name)[k]),
    decreases methods.len(),
{
    if methods.len() > 0 {
        lemma_methods_named(functions, methods.drop_last(), name);
        lemma_function_pos(functions, methods.last());
        let rest = methods_named(functions, methods.drop_last(), name);
        let r = methods_named(functions, methods, name);
        assert forall|k: int| 0 <= k < r.len() implies names_function(functions, name, #[trigger] r[k]) by {
            if k < rest.len() {
                assert(r[k] == rest[k]);
            } else {
                let p = function_pos(functions, methods.last());
                assert(is_function_named(functions[p], name, r[k]));
            }
        }
    }
}

proof fn lemma_cha_targets(
    classes: Seq<SimpleClassInfo>,
    functions: Seq<FunctionInfo>,
    name: Seq<char>,
    candidates: Seq<Seq<char>>,
)
    ensures
        forall|k: int| 0 <= k < cha_targets(classes, functions, name, candidates).len()
            ==> names_function(functions, name, #[trigger] cha_targets(classes, functions, name, candidates)[k]),
    decreases candidates.len(),
{
    if candidates.len() > 0 {
        lemma_cha_targets(classes, functions, name, candidates.drop_last());
        let a = cha_targets(classes, functions, name, candidates.drop_last());
        let b = match simple_class_named(classes, candidates.last()) {
            Some(c) => methods_named(functions, c.methods@, name),
            None => Seq::empty(),
        };
        match simple_class_named(classes, candidates.last()) {
            Some(c) => lemma_methods_named(functions, c.methods@, name),
            None => {},
        }
        let r = cha_targets(classes, functions, name, candidates);
        assert forall|k: int| 0 <= k < r.len() implies names_function(functions, name, #[trigger] r[k]) by {
            if k < a.len() {
                assert(r[k] == a[k]);
            } else {
                assert(r[k] == b[k - a.len()]);
            }
        }
    }
}

/// Sound resolution: every target a call site resolves to is a function of
/// the analysis with the callee's name.
pub proof fn law_simple_targets_have_the_callee_name(v: SimpleCHAView, cs: SimpleCallSite)
    ensures
        forall|k: int| 0 <= k < call_targets(v, cs).len()
            ==> names_function(v.functions, cs.callee_name@, #[trigger] call_targets(v, cs)[k]),
{
    match cs.receiver_type {
        Some(r) => lemma_cha_targets(
            v.classes,
            v.functions,
            cs.callee_name@,
            seq![r@] + descendants(v.classes, r@, (v.classes.len() + 1) as nat),
        ),
        None => lemma_ids_named(v.functions, cs.callee_name@),
    }
}

proof fn lemma_descendants_upto_fuel(classes: Seq<SimpleClassInfo>, name: Seq<char>, k: nat, f: nat, f2: nat)
    requires
        descent_ends(classes, name, f + 1),
        f <= f2,
        k <= classes.len(),
    ensures
        descendants_upto(classes, name, k, f) == descendants_upto(classes, name, k, f2),
    decreases f, k,
{
    if k > 0 {
        lemma_descendants_upto_fuel(classes, name, (k - 1) as nat, f, f2);
        let c = classes[k - 1];
        if is_child_of(c, name) {
            assert(descent_ends(classes, c.name@, f));
            lemma_descendants_fuel(classes, c.name@, f, f2);
        }
    }
}

proof fn lemma_descendants_fuel(classes: Seq<SimpleClassInfo>, name: Seq<char>, f: nat, f2: nat)
    requires
        descent_ends(classes, name, f),
        f <= f2,
    ensures
        descendants(classes, name, f) == descendants(classes, name, f2),
    decreases f, 0nat,
{
    lemma_descendants_upto_fuel(classes, name, classes.len(), (f - 1) as nat, (f2 - 1) as nat);
}

/// Where the walk down from `name` comes to an end within `fuel` levels,
/// more fuel finds the same subtypes: the subtypes found are those of the
/// unbounded walk.
pub proof fn law_subtypes_need_no_more_fuel(classes: Seq<SimpleClassInfo>, name: Seq<char>, fuel: nat, more: nat)
    requires
        descent_ends(classes, name, fuel),
        fuel <= more,
    ensures
        descendants(classes, name, more) == descendants(classes, name, fuel),
{
    lemma_descendants_fuel(classes, name, fuel, more);
}

} // verus!

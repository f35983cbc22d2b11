//! The class hierarchy builder: keeps the analysed classes, one per name, and
//! the inheritance graph between them, and answers sub- and supertype queries.

use vstd::prelude::*;
use petgraph::graph::DiGraph;
use crate::cha::types::{EnhancedClassInfo, InheritanceEdge, InheritanceEdgeType, views, find_sig, sig_position};
use crate::cha::graph::{
    graph_nodes, graph_edges, graph_edge_kinds, graph_capacity, edges_within, targets_newest_first, sources_newest_first,
    reaches, acyclic, on_cycle, graph_new, graph_node_count, graph_edge_count, graph_add_node, graph_add_edge,
    graph_children, graph_parents, graph_cycle_node, reachable_from,
    lemma_reaches_self, lemma_reaches_trans, lemma_mutual_reach_cycle, lemma_reaches_step, lemma_targets_contains,
};
use crate::text::{decimal, push_decimal, string_push_str};

verus! {

/// Statistics of a class hierarchy.
#[derive(Debug, Clone)]
pub struct HierarchyStats {
    pub total_classes: usize,
    pub max_depth: usize,
    pub total_inheritance_edges: usize,
    pub classes_with_parents: usize,
}

/// Builds and maintains the inheritance relation between classes.
pub struct ClassHierarchyBuilder {
    /// The classes, at most one per name.
    classes: Vec<EnhancedClassInfo>,
    /// The inheritance graph: an edge runs from a base type to a derived type.
    inheritance_graph: DiGraph<String, InheritanceEdge>,
    /// `class_to_node[i]` is the graph node of `classes[i]`.
    class_to_node: Vec<usize>,
    /// `node_to_class[v]` is the class name carried by node `v`.
    node_to_class: Vec<String>,
}

/// What a hierarchy builder holds.
#[verifier::ext_equal]
pub struct HierarchyView {
    pub classes: Seq<EnhancedClassInfo>,
    pub class_nodes: Seq<usize>,
    pub nodes: Seq<Seq<char>>,
    pub edges: Seq<(usize, usize)>,
    pub edge_kinds: Seq<InheritanceEdgeType>,
}

impl View for ClassHierarchyBuilder {
    type V = HierarchyView;

    closed spec fn view(&self) -> HierarchyView {
        HierarchyView {
            classes: self.classes@,
            class_nodes: self.class_to_node@,
            nodes: graph_nodes(self.inheritance_graph),
            edges: graph_edges(self.inheritance_graph),
            edge_kinds: graph_edge_kinds(self.inheritance_graph),
        }
    }
}

/// The position of the class named `name`, or -1 when there is none.
pub open spec fn class_pos(classes: Seq<EnhancedClassInfo>, name: Seq<char>) -> int
    decreases classes.len(),
{
    if classes.len() == 0 {
        -1
    } else if classes[0].name@ == name {
        0
    } else {
        let r = class_pos(classes.drop_first(), name);
        if r < 0 { -1 } else { r + 1 }
    }
}

/// No two classes share a name.
pub open spec fn names_unique(classes: Seq<EnhancedClassInfo>) -> bool {
    forall|i: int, j: int| 0 <= i < j < classes.len() ==> classes[i].name@ != classes[j].name@
}

/// The graph node of the class named `name`.
pub open spec fn node_of(h: HierarchyView, name: Seq<char>) -> Option<usize> {
    let p = class_pos(h.classes, name);
    if p >= 0 { Some(h.class_nodes[p]) } else { None }
}

/// The class named `name`.
pub open spec fn class_named(h: HierarchyView, name: Seq<char>) -> Option<EnhancedClassInfo> {
    let p = class_pos(h.classes, name);
    if p >= 0 { Some(h.classes[p]) } else { None }
}

/// The names carried by the given nodes.
pub open spec fn node_names(h: HierarchyView, vs: Seq<usize>) -> Seq<Seq<char>> {
    vs.map_values(|v: usize| h.nodes[v as int])
}

/// The direct subtypes of `name`: the targets of its outgoing edges, newest edge first.
pub open spec fn direct_subtypes(h: HierarchyView, name: Seq<char>) -> Seq<Seq<char>> {
    match node_of(h, name) {
        Some(s) => node_names(h, targets_newest_first(h.edges, s)),
        None => Seq::empty(),
    }
}

/// The direct supertypes of `name`: the sources of its incoming edges, newest edge first.
pub open spec fn direct_supertypes(h: HierarchyView, name: Seq<char>) -> Seq<Seq<char>> {
    match node_of(h, name) {
        Some(s) => node_names(h, sources_newest_first(h.edges, s)),
        None => Seq::empty(),
    }
}

/// The method of that name implemented by each candidate class, in candidate order.
pub open spec fn implementations_in(h: HierarchyView, candidates: Seq<Seq<char>>, method: Seq<char>) -> Seq<u128>
    decreases candidates.len(),
{
    if candidates.len() == 0 {
        Seq::empty()
    } else {
        let rest = implementations_in(h, candidates.drop_last(), method);
        match class_named(h, candidates.last()) {
            Some(c) => match find_sig(c.method_signatures@, method) {
                Some(sig) => rest.push(sig.id),
                None => rest,
            },
            None => rest,
        }
    }
}

/// `base`, followed by the names of the nodes below `k` that a walk from `s`
/// reaches, in node order, each name once and only when `base` lacks it.
pub open spec fn cone_from(h: HierarchyView, s: usize, base: Seq<Seq<char>>, k: nat) -> Seq<Seq<char>>
    decreases k,
{
    if k == 0 {
        base
    } else {
        let r = cone_from(h, s, base, (k - 1) as nat);
        let u = (k - 1) as usize;
        if reaches(h.edges, s, u) && !r.contains(h.nodes[u as int]) { r.push(h.nodes[u as int]) } else { r }
    }
}

/// The types searched for a method called on `receiver`: the receiver, its
/// direct subtypes (newest edge first), then every further type of its
/// inheritance cone, in the order their nodes were made, each once.
pub open spec fn method_candidates(h: HierarchyView, receiver: Seq<char>) -> Seq<Seq<char>> {
    let base = seq![receiver] + direct_subtypes(h, receiver);
    match node_of(h, receiver) {
        Some(s) => cone_from(h, s, base, h.nodes.len()),
        None => base,
    }
}

/// The implementations of `method` in `receiver` and all of its subtypes.
pub open spec fn method_implementations(h: HierarchyView, method: Seq<char>, receiver: Seq<char>) -> Seq<u128> {
    implementations_in(h, method_candidates(h, receiver), method)
}

/// The implementations found for each of the given receiver types, in order.
pub open spec fn implementations_over(h: HierarchyView, method: Seq<char>, types: Seq<Seq<char>>) -> Seq<u128>
    decreases types.len(),
{
    if types.len() == 0 {
        Seq::empty()
    } else {
        implementations_over(h, method, types.drop_last()) + method_implementations(h, method, types.last())
    }
}

/// The names of the classes, in order.
pub open spec fn class_names(h: HierarchyView) -> Seq<Seq<char>> {
    h.classes.map_values(|c: EnhancedClassInfo| c.name@)
}

/// `name` names a node other than `s` from which a walk leads to `s`.
pub open spec fn is_ancestor_name(h: HierarchyView, s: usize, name: Seq<char>) -> bool {
    exists|v: usize| v < h.nodes.len() && v != s && reaches(h.edges, v, s) && #[trigger] h.nodes[v as int] == name
}

/// The sequence has no repeated element.
pub open spec fn no_repeats<T>(s: Seq<T>) -> bool {
    forall|i: int, j: int| 0 <= i < j < s.len() ==> s[i] != s[j]
}

/// The base classes of `name`: without repeats, and exactly the names of the
/// nodes other than its own from which an inheritance walk leads to it.
pub open spec fn base_classes_of(h: HierarchyView, name: Seq<char>, bases: Seq<Seq<char>>) -> bool {
    &&& no_repeats(bases)
    &&& match node_of(h, name) {
        Some(s) => forall|x: Seq<char>| bases.contains(x) <==> is_ancestor_name(h, s, x),
        None => bases.len() == 0,
    }
}

/// `sub` is `sup` or derives from it, directly or not.
pub open spec fn is_subtype(h: HierarchyView, sub: Seq<char>, sup: Seq<char>) -> bool {
    match (node_of(h, sub), node_of(h, sup)) {
        (Some(a), Some(b)) => reaches(h.edges, b, a),
        _ => false,
    }
}

impl ClassHierarchyBuilder {
    /// The builder's invariant.
    pub closed spec fn well_formed(&self) -> bool {
        let h = self@;
        &&& h.class_nodes.len() == h.classes.len()
        &&& views(self.node_to_class@) == h.nodes
        &&& names_unique(h.classes)
        &&& forall|i: int| 0 <= i < h.classes.len() ==> #[trigger] h.class_nodes[i] < h.nodes.len()
            && h.nodes[h.class_nodes[i] as int] == h.classes[i].name@
        &&& edges_within(h.edges, h.nodes.len())
        &&& h.nodes.len() <= graph_capacity()
        &&& h.edges.len() <= graph_capacity()
    }

    /// Creates an empty builder.
    pub fn new() -> (res: Self)
        ensures
            res.well_formed(),
            res@.classes.len() == 0,
            res@.class_nodes.len() == 0,
            res@.nodes.len() == 0,
            res@.edges.len() == 0,
            res@.edge_kinds.len() == 0,
    {
        let res = ClassHierarchyBuilder {
            classes: Vec::new(),
            inheritance_graph: graph_new(),
            class_to_node: Vec::new(),
            node_to_class: Vec::new(),
        };
        proof {
            assert(views(res.node_to_class@) =~= Seq::<Seq<char>>::empty());
        }
        res
    }

    /// Finds the position of the class named `name`.
    fn class_index(&self, name: &String) -> (res: Option<usize>)
        requires
            self.well_formed(),
        ensures
            match res {
                Some(i) => i < self@.classes.len() && class_pos(self@.classes, name@) == i as int,
                None => class_pos(self@.classes, name@) < 0,
            },
    {
        proof { lemma_class_pos(self@.classes, name@); }
        let mut i: usize = 0;
        while i < self.classes.len()
            invariant
                i <= self.classes.len(),
                self.classes@ == self@.classes,
                forall|j: int| 0 <= j < i ==> #[trigger] self.classes@[j].name@ != name@,
                -1 <= class_pos(self@.classes, name@) < self@.classes.len(),
                class_pos(self@.classes, name@) >= 0 ==> self@.classes[class_pos(self@.classes, name@)].name@ == name@,
                forall|j: int| 0 <= j < self@.classes.len() && (class_pos(self@.classes, name@) < 0 || j < class_pos(self@.classes, name@))
                    ==> #[trigger] self@.classes[j].name@ != name@,
            decreases self.classes.len() - i,
        {
            if self.classes[i].name == *name {
                return Some(i);
            }
            i = i + 1;
        }
        None
    }

    /// The graph node of the class named `name`.
    fn node_index(&self, name: &String) -> (res: Option<usize>)
        requires
            self.well_formed(),
        ensures
            res == node_of(self@, name@),
            res matches Some(v) ==> v < self@.nodes.len(),
    {
        match self.class_index(name) {
            Some(i) => Some(self.class_to_node[i]),
            None => None,
        }
    }

    /// Adds a class. A class of the same name is replaced, and the class gets a
    /// new graph node either way. Always succeeds.
    pub fn add_class(&mut self, class: EnhancedClassInfo) -> (res: Result<(), String>)
        requires
            old(self).well_formed(),
            old(self)@.nodes.len() < graph_capacity(),
        ensures
            res is Ok,
            final(self).well_formed(),
            final(self)@ == after_add_class(old(self)@, class),
    {
        let ghost h = self@;
        let ghost c = class;
        proof { lemma_class_pos(h.classes, class.name@); }
        let class_name = class.name.clone();
        let pos = self.class_index(&class_name);
        let node = graph_add_node(&mut self.inheritance_graph, class_name.clone());
        match pos {
            Some(i) => {
                self.classes.set(i, class);
                self.class_to_node.set(i, node);
            },
            None => {
                self.classes.push(class);
                self.class_to_node.push(node);
            },
        }
        self.node_to_class.push(class_name);
        proof {
            assert(views(self.node_to_class@) =~= views(old(self).node_to_class@).push(c.name@));
            let h2 = self@;
            assert(h2.classes =~= insert_class(h.classes, c));
            assert(h2.class_nodes =~= insert_class_node(h, c));
            assert forall|i: int, j: int| 0 <= i < j < h2.classes.len() implies h2.classes[i].name@ != h2.classes[j].name@ by {
                if pos.is_none() && j == h.classes.len() {
                    assert(h.classes[i].name@ != c.name@);
                }
            }
            assert forall|i: int| 0 <= i < h2.classes.len() implies #[trigger] h2.class_nodes[i] < h2.nodes.len()
                && h2.nodes[h2.class_nodes[i] as int] == h2.classes[i].name@ by {
                if i < h.classes.len() && !(pos == Some(i as usize)) {
                    assert(h2.class_nodes[i] == h.class_nodes[i]);
                }
            }
            assert forall|i: int| 0 <= i < h2.edges.len() implies (#[trigger] h2.edges[i]).0 < h2.nodes.len() && h2.edges[i].1 < h2.nodes.len() by {
                assert(h.edges[i].0 < h.nodes.len());
            }
        }
        Ok(())
    }
}

/// The classes after storing `c` under its name.
pub open spec fn insert_class(classes: Seq<EnhancedClassInfo>, c: EnhancedClassInfo) -> Seq<EnhancedClassInfo> {
    let p = class_pos(classes, c.name@);
    if p >= 0 { classes.update(p, c) } else { classes.push(c) }
}

/// The class nodes after storing `c`: its class gets the node added for it.
pub open spec fn insert_class_node(h: HierarchyView, c: EnhancedClassInfo) -> Seq<usize> {
    let p = class_pos(h.classes, c.name@);
    if p >= 0 { h.class_nodes.update(p, h.nodes.len() as usize) } else { h.class_nodes.push(h.nodes.len() as usize) }
}

/// The builder after `add_class(c)`.
pub open spec fn after_add_class(h: HierarchyView, c: EnhancedClassInfo) -> HierarchyView {
    HierarchyView {
        classes: insert_class(h.classes, c),
        class_nodes: insert_class_node(h, c),
        nodes: h.nodes.push(c.name@),
        edges: h.edges,
        edge_kinds: h.edge_kinds,
    }
}

/// `class_pos` is the first match.
pub proof fn lemma_class_pos(classes: Seq<EnhancedClassInfo>, name: Seq<char>)
    ensures
        -1 <= class_pos(classes, name) < classes.len(),
        class_pos(classes, name) >= 0 ==> classes[class_pos(classes, name)].name@ == name,
        forall|j: int| 0 <= j < classes.len() && (class_pos(classes, name) < 0 || j < class_pos(classes, name))
            ==> #[trigger] classes[j].name@ != name,
    decreases classes.len(),
{
    if classes.len() > 0 {
        lemma_class_pos(classes.drop_first(), name);
        assert forall|j: int| 0 <= j < classes.len() && (class_pos(classes, name) < 0 || j < class_pos(classes, name))
            implies #[trigger] classes[j].name@ != name by {
            if j > 0 {
                assert(classes[j] == classes.drop_first()[j - 1]);
            }
        }
    }
}

impl ClassHierarchyBuilder {
    /// The names carried by the given nodes, in order.
    fn names_of_nodes(&self, vs: &Vec<usize>) -> (res: Vec<String>)
        requires
            self.well_formed(),
            forall|j: int| 0 <= j < vs.len() ==> #[trigger] vs@[j] < self@.nodes.len(),
        ensures
            views(res@) == node_names(self@, vs@),
    {
        let mut res: Vec<String> = Vec::new();
        let mut i: usize = 0;
        while i < vs.len()
            invariant
                self.well_formed(),
                forall|j: int| 0 <= j < vs.len() ==> #[trigger] vs@[j] < self@.nodes.len(),
                i <= vs.len(),
                views(res@) == node_names(self@, vs@.subrange(0, i as int)),
            decreases vs.len() - i,
        {
            let v = vs[i];
            assert(views(self.node_to_class@)[v as int] == self.node_to_class@[v as int]@);
            let ghost old_res = res@;
            res.push(self.node_to_class[v].clone());
            proof {
                assert(views(res@) =~= views(old_res).push(self@.nodes[v as int]));
                assert(node_names(self@, vs@.subrange(0, i + 1)) =~= node_names(self@, vs@.subrange(0, i as int)).push(self@.nodes[v as int]));
                assert(vs@.subrange(0, i + 1) =~= vs@.subrange(0, i as int).push(v));
                assert(views(res@) =~= node_names(self@, vs@.subrange(0, i + 1)));
            }
            i = i + 1;
        }
        proof { assert(vs@.subrange(0, vs.len() as int) =~= vs@); }
        res
    }

    /// The direct subtypes of a class: the classes whose inheritance edges leave it,
    /// newest edge first. Empty when there is no class of that name.
    pub fn get_subtypes(&self, class_name: &String) -> (res: Vec<String>)
        requires
            self.well_formed(),
        ensures
            views(res@) == direct_subtypes(self@, class_name@),
    {
        match self.node_index(class_name) {
            Some(s) => {
                let children = graph_children(&self.inheritance_graph, s);
                proof { self.lemma_neighbors_within(s); }
                self.names_of_nodes(&children)
            },
            None => {
                let res: Vec<String> = Vec::new();
                assert(views(res@) =~= Seq::<Seq<char>>::empty());
                res
            },
        }
    }

    /// The direct supertypes of a class: the classes whose inheritance edges enter it,
    /// newest edge first. Empty when there is no class of that name.
    pub fn get_supertypes(&self, class_name: &String) -> (res: Vec<String>)
        requires
            self.well_formed(),
        ensures
            views(res@) == direct_supertypes(self@, class_name@),
    {
        match self.node_index(class_name) {
            Some(s) => {
                let parents = graph_parents(&self.inheritance_graph, s);
                proof { self.lemma_neighbors_within(s); }
                self.names_of_nodes(&parents)
            },
            None => {
                let res: Vec<String> = Vec::new();
                assert(views(res@) =~= Seq::<Seq<char>>::empty());
                res
            },
        }
    }

    /// Neighbours of a node are nodes.
    proof fn lemma_neighbors_within(&self, s: usize)
        requires
            self.well_formed(),
        ensures
            forall|j: int| 0 <= j < targets_newest_first(self@.edges, s).len()
                ==> #[trigger] targets_newest_first(self@.edges, s)[j] < self@.nodes.len(),
            forall|j: int| 0 <= j < sources_newest_first(self@.edges, s).len()
                ==> #[trigger] sources_newest_first(self@.edges, s)[j] < self@.nodes.len(),
    {
        lemma_neighbors_bounded(self@.edges, s, self@.nodes.len());
    }

    /// The implementations of a method in the receiver class and all of its
    /// subtypes, in the order of `method_candidates`: for each of them that has
    /// a method of that name, the method's id.
    pub fn find_method_implementations(&self, method_name: &String, receiver_type: &String) -> (res: Vec<u128>)
        requires
            self.well_formed(),
        ensures
            res@ == method_implementations(self@, method_name@, receiver_type@),
    {
        let mut candidates: Vec<String> = Vec::new();
        candidates.push(receiver_type.clone());
        let subtypes = self.get_subtypes(receiver_type);
        let mut k: usize = 0;
        while k < subtypes.len()
            invariant
                k <= subtypes.len(),
                views(candidates@) == seq![receiver_type@] + views(subtypes@).subrange(0, k as int),
            decreases subtypes.len() - k,
        {
            let ghost old_c = candidates@;
            candidates.push(subtypes[k].clone());
            proof {
                assert(views(candidates@) =~= views(old_c).push(subtypes@[k as int]@));
                assert(views(subtypes@)[k as int] == subtypes@[k as int]@);
                assert(views(candidates@) =~= seq![receiver_type@] + views(subtypes@).subrange(0, k + 1));
            }
            k = k + 1;
        }
        proof {
            assert(views(subtypes@).subrange(0, subtypes.len() as int) =~= views(subtypes@));
        }
        match self.node_index(receiver_type) {
            Some(s) => {
                let marked = reachable_from(&self.inheritance_graph, s, true);
                let n = marked.len();
                let ghost base = views(candidates@);
                let mut u: usize = 0;
                while u < n
                    invariant
                        self.well_formed(),
                        s < self@.nodes.len(),
                        n == marked.len(),
                        n == self@.nodes.len(),
                        forall|x: usize| x < n ==> (#[trigger] marked@[x as int] <==> reaches(self@.edges, s, x)),
                        u <= n,
                        views(candidates@) == cone_from(self@, s, base, u as nat),
                    decreases n - u,
                {
                    let name = &self.node_to_class[u];
                    proof {
                        assert(views(self.node_to_class@)[u as int] == self.node_to_class@[u as int]@);
                    }
                    if marked[u] && !contains_name(&candidates, name) {
                        let ghost before = views(candidates@);
                        candidates.push(name.clone());
                        proof {
                            assert(views(candidates@) =~= before.push(name@));
                        }
                    }
                    u = u + 1;
                }
            },
            None => {},
        }
        proof {
            assert(views(candidates@) == method_candidates(self@, receiver_type@));
        }
        let mut res: Vec<u128> = Vec::new();
        let mut i: usize = 0;
        while i < candidates.len()
            invariant
                self.well_formed(),
                i <= candidates.len(),
                res@ == implementations_in(self@, views(candidates@).subrange(0, i as int), method_name@),
            decreases candidates.len() - i,
        {
            proof {
                let cs = views(candidates@).subrange(0, i + 1);
                assert(cs.drop_last() =~= views(candidates@).subrange(0, i as int));
                assert(cs.last() == candidates@[i as int]@);
            }
            match self.class_index(&candidates[i]) {
                Some(p) => {
                    match sig_position(&self.classes[p].method_signatures, method_name) {
                        Some(q) => {
                            res.push(self.classes[p].method_signatures[q].id);
                        },
                        None => {},
                    }
                },
                None => {},
            }
            i = i + 1;
        }
        proof {
            assert(views(candidates@).subrange(0, candidates.len() as int) =~= views(candidates@));
        }
        res
    }

    /// Resolves a virtual call: the same as `find_method_implementations`.
    pub fn resolve_virtual_call(&self, method_name: &String, receiver_type: &String) -> (res: Vec<u128>)
        requires
            self.well_formed(),
        ensures
            res@ == method_implementations(self@, method_name@, receiver_type@),
    {
        self.find_method_implementations(method_name, receiver_type)
    }

    /// The class of that name.
    pub fn find_class_by_name(&self, class_name: &String) -> (res: Option<&EnhancedClassInfo>)
        requires
            self.well_formed(),
        ensures
            match res {
                Some(c) => class_named(self@, class_name@) == Some(*c),
                None => class_named(self@, class_name@) is None,
            },
    {
        match self.class_index(class_name) {
            Some(i) => Some(&self.classes[i]),
            None => None,
        }
    }

    /// All classes.
    pub fn get_all_classes(&self) -> (res: &Vec<EnhancedClassInfo>)
        ensures
            res@ == self@.classes,
    {
        &self.classes
    }

    /// The names of all classes, in the order of `get_all_classes`.
    pub fn get_all_class_names(&self) -> (res: Vec<String>)
        ensures
            res@.len() == self@.classes.len(),
            forall|i: int| 0 <= i < res@.len() ==> #[trigger] res@[i] == self@.classes[i].name,
            views(res@) == class_names(self@),
    {
        let mut res: Vec<String> = Vec::new();
        let mut i: usize = 0;
        while i < self.classes.len()
            invariant
                i <= self.classes.len(),
                self.classes@ == self@.classes,
                res@.len() == i,
                forall|j: int| 0 <= j < i ==> #[trigger] res@[j] == self@.classes[j].name,
            decreases self.classes.len() - i,
        {
            res.push(self.classes[i].name.clone());
            i = i + 1;
        }
        proof { assert(views(res@) =~= class_names(self@)); }
        res
    }

    /// The implementations of `method_name` found for each of `types` in turn
    /// (each with all of its subtypes), one list after the other.
    pub(crate) fn implementations_for_each(&self, method_name: &String, types: &Vec<String>) -> (res: Vec<u128>)
        requires
            self.well_formed(),
        ensures
            res@ == implementations_over(self@, method_name@, views(types@)),
    {
        let mut res: Vec<u128> = Vec::new();
        let mut i: usize = 0;
        while i < types.len()
            invariant
                self.well_formed(),
                i <= types.len(),
                res@ == implementations_over(self@, method_name@, views(types@).subrange(0, i as int)),
            decreases types.len() - i,
        {
            let found_here = self.find_method_implementations(method_name, &types[i]);
            let ghost before = res@;
            let mut j: usize = 0;
            while j < found_here.len()
                invariant
                    j <= found_here.len(),
                    res@ == before + found_here@.subrange(0, j as int),
                decreases found_here.len() - j,
            {
                res.push(found_here[j]);
                proof { assert(res@ =~= before + found_here@.subrange(0, j + 1)); }
                j = j + 1;
            }
            proof {
                let ts = views(types@).subrange(0, i + 1);
                assert(ts.drop_last() =~= views(types@).subrange(0, i as int));
                assert(ts.last() == types@[i as int]@);
                assert(found_here@.subrange(0, found_here@.len() as int) =~= found_here@);
            }
            i = i + 1;
        }
        proof { assert(views(types@).subrange(0, types.len() as int) =~= views(types@)); }
        res
    }

    /// The inheritance graph.
    pub fn get_inheritance_graph(&self) -> (res: &DiGraph<String, InheritanceEdge>)
        ensures
            graph_nodes(*res) == self@.nodes,
            graph_edges(*res) == self@.edges,
            graph_edge_kinds(*res) == self@.edge_kinds,
    {
        &self.inheritance_graph
    }

    /// Whether `potential_subtype` is `potential_supertype` or derives from it:
    /// both classes exist and an inheritance walk leads from the supertype to the subtype.
    pub fn is_subtype_of(&self, potential_subtype: &String, potential_supertype: &String) -> (res: bool)
        requires
            self.well_formed(),
        ensures
            res == is_subtype(self@, potential_subtype@, potential_supertype@),
    {
        match self.node_index(potential_subtype) {
            Some(a) => {
                match self.node_index(potential_supertype) {
                    Some(b) => {
                        let marked = reachable_from(&self.inheritance_graph, b, true);
                        marked[a]
                    },
                    None => false,
                }
            },
            None => false,
        }
    }

    /// All base classes of a class (the transitive closure of inheritance), each once.
    pub fn get_all_base_classes(&self, class_name: &String) -> (res: Vec<String>)
        requires
            self.well_formed(),
        ensures
            base_classes_of(self@, class_name@, views(res@)),
    {
        let mut res: Vec<String> = Vec::new();
        match self.node_index(class_name) {
            Some(s) => {
                let marked = reachable_from(&self.inheritance_graph, s, false);
                let n = marked.len();
                let mut v: usize = 0;
                while v < n
                    invariant
                        self.well_formed(),
                        node_of(self@, class_name@) == Some(s),
                        s < self@.nodes.len(),
                        n == marked.len(),
                        n == self@.nodes.len(),
                        forall|x: usize| x < n ==> (#[trigger] marked@[x as int] <==> reaches(self@.edges, x, s)),
                        v <= n,
                        no_repeats(views(res@)),
                        forall|x: Seq<char>| views(res@).contains(x) <==> exists|u: usize|
                            u < v && u != s && reaches(self@.edges, u, s) && #[trigger] self@.nodes[u as int] == x,
                    decreases n - v,
                {
                    if marked[v] && v != s {
                        let name = &self.node_to_class[v];
                        proof {
                            assert(views(self.node_to_class@)[v as int] == self.node_to_class@[v as int]@);
                        }
                        let ghost before = views(res@);
                        if !contains_name(&res, name) {
                            res.push(name.clone());
                            proof {
                                assert(views(res@)[before.len() as int] == name@);
                                assert(views(res@) =~= before.push(name@));
                                assert forall|i: int, j: int| 0 <= i < j < views(res@).len() implies
                                    views(res@)[i] != views(res@)[j] by {
                                    if j == before.len() {
                                        assert(before[i] == views(res@)[i]);
                                        assert(!before.contains(name@));
                                    }
                                }
                            }
                        }
                        proof {
                            assert forall|x: Seq<char>| views(res@).contains(x) <==> exists|u: usize|
                                u < v + 1 && u != s && reaches(self@.edges, u, s) && #[trigger] self@.nodes[u as int] == x by {
                                if views(res@).contains(x) && !before.contains(x) {
                                    assert(x == name@);
                                    assert(self@.nodes[v as int] == x);
                                }
                                if exists|u: usize| u < v + 1 && u != s && reaches(self@.edges, u, s) && #[trigger] self@.nodes[u as int] == x {
                                    let u = choose|u: usize| u < v + 1 && u != s && reaches(self@.edges, u, s) && #[trigger] self@.nodes[u as int] == x;
                                    if u == v {
                                        if before.contains(x) {
                                            let i = choose|i: int| 0 <= i < before.len() && before[i] == x;
                                            assert(views(res@)[i] == x);
                                        } else {
                                            assert(views(res@).contains(x));
                                        }
                                    } else {
                                        assert(before.contains(x));
                                        let i = choose|i: int| 0 <= i < before.len() && before[i] == x;
                                        assert(views(res@)[i] == x);
                                    }
                                }
                            }
                        }
                    }
                    v = v + 1;
                }
                proof {
                    assert forall|x: Seq<char>| views(res@).contains(x) <==> is_ancestor_name(self@, s, x) by {
                        if is_ancestor_name(self@, s, x) {
                            let u = choose|u: usize| u < self@.nodes.len() && u != s && reaches(self@.edges, u, s) && #[trigger] self@.nodes[u as int] == x;
                        }
                    }
                }
                res
            },
            None => {
                assert(views(res@).len() == 0);
                res
            },
        }
    }

    /// The depth of a class: the length of its inheritance chain, 0 when there is no such class.
    pub fn get_class_depth(&self, class_name: &String) -> (res: usize)
        requires
            self.well_formed(),
        ensures
            res == match class_named(self@, class_name@) {
                Some(c) => c.inheritance_chain@.len(),
                None => 0,
            },
    {
        match self.class_index(class_name) {
            Some(i) => self.classes[i].inheritance_chain.len(),
            None => 0,
        }
    }

    /// Statistics: the number of classes, the longest inheritance chain, the
    /// number of inheritance edges and the number of classes that have a parent.
    pub fn get_hierarchy_stats(&self) -> (res: HierarchyStats)
        requires
            self.well_formed(),
        ensures
            res.total_classes == self@.classes.len(),
            res.max_depth == max_chain_len(self@.classes),
            res.total_inheritance_edges == self@.edges.len(),
            res.classes_with_parents == count_with_parent(self@.classes),
    {
        let total_classes = self.classes.len();
        let mut max_depth: usize = 0;
        let mut classes_with_parents: usize = 0;
        let mut i: usize = 0;
        while i < self.classes.len()
            invariant
                i <= self.classes.len(),
                self.classes@ == self@.classes,
                max_depth == max_chain_len(self@.classes.subrange(0, i as int)),
                classes_with_parents == count_with_parent(self@.classes.subrange(0, i as int)),
                classes_with_parents <= i,
            decreases self.classes.len() - i,
        {
            proof {
                assert(self@.classes.subrange(0, i + 1).drop_last() =~= self@.classes.subrange(0, i as int));
            }
            let d = self.classes[i].inheritance_chain.len();
            if d > max_depth {
                max_depth = d;
            }
            if self.classes[i].parent_class.is_some() {
                classes_with_parents = classes_with_parents + 1;
            }
            i = i + 1;
        }
        proof {
            assert(self@.classes.subrange(0, self@.classes.len() as int) =~= self@.classes);
        }
        let total_inheritance_edges = graph_edge_count(&self.inheritance_graph);
        HierarchyStats { total_classes, max_depth, total_inheritance_edges, classes_with_parents }
    }
}

impl Default for ClassHierarchyBuilder {
    fn default() -> (res: Self)
        ensures
            res.well_formed(),
            res@.classes.len() == 0,
            res@.nodes.len() == 0,
            res@.edges.len() == 0,
    {
        Self::new()
    }
}

/// The longest inheritance chain among the classes (0 when there is none).
pub open spec fn max_chain_len(classes: Seq<EnhancedClassInfo>) -> nat
    decreases classes.len(),
{
    if classes.len() == 0 {
        0
    } else {
        let m = max_chain_len(classes.drop_last());
        let d = classes.last().inheritance_chain@.len();
        if d > m { d } else { m }
    }
}

/// The number of classes that have a direct parent.
pub open spec fn count_with_parent(classes: Seq<EnhancedClassInfo>) -> nat
    decreases classes.len(),
{
    if classes.len() == 0 {
        0
    } else {
        count_with_parent(classes.drop_last()) + if classes.last().parent_class is Some { 1nat } else { 0nat }
    }
}

/// A copy of a vector of strings.
pub fn clone_string_vec(v: &Vec<String>) -> (res: Vec<String>)
    ensures
        res@ == v@,
{
    let mut res: Vec<String> = Vec::new();
    let mut i: usize = 0;
    while i < v.len()
        invariant
            i <= v.len(),
            res@ == v@.subrange(0, i as int),
        decreases v.len() - i,
    {
        res.push(v[i].clone());
        proof { assert(res@ =~= v@.subrange(0, i + 1)); }
        i = i + 1;
    }
    proof { assert(v@.subrange(0, v.len() as int) =~= v@); }
    res
}

/// Whether some string of `names` has the view of `s`.
fn contains_name(names: &Vec<String>, s: &String) -> (res: bool)
    ensures
        res == views(names@).contains(s@),
{
    crate::cha::types::contains_string(names, s)
}

/// Neighbours of a node are nodes.
pub proof fn lemma_neighbors_bounded(edges: Seq<(usize, usize)>, s: usize, n: nat)
    requires
        edges_within(edges, n),
    ensures
        forall|j: int| 0 <= j < targets_newest_first(edges, s).len()
            ==> #[trigger] targets_newest_first(edges, s)[j] < n,
        forall|j: int| 0 <= j < sources_newest_first(edges, s).len()
            ==> #[trigger] sources_newest_first(edges, s)[j] < n,
    decreases edges.len(),
{
    if edges.len() > 0 {
        let init = edges.drop_last();
        assert(edges_within(init, n)) by {
            assert forall|i: int| 0 <= i < init.len() implies (#[trigger] init[i]).0 < n && init[i].1 < n by {
                assert(init[i] == edges[i]);
            }
        }
        lemma_neighbors_bounded(init, s, n);
        assert(edges[edges.len() - 1].0 < n);
        let t = targets_newest_first(edges, s);
        let r = targets_newest_first(init, s);
        assert forall|j: int| 0 <= j < t.len() implies #[trigger] t[j] < n by {
            if edges.last().0 == s {
                if j > 0 { assert(t[j] == r[j - 1]); }
            }
        }
        let t2 = sources_newest_first(edges, s);
        let r2 = sources_newest_first(init, s);
        assert forall|j: int| 0 <= j < t2.len() implies #[trigger] t2[j] < n by {
            if edges.last().1 == s {
                if j > 0 { assert(t2[j] == r2[j - 1]); }
            }
        }
    }
}

/// The builder after adding each of `cs` in turn.
pub open spec fn after_add_classes(h: HierarchyView, cs: Seq<EnhancedClassInfo>) -> HierarchyView
    decreases cs.len(),
{
    if cs.len() == 0 {
        h
    } else {
        after_add_class(after_add_classes(h, cs.drop_last()), cs.last())
    }
}

/// The edges from the present interfaces of a class to the class node, in interface order.
pub open spec fn interface_edges(h: HierarchyView, ifaces: Seq<Seq<char>>, cnode: usize) -> Seq<(usize, usize)>
    decreases ifaces.len(),
{
    if ifaces.len() == 0 {
        Seq::empty()
    } else {
        let rest = interface_edges(h, ifaces.drop_last(), cnode);
        match node_of(h, ifaces.last()) {
            Some(v) => rest.push((v, cnode)),
            None => rest,
        }
    }
}

/// The edges one class contributes: from its parent (when that class exists),
/// then from each of its interfaces that exists.
pub open spec fn class_edges(h: HierarchyView, c: EnhancedClassInfo, cnode: usize) -> Seq<(usize, usize)> {
    let parent_edge = match c.parent_class {
        Some(p) => match node_of(h, p@) {
            Some(v) => seq![(v, cnode)],
            None => Seq::empty(),
        },
        None => Seq::empty(),
    };
    parent_edge + interface_edges(h, views(c.implemented_interfaces@), cnode)
}

/// The kinds of the edges from the present interfaces of a class: each implements.
pub open spec fn interface_edge_kinds(h: HierarchyView, ifaces: Seq<Seq<char>>) -> Seq<InheritanceEdgeType>
    decreases ifaces.len(),
{
    if ifaces.len() == 0 {
        Seq::empty()
    } else {
        let rest = interface_edge_kinds(h, ifaces.drop_last());
        match node_of(h, ifaces.last()) {
            Some(v) => rest.push(InheritanceEdgeType::Implements),
            None => rest,
        }
    }
}

/// The kinds of the edges one class contributes: the parent's edge extends.
pub open spec fn class_edge_kinds(h: HierarchyView, c: EnhancedClassInfo) -> Seq<InheritanceEdgeType> {
    let parent_kind = match c.parent_class {
        Some(p) => match node_of(h, p@) {
            Some(v) => seq![InheritanceEdgeType::Extends],
            None => Seq::empty(),
        },
        None => Seq::empty(),
    };
    parent_kind + interface_edge_kinds(h, views(c.implemented_interfaces@))
}

/// The kinds of the edges contributed by the first `k` classes, in class order.
pub open spec fn hierarchy_edge_kinds(h: HierarchyView, k: nat) -> Seq<InheritanceEdgeType>
    decreases k,
{
    if k == 0 || k > h.classes.len() {
        Seq::empty()
    } else {
        hierarchy_edge_kinds(h, (k - 1) as nat) + class_edge_kinds(h, h.classes[k - 1])
    }
}

/// The edges contributed by the first `k` classes, in class order.
pub open spec fn hierarchy_edges(h: HierarchyView, k: nat) -> Seq<(usize, usize)>
    decreases k,
{
    if k == 0 || k > h.classes.len() {
        Seq::empty()
    } else {
        hierarchy_edges(h, (k - 1) as nat) + class_edges(h, h.classes[k - 1], h.class_nodes[k - 1])
    }
}

/// An upper bound on the number of edges the classes contribute.
pub open spec fn edge_budget(classes: Seq<EnhancedClassInfo>) -> nat
    decreases classes.len(),
{
    if classes.len() == 0 {
        0
    } else {
        edge_budget(classes.drop_last()) + 1 + classes.last().implemented_interfaces@.len()
    }
}

/// The parent names met following parent links from `name`, nearest first;
/// the last one may name no class.
pub open spec fn parent_chain(classes: Seq<EnhancedClassInfo>, name: Seq<char>, fuel: nat) -> Seq<Seq<char>>
    decreases fuel,
{
    let p = class_pos(classes, name);
    if p < 0 || fuel == 0 {
        Seq::empty()
    } else {
        match classes[p].parent_class {
            None => Seq::empty(),
            Some(par) => seq![par@] + parent_chain(classes, par@, (fuel - 1) as nat),
        }
    }
}

/// The inheritance chain of a class: its ancestors by parent link, root first.
pub open spec fn inheritance_chain_of(classes: Seq<EnhancedClassInfo>, name: Seq<char>) -> Seq<Seq<char>> {
    parent_chain(classes, name, classes.len()).reverse()
}

/// The error message for a cycle through node `v`.
pub open spec fn cycle_message(v: usize) -> Seq<char> {
    "Circular dependency detected: Cycle(NodeIndex("@ + decimal(v as nat) + "))"@
}

/// After computing the closure, class `c` of `h` became `c2`: only its base
/// classes and its inheritance chain changed, and they are those of the hierarchy.
pub open spec fn closed_class(h: HierarchyView, c: EnhancedClassInfo, c2: EnhancedClassInfo) -> bool {
    &&& c2 == (EnhancedClassInfo { base_classes: c2.base_classes, inheritance_chain: c2.inheritance_chain, ..c })
    &&& base_classes_of(h, c.name@, views(c2.base_classes@))
    &&& views(c2.inheritance_chain@) == inheritance_chain_of(h.classes, c.name@)
}

/// `interface_edges` adds at most one edge per interface.
pub proof fn lemma_interface_edges_len(h: HierarchyView, ifaces: Seq<Seq<char>>, cnode: usize)
    ensures
        interface_edges(h, ifaces, cnode).len() <= ifaces.len(),
    decreases ifaces.len(),
{
    if ifaces.len() > 0 {
        lemma_interface_edges_len(h, ifaces.drop_last(), cnode);
    }
}

/// The contributed edges fit the budget.
pub proof fn lemma_hierarchy_edges_len(h: HierarchyView, k: nat)
    requires
        k <= h.classes.len(),
    ensures
        hierarchy_edges(h, k) .len() <= edge_budget(h.classes.subrange(0, k as int)),
    decreases k,
{
    if k > 0 {
        lemma_hierarchy_edges_len(h, (k - 1) as nat);
        let c = h.classes[k - 1];
        lemma_interface_edges_len(h, views(c.implemented_interfaces@), h.class_nodes[k - 1]);
        assert(h.classes.subrange(0, k as int).drop_last() =~= h.classes.subrange(0, k - 1));
    }
}

impl ClassHierarchyBuilder {
    /// Adds one inheritance edge per existing parent and per existing interface of
    /// each class, in class order.
    fn establish_inheritance_relationships(&mut self) -> (res: Result<(), String>)
        requires
            old(self).well_formed(),
            old(self)@.edges.len() + edge_budget(old(self)@.classes) <= graph_capacity(),
        ensures
            res is Ok,
            final(self).well_formed(),
            final(self)@ == (HierarchyView {
                edges: old(self)@.edges + hierarchy_edges(old(self)@, old(self)@.classes.len()),
                edge_kinds: old(self)@.edge_kinds + hierarchy_edge_kinds(old(self)@, old(self)@.classes.len()),
                ..old(self)@
            }),
    {
        let ghost h = self@;
        let mut i: usize = 0;
        while i < self.classes.len()
            invariant
                self.well_formed(),
                i <= self.classes.len(),
                self@.classes == h.classes,
                self@.class_nodes == h.class_nodes,
                self@.nodes == h.nodes,
                self@.edges == h.edges + hierarchy_edges(h, i as nat),
                self@.edge_kinds == h.edge_kinds + hierarchy_edge_kinds(h, i as nat),
                h.edges.len() + edge_budget(h.classes) <= graph_capacity(),
                h.class_nodes.len() == h.classes.len(),
            decreases self.classes.len() - i,
        {
            proof {
                lemma_hierarchy_edges_len(h, i as nat);
                lemma_budget_prefix(h.classes, i as nat);
            }
            let child = self.class_to_node[i];
            let ghost edges_before = self@.edges;
            let ghost kinds_before = self@.edge_kinds;
            match &self.classes[i].parent_class {
                Some(parent_name) => {
                    match self.node_index(parent_name) {
                        Some(parent_node) => {
                            graph_add_edge(&mut self.inheritance_graph, parent_node, child,
                                InheritanceEdge { edge_type: InheritanceEdgeType::Extends, metadata: None });
                        },
                        None => {},
                    }
                },
                None => {},
            }
            let ghost edges_mid = self@.edges;
            let ghost kinds_mid = self@.edge_kinds;
            proof {
                let c = h.classes[i as int];
                let pk = match c.parent_class {
                    Some(p) => match node_of(h, p@) {
                        Some(v) => seq![InheritanceEdgeType::Extends],
                        None => Seq::empty(),
                    },
                    None => Seq::empty(),
                };
                assert(kinds_mid =~= kinds_before + pk);
                let pe = match c.parent_class {
                    Some(p) => match node_of(h, p@) {
                        Some(v) => seq![(v, h.class_nodes[i as int])],
                        None => Seq::empty(),
                    },
                    None => Seq::empty(),
                };
                assert(edges_mid =~= edges_before + pe);
            }
            let n_ifaces = self.classes[i].implemented_interfaces.len();
            let mut j: usize = 0;
            while j < n_ifaces
                invariant
                    self.well_formed(),
                    i < self.classes.len(),
                    j <= n_ifaces,
                    n_ifaces == h.classes[i as int].implemented_interfaces@.len(),
                    self@.classes == h.classes,
                    self@.class_nodes == h.class_nodes,
                    self@.nodes == h.nodes,
                    child == h.class_nodes[i as int],
                    self@.edges == edges_mid + interface_edges(h,
                        views(h.classes[i as int].implemented_interfaces@).subrange(0, j as int), child),
                    self@.edge_kinds == kinds_mid + interface_edge_kinds(h,
                        views(h.classes[i as int].implemented_interfaces@).subrange(0, j as int)),
                    edges_mid.len() <= edges_before.len() + 1,
                    edges_before.len() + 1 + n_ifaces <= graph_capacity(),
                decreases n_ifaces - j,
            {
                proof {
                    lemma_interface_edges_len(h, views(h.classes[i as int].implemented_interfaces@).subrange(0, j as int), child);
                }
                let ghost ifs = views(h.classes[i as int].implemented_interfaces@);
                proof {
                    assert(ifs.subrange(0, j + 1).drop_last() =~= ifs.subrange(0, j as int));
                    assert(ifs.subrange(0, j + 1).last() == self.classes@[i as int].implemented_interfaces@[j as int]@);
                }
                match self.node_index(&self.classes[i].implemented_interfaces[j]) {
                    Some(iface_node) => {
                        graph_add_edge(&mut self.inheritance_graph, iface_node, child,
                            InheritanceEdge { edge_type: InheritanceEdgeType::Implements, metadata: None });
                    },
                    None => {},
                }
                j = j + 1;
            }
            proof {
                let ifs = views(h.classes[i as int].implemented_interfaces@);
                assert(ifs.subrange(0, n_ifaces as int) =~= ifs);
                assert(self@.edges =~= h.edges + hierarchy_edges(h, (i + 1) as nat));
                assert(self@.edge_kinds =~= h.edge_kinds + hierarchy_edge_kinds(h, (i + 1) as nat));
            }
            i = i + 1;
        }
        proof {
            assert(self@ =~= (HierarchyView { edges: h.edges + hierarchy_edges(h, h.classes.len()),
                edge_kinds: h.edge_kinds + hierarchy_edge_kinds(h, h.classes.len()), ..h }));
        }
        Ok(())
    }
}

/// The budget of a prefix bounds the contributions of its next class.
pub proof fn lemma_budget_prefix(classes: Seq<EnhancedClassInfo>, i: nat)
    requires
        i < classes.len(),
    ensures
        edge_budget(classes.subrange(0, i as int)) + 1 + classes[i as int].implemented_interfaces@.len()
            <= edge_budget(classes),
    decreases classes.len(),
{
    if i + 1 < classes.len() {
        lemma_budget_prefix(classes.drop_last(), i);
        assert(classes.drop_last().subrange(0, i as int) =~= classes.subrange(0, i as int));
    } else {
        assert(classes.drop_last() =~= classes.subrange(0, i as int));
    }
}

impl ClassHierarchyBuilder {
    /// The ancestors of a class by parent link, root first. The walk takes at
    /// most one step per class, so a cycle of parent links cannot hold it up.
    fn build_inheritance_chain(&self, class_name: &String) -> (res: Vec<String>)
        requires
            self.well_formed(),
        ensures
            views(res@) == inheritance_chain_of(self@.classes, class_name@),
    {
        let ghost classes = self@.classes;
        let mut chain: Vec<String> = Vec::new();
        let mut current = class_name.clone();
        let mut fuel: usize = self.classes.len();
        loop
            invariant
                self.well_formed(),
                self@.classes == classes,
                views(chain@) + parent_chain(classes, current@, fuel as nat) == parent_chain(classes, class_name@, classes.len()),
            ensures
                views(chain@) == parent_chain(classes, class_name@, classes.len()),
            decreases fuel,
        {
            if fuel == 0 {
                assert(views(chain@) + parent_chain(classes, current@, 0) =~= views(chain@));
                break;
            }
            proof { lemma_class_pos(classes, current@); }
            match self.class_index(&current) {
                Some(p) => {
                    match &self.classes[p].parent_class {
                        Some(parent_name) => {
                            let ghost old_chain = views(chain@);
                            let ghost old_current = current@;
                            proof {
                                assert(parent_chain(classes, old_current, fuel as nat) == seq![parent_name@]
                                    + parent_chain(classes, parent_name@, (fuel - 1) as nat));
                            }
                            chain.push(parent_name.clone());
                            current = parent_name.clone();
                            proof {
                                assert(views(chain@) =~= old_chain.push(current@));
                                assert(views(chain@) + parent_chain(classes, current@, (fuel - 1) as nat)
                                    =~= old_chain + parent_chain(classes, old_current, fuel as nat));
                            }
                            fuel = fuel - 1;
                        },
                        None => {
                            assert(views(chain@) + parent_chain(classes, current@, fuel as nat) =~= views(chain@));
                            break;
                        },
                    }
                },
                None => {
                    assert(views(chain@) + parent_chain(classes, current@, fuel as nat) =~= views(chain@));
                    break;
                },
            }
        }
        // root first
        let mut res: Vec<String> = Vec::new();
        let mut k: usize = chain.len();
        while k > 0
            invariant
                k <= chain.len(),
                views(res@) == views(chain@).subrange(k as int, chain.len() as int).reverse(),
            decreases k,
        {
            k = k - 1;
            let ghost old_res = views(res@);
            res.push(chain[k].clone());
            proof {
                assert(views(res@) =~= old_res.push(chain@[k as int]@));
                assert(views(chain@).subrange(k as int, chain.len() as int).reverse()
                    =~= views(chain@).subrange(k + 1, chain.len() as int).reverse().push(views(chain@)[k as int]));
            }
        }
        proof {
            assert(views(chain@).subrange(0, chain.len() as int) =~= views(chain@));
        }
        res
    }

    /// Sets each class's base classes and inheritance chain from the hierarchy.
    fn compute_transitive_closure(&mut self) -> (res: Result<(), String>)
        requires
            old(self).well_formed(),
        ensures
            res is Ok,
            final(self).well_formed(),
            final(self)@.class_nodes == old(self)@.class_nodes,
            final(self)@.nodes == old(self)@.nodes,
            final(self)@.edges == old(self)@.edges,
            final(self)@.edge_kinds == old(self)@.edge_kinds,
            final(self)@.classes.len() == old(self)@.classes.len(),
            forall|i: int| 0 <= i < old(self)@.classes.len()
                ==> #[trigger] closed_class(old(self)@, old(self)@.classes[i], final(self)@.classes[i]),
    {
        let ghost h = self@;
        let n = self.classes.len();
        let mut bases: Vec<Vec<String>> = Vec::new();
        let mut chains: Vec<Vec<String>> = Vec::new();
        let mut i: usize = 0;
        while i < n
            invariant
                self.well_formed(),
                self@ == h,
                n == h.classes.len(),
                i <= n,
                bases@.len() == i,
                chains@.len() == i,
                forall|j: int| 0 <= j < i ==> base_classes_of(h, h.classes[j].name@, views(#[trigger] bases@[j]@)),
                forall|j: int| 0 <= j < i ==> views(#[trigger] chains@[j]@) == inheritance_chain_of(h.classes, h.classes[j].name@),
            decreases n - i,
        {
            let b = self.get_all_base_classes(&self.classes[i].name);
            let c = self.build_inheritance_chain(&self.classes[i].name);
            bases.push(b);
            chains.push(c);
            i = i + 1;
        }
        // take the classes out, in reverse, then put them back updated and in order
        let mut taken: Vec<EnhancedClassInfo> = Vec::new();
        std::mem::swap(&mut taken, &mut self.classes);
        let mut reversed_classes: Vec<EnhancedClassInfo> = Vec::new();
        while taken.len() > 0
            invariant
                taken@.len() + reversed_classes@.len() == n,
                n == h.classes.len(),
                forall|j: int| 0 <= j < taken@.len() ==> #[trigger] taken@[j] == h.classes[j],
                forall|j: int| 0 <= j < reversed_classes@.len() ==> #[trigger] reversed_classes@[j] == h.classes[n - 1 - j],
            decreases taken.len(),
        {
            let c = taken.pop().unwrap();
            reversed_classes.push(c);
        }
        let mut k: usize = 0;
        while k < n
            invariant
                n == h.classes.len(),
                k <= n,
                bases@.len() == n,
                chains@.len() == n,
                reversed_classes@.len() == n - k,
                forall|j: int| 0 <= j < reversed_classes@.len() ==> #[trigger] reversed_classes@[j] == h.classes[n - 1 - j],
                self@.class_nodes == h.class_nodes,
                self@.nodes == h.nodes,
                self@.edges == h.edges,
                self@.edge_kinds == h.edge_kinds,
                views(self.node_to_class@) == h.nodes,
                self.classes@.len() == k,
                forall|j: int| 0 <= j < n ==> base_classes_of(h, h.classes[j].name@, views(#[trigger] bases@[j]@)),
                forall|j: int| 0 <= j < n ==> views(#[trigger] chains@[j]@) == inheritance_chain_of(h.classes, h.classes[j].name@),
                forall|j: int| 0 <= j < k ==> #[trigger] closed_class(h, h.classes[j], self.classes@[j]),
                h.class_nodes.len() == n,
            decreases n - k,
        {
            let mut class = reversed_classes.pop().unwrap();
            class.base_classes = clone_string_vec(&bases[k]);
            class.inheritance_chain = clone_string_vec(&chains[k]);
            let ghost before = self.classes@;
            self.classes.push(class);
            proof {
                assert(self.classes@ == before.push(class));
                assert forall|j: int| 0 <= j < k + 1 implies #[trigger] closed_class(h, h.classes[j], self.classes@[j]) by {
                    if j < k {
                        assert(self.classes@[j] == before[j]);
                        assert(closed_class(h, h.classes[j], before[j]));
                    }
                }
            }
            k = k + 1;
        }
        proof {
            assert forall|i: int, j: int| 0 <= i < j < self@.classes.len() implies self@.classes[i].name@ != self@.classes[j].name@ by {
                assert(closed_class(h, h.classes[i], self@.classes[i]));
                assert(closed_class(h, h.classes[j], self@.classes[j]));
            }
            assert forall|i: int| 0 <= i < self@.classes.len() implies #[trigger] self@.class_nodes[i] < self@.nodes.len()
                && self@.nodes[self@.class_nodes[i] as int] == self@.classes[i].name@ by {
                assert(closed_class(h, h.classes[i], self@.classes[i]));
            }
        }
        Ok(())
    }
}

impl ClassHierarchyBuilder {
    /// Fails when the inheritance graph has a cycle, naming a node on it.
    fn validate_hierarchy(&self) -> (res: Result<(), String>)
        requires
            self.well_formed(),
        ensures
            res is Ok <==> acyclic(self@.edges),
            res matches Err(msg) ==> exists|v: usize| v < self@.nodes.len() && on_cycle(self@.edges, v)
                && #[trigger] cycle_message(v) == msg@,
    {
        match graph_cycle_node(&self.inheritance_graph) {
            None => Ok(()),
            Some(v) => {
                let mut msg = String::new();
                string_push_str(&mut msg, "Circular dependency detected: Cycle(NodeIndex(");
                push_decimal(&mut msg, v as u64);
                string_push_str(&mut msg, "))");
                assert(cycle_message(v) == msg@);
                Err(msg)
            },
        }
    }

    /// Builds the hierarchy from `classes`: adds each class, adds the inheritance
    /// edges (parent and interfaces, in class order), sets every class's base
    /// classes and inheritance chain, and checks that the graph has no cycle.
    pub fn build_hierarchy(&mut self, classes: Vec<EnhancedClassInfo>) -> (res: Result<(), String>)
        requires
            old(self).well_formed(),
            old(self)@.nodes.len() + classes@.len() <= graph_capacity(),
            old(self)@.edges.len() + edge_budget(after_add_classes(old(self)@, classes@).classes) <= graph_capacity(),
        ensures
            final(self).well_formed(),
            ({
                let h1 = after_add_classes(old(self)@, classes@);
                &&& final(self)@.class_nodes == h1.class_nodes
                &&& final(self)@.nodes == h1.nodes
                &&& final(self)@.edges == h1.edges + hierarchy_edges(h1, h1.classes.len())
                &&& final(self)@.edge_kinds == h1.edge_kinds + hierarchy_edge_kinds(h1, h1.classes.len())
                &&& final(self)@.classes.len() == h1.classes.len()
                &&& forall|i: int| 0 <= i < h1.classes.len() ==> #[trigger] closed_class(
                    HierarchyView { edges: final(self)@.edges, edge_kinds: final(self)@.edge_kinds, ..h1 }, h1.classes[i], final(self)@.classes[i])
            }),
            res is Ok <==> acyclic(final(self)@.edges),
            res matches Err(msg) ==> exists|v: usize| v < final(self)@.nodes.len() && on_cycle(final(self)@.edges, v)
                && #[trigger] cycle_message(v) == msg@,
    {
        let ghost h0 = self@;
        let ghost cs = classes@;
        let mut remaining = classes;
        let mut pending: Vec<EnhancedClassInfo> = Vec::new();
        while remaining.len() > 0
            invariant
                remaining@.len() + pending@.len() == cs.len(),
                forall|j: int| 0 <= j < remaining@.len() ==> #[trigger] remaining@[j] == cs[j],
                forall|j: int| 0 <= j < pending@.len() ==> #[trigger] pending@[j] == cs[cs.len() - 1 - j],
            decreases remaining.len(),
        {
            let c = remaining.pop().unwrap();
            pending.push(c);
        }
        let mut i: usize = 0;
        while pending.len() > 0
            invariant
                self.well_formed(),
                i + pending@.len() == cs.len(),
                forall|j: int| 0 <= j < pending@.len() ==> #[trigger] pending@[j] == cs[cs.len() - 1 - j],
                self@ == after_add_classes(h0, cs.subrange(0, i as int)),
                self@.nodes.len() == h0.nodes.len() + i,
                self@.edges == h0.edges,
                h0.nodes.len() + cs.len() <= graph_capacity(),
            decreases pending.len(),
        {
            let c = pending.pop().unwrap();
            proof {
                assert(c == cs[i as int]);
                assert(cs.subrange(0, i + 1).drop_last() =~= cs.subrange(0, i as int));
            }
            let _ = self.add_class(c);
            i = i + 1;
        }
        proof {
            assert(cs.subrange(0, cs.len() as int) =~= cs);
        }
        let ghost h1 = self@;
        let _ = self.establish_inheritance_relationships();
        let ghost h2 = self@;
        let _ = self.compute_transitive_closure();
        proof {
            assert(h2.classes == h1.classes);
        }
        self.validate_hierarchy()
    }
}


/// `c` declares a method named `method` whose id is `id`.
pub open spec fn implements(c: EnhancedClassInfo, method: Seq<char>, id: u128) -> bool {
    match find_sig(c.method_signatures@, method) {
        Some(sig) => sig.id == id,
        None => false,
    }
}

/// Some class of the hierarchy declares a method named `method` whose id is `id`.
pub open spec fn declared_in(h: HierarchyView, method: Seq<char>, id: u128) -> bool {
    exists|i: int| 0 <= i < h.classes.len() && #[trigger] implements(h.classes[i], method, id)
}

/// Every id found among the candidates is that of a method of that name
/// declared by a class of the hierarchy.
pub proof fn lemma_implementations_in_declared(h: HierarchyView, candidates: Seq<Seq<char>>, method: Seq<char>)
    ensures
        forall|k: int| 0 <= k < implementations_in(h, candidates, method).len()
            ==> declared_in(h, method, #[trigger] implementations_in(h, candidates, method)[k]),
    decreases candidates.len(),
{
    if candidates.len() > 0 {
        let rest = implementations_in(h, candidates.drop_last(), method);
        lemma_implementations_in_declared(h, candidates.drop_last(), method);
        let r = implementations_in(h, candidates, method);
        lemma_class_pos(h.classes, candidates.last());
        let p = class_pos(h.classes, candidates.last());
        assert forall|k: int| 0 <= k < r.len() implies declared_in(h, method, #[trigger] r[k]) by {
            if k < rest.len() {
                assert(r[k] == rest[k]);
            } else {
                assert(implements(h.classes[p], method, r[k]));
            }
        }
    }
}

/// Every id found over a list of receiver types is that of a method of that
/// name declared by a class of the hierarchy.
pub proof fn lemma_implementations_over_declared(h: HierarchyView, method: Seq<char>, types: Seq<Seq<char>>)
    ensures
        forall|k: int| 0 <= k < implementations_over(h, method, types).len()
            ==> declared_in(h, method, #[trigger] implementations_over(h, method, types)[k]),
    decreases types.len(),
{
    if types.len() > 0 {
        lemma_implementations_over_declared(h, method, types.drop_last());
        lemma_implementations_in_declared(h, method_candidates(h, types.last()), method);
        let a = implementations_over(h, method, types.drop_last());
        let b = method_implementations(h, method, types.last());
        let r = implementations_over(h, method, types);
        assert forall|k: int| 0 <= k < r.len() implies declared_in(h, method, #[trigger] r[k]) by {
            if k < a.len() {
                assert(r[k] == a[k]);
            } else {
                assert(r[k] == b[k - a.len()]);
            }
        }
    }
}

/// Sound method lookup: every method that `find_method_implementations` (and
/// so `resolve_virtual_call`) returns has the name asked for and is declared
/// by a class of the hierarchy.
pub proof fn law_found_methods_have_the_name(h: HierarchyView, method: Seq<char>, receiver: Seq<char>)
    ensures
        forall|k: int| 0 <= k < method_implementations(h, method, receiver).len()
            ==> declared_in(h, method, #[trigger] method_implementations(h, method, receiver)[k]),
{
    lemma_implementations_in_declared(h, method_candidates(h, receiver), method);
}

/// What `cone_from` holds: `base`, then the names reached from `s` below `k`.
pub proof fn lemma_cone_from(h: HierarchyView, s: usize, base: Seq<Seq<char>>, k: nat)
    requires
        k <= h.nodes.len(),
    ensures
        cone_from(h, s, base, k).len() >= base.len(),
        cone_from(h, s, base, k).subrange(0, base.len() as int) == base,
        forall|x: Seq<char>| #[trigger] cone_from(h, s, base, k).contains(x) <==> (base.contains(x)
            || exists|u: usize| u < k && reaches(h.edges, s, u) && #[trigger] h.nodes[u as int] == x),
        no_repeats(base) ==> no_repeats(cone_from(h, s, base, k)),
    decreases k,
{
    if k > 0 {
        lemma_cone_from(h, s, base, (k - 1) as nat);
        let r = cone_from(h, s, base, (k - 1) as nat);
        let u = (k - 1) as usize;
        let c = cone_from(h, s, base, k);
        if reaches(h.edges, s, u) && !r.contains(h.nodes[u as int]) {
            assert(c == r.push(h.nodes[u as int]));
            assert(c.subrange(0, base.len() as int) =~= r.subrange(0, base.len() as int));
            assert forall|x: Seq<char>| #[trigger] c.contains(x) <==> (base.contains(x)
                || exists|w: usize| w < k && reaches(h.edges, s, w) && #[trigger] h.nodes[w as int] == x) by {
                if c.contains(x) && !r.contains(x) {
                    let i = choose|i: int| 0 <= i < c.len() && c[i] == x;
                    if i < r.len() { assert(r[i] == x); }
                }
                if r.contains(x) {
                    let i = choose|i: int| 0 <= i < r.len() && r[i] == x;
                    assert(c[i] == x);
                }
                if exists|w: usize| w < k && reaches(h.edges, s, w) && #[trigger] h.nodes[w as int] == x {
                    let w = choose|w: usize| w < k && reaches(h.edges, s, w) && #[trigger] h.nodes[w as int] == x;
                    if w == u { assert(c[r.len() as int] == x); }
                }
            }
            if no_repeats(base) {
                assert forall|i: int, j: int| 0 <= i < j < c.len() implies c[i] != c[j] by {
                    if j == r.len() {
                        assert(c[i] == r[i]);
                    } else {
                        assert(c[i] == r[i] && c[j] == r[j]);
                    }
                }
            }
        } else {
            assert forall|x: Seq<char>| #[trigger] c.contains(x) <==> (base.contains(x)
                || exists|w: usize| w < k && reaches(h.edges, s, w) && #[trigger] h.nodes[w as int] == x) by {
                if exists|w: usize| w < k && reaches(h.edges, s, w) && #[trigger] h.nodes[w as int] == x {
                    let w = choose|w: usize| w < k && reaches(h.edges, s, w) && #[trigger] h.nodes[w as int] == x;
                    if w != u {
                        assert(exists|w2: usize| w2 < k - 1 && reaches(h.edges, s, w2) && #[trigger] h.nodes[w2 as int] == x);
                    }
                }
            }
        }
    }
}

/// A method call on a receiver searches its whole inheritance cone: a type
/// is a candidate exactly when it is the receiver or a walk along the
/// inheritance edges leads from the receiver's node to a node of that type;
/// the direct subtypes come first, right after the receiver.
pub proof fn law_candidates_are_the_cone(b: &ClassHierarchyBuilder, receiver: Seq<char>, x: Seq<char>)
    requires
        b.well_formed(),
    ensures
        method_candidates(b@, receiver)[0] == receiver,
        method_candidates(b@, receiver).subrange(1, 1 + direct_subtypes(b@, receiver).len() as int)
            == direct_subtypes(b@, receiver),
        method_candidates(b@, receiver).contains(x) <==> (x == receiver || match node_of(b@, receiver) {
            Some(s) => exists|u: usize| u < b@.nodes.len() && reaches(b@.edges, s, u) && #[trigger] b@.nodes[u as int] == x,
            None => false,
        }),
{
    let h = b@;
    let base = seq![receiver] + direct_subtypes(h, receiver);
    let c = method_candidates(h, receiver);
    match node_of(h, receiver) {
        Some(s) => {
            lemma_cone_from(h, s, base, h.nodes.len());
            lemma_class_pos(h.classes, receiver);
            assert(c.subrange(0, base.len() as int)[0] == c[0]);
            assert(base[0] == receiver);
            assert(c.subrange(1, 1 + direct_subtypes(h, receiver).len() as int)
                =~= base.subrange(1, base.len() as int));
            lemma_neighbors_bounded(h.edges, s, h.nodes.len());
            if c.contains(x) {
                if base.contains(x) && x != receiver {
                    let i = choose|i: int| 0 <= i < base.len() && base[i] == x;
                    let t = targets_newest_first(h.edges, s);
                    assert(x == h.nodes[t[i - 1] as int]);
                    assert(t.contains(t[i - 1]));
                    lemma_targets_contains(h.edges, s, t[i - 1]);
                    lemma_reaches_self(h.edges, s);
                    lemma_reaches_step(h.edges, s, s, t[i - 1]);
                }
            }
            if x == receiver {
                assert(base[0] == x);
                assert(base.contains(x));
            }
        },
        None => {
            assert(c[0] == receiver);
            assert(c.subrange(1, 1 + direct_subtypes(h, receiver).len() as int) =~= direct_subtypes(h, receiver));
            if c.contains(x) {
                let i = choose|i: int| 0 <= i < c.len() && c[i] == x;
                assert(direct_subtypes(h, receiver).len() == 0);
            }
            assert(c[0] == x ==> c.contains(x));
        },
    }
}

/// Subtyping is reflexive: every class is a subtype of itself.
pub proof fn law_subtype_reflexive(b: &ClassHierarchyBuilder, name: Seq<char>)
    requires
        b.well_formed(),
        class_named(b@, name) is Some,
    ensures
        is_subtype(b@, name, name),
{
    let v = node_of(b@, name).unwrap();
    lemma_reaches_self(b@.edges, v);
}

/// Subtyping is transitive.
pub proof fn law_subtype_transitive(b: &ClassHierarchyBuilder, x: Seq<char>, y: Seq<char>, z: Seq<char>)
    requires
        b.well_formed(),
        is_subtype(b@, x, y),
        is_subtype(b@, y, z),
    ensures
        is_subtype(b@, x, z),
{
    let nx = node_of(b@, x).unwrap();
    let ny = node_of(b@, y).unwrap();
    let nz = node_of(b@, z).unwrap();
    lemma_reaches_trans(b@.edges, nz, ny, nx);
}

/// In an acyclic hierarchy (what a successful `build_hierarchy` leaves),
/// two classes that are subtypes of each other are the same class.
pub proof fn law_subtype_antisymmetric(b: &ClassHierarchyBuilder, x: Seq<char>, y: Seq<char>)
    requires
        b.well_formed(),
        acyclic(b@.edges),
        is_subtype(b@, x, y),
        is_subtype(b@, y, x),
    ensures
        x == y,
{
    let h = b@;
    let nx = node_of(h, x).unwrap();
    let ny = node_of(h, y).unwrap();
    if nx != ny {
        lemma_mutual_reach_cycle(h.edges, ny, nx);
        assert(on_cycle(h.edges, ny));
    }
    lemma_class_pos(h.classes, x);
    lemma_class_pos(h.classes, y);
    let px = class_pos(h.classes, x);
    let py = class_pos(h.classes, y);
    assert(h.nodes[h.class_nodes[px] as int] == h.classes[px].name@);
    assert(h.nodes[h.class_nodes[py] as int] == h.classes[py].name@);
}

/// After `add_class(c)` the class found under `c`'s name is `c`.
pub proof fn law_added_class_is_found(b: &ClassHierarchyBuilder, c: EnhancedClassInfo)
    requires
        b.well_formed(),
    ensures
        class_named(after_add_class(b@, c), c.name@) == Some(c),
{
    let h = b@;
    let name = c.name@;
    let cs2 = insert_class(h.classes, c);
    lemma_class_pos(h.classes, name);
    lemma_class_pos(cs2, name);
    let p = class_pos(h.classes, name);
    let r = class_pos(cs2, name);
    if p >= 0 {
        assert(cs2[p].name@ == name);
        if r >= 0 && r < p {
            assert(cs2[r] == h.classes[r]);
        }
        assert(r == p);
    } else {
        assert(cs2[h.classes.len() as int].name@ == name);
        if r >= 0 && r < h.classes.len() {
            assert(cs2[r] == h.classes[r]);
        }
        assert(r == h.classes.len());
    }
}

/// `add_class(c)` leaves the class found under any other name as it was.
pub proof fn law_add_class_keeps_others(b: &ClassHierarchyBuilder, c: EnhancedClassInfo, name: Seq<char>)
    requires
        b.well_formed(),
        name != c.name@,
    ensures
        class_named(after_add_class(b@, c), name) == class_named(b@, name),
{
    let h = b@;
    let cs2 = insert_class(h.classes, c);
    lemma_class_pos(h.classes, c.name@);
    lemma_class_pos(h.classes, name);
    lemma_class_pos(cs2, name);
    let p = class_pos(h.classes, c.name@);
    let q = class_pos(h.classes, name);
    let r = class_pos(cs2, name);
    assert(cs2.len() >= h.classes.len());
    assert forall|j: int| 0 <= j < h.classes.len() implies #[trigger] cs2[j].name@ == name <==> h.classes[j].name@ == name by {
        if j == p {
            assert(cs2[j] == c);
        } else {
            assert(cs2[j] == h.classes[j]);
        }
    }
    if p < 0 {
        assert(cs2[h.classes.len() as int] == c);
    }
    if q >= 0 {
        assert(cs2[q].name@ == name);
        assert(r == q);
        assert(cs2[q] == h.classes[q]);
    } else {
        if r >= 0 {
            assert(r < h.classes.len());
        }
        assert(r < 0);
    }
}

} // verus!

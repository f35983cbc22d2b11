//! The class-hierarchy analysis proper: resolves every call site against the
//! class hierarchy, by the kind of call, and keeps the resolved targets.

use vstd::prelude::*;
use std::collections::HashMap;
use crate::cha::types::{CallSite, CallType, CHAAnalysisStats, EnhancedClassInfo, MethodSignature, find_sig, sig_pos, lemma_sig_pos, sig_position, zero_stats};
use crate::cha::hierarchy::{
    ClassHierarchyBuilder, HierarchyView, class_named, direct_subtypes, method_implementations,
    implementations_over, implements, declared_in, lemma_implementations_over_declared, class_pos,
    lemma_class_pos,
};
use crate::cha::idset::{sort_dedup, sorted_unique, lemma_sort_dedup};
use crate::text::{decimal, push_decimal, string_push_str};
use crate::graph_types::{FunctionInfo, CallRelation, RelationView, relation_views, target_relations, push_target_relations, lemma_target_relations};
use crate::cha_simple::analysis::function_pos;

verus! {

broadcast use vstd::std_specs::hash::group_hash_axioms;

#[verifier::external_type_specification]
#[verifier::external_body]
pub struct ExInstant(std::time::Instant);

/// `Instant::now`: the current time.
#[verifier::external_body]
fn instant_now() -> (res: std::time::Instant) {
    std::time::Instant::now()
}

/// `Instant::elapsed` in whole milliseconds (`as_millis`, as a `u64`). The value
/// depends on the clock; nothing is stated of it.
#[verifier::external_body]
fn elapsed_millis(start: &std::time::Instant) -> (res: u64) {
    start.elapsed().as_millis() as u64
}

/// How a call site was resolved.
#[derive(Debug, Clone)]
enum ResolutionResult {
    Resolved(Vec<u128>),
    Unresolved,
}

/// The result of resolving one call site. (The confidence of a resolution, a
/// floating-point value, is derived from the number of targets by callers.)
#[derive(Debug, Clone)]
pub struct MethodResolutionResult {
    pub call_site_id: u128,
    pub target_methods: Vec<u128>,
    pub resolution_type: ResolutionType,
}

/// How a resolved call site resolved.
#[derive(Debug, Clone, Copy, PartialEq, Eq, Structural)]
pub enum ResolutionType {
    Direct,
    Virtual,
    Unresolved,
}

/// The class-hierarchy analysis (CHA) of a set of call sites.
pub struct ClassHierarchyAnalysis {
    class_hierarchy: ClassHierarchyBuilder,
    call_sites: Vec<CallSite>,
    /// Call site id -> the ids of the methods it may call.
    resolved_calls: HashMap<u128, Vec<u128>>,
    stats: CHAAnalysisStats,
}

/// The static methods of that name, one per class that has it, in class order.
pub open spec fn static_targets(classes: Seq<EnhancedClassInfo>, name: Seq<char>) -> Seq<u128>
    decreases classes.len(),
{
    if classes.len() == 0 {
        Seq::empty()
    } else {
        let rest = static_targets(classes.drop_last(), name);
        match find_sig(classes.last().method_signatures@, name) {
            Some(sig) => if sig.is_static { rest.push(sig.id) } else { rest },
            None => rest,
        }
    }
}

/// The targets of a virtual call: the implementations looked up from the
/// receiver type and from each of its direct subtypes, each over its whole
/// inheritance cone, sorted, each once.
pub open spec fn virtual_targets(h: HierarchyView, method: Seq<char>, receiver: Seq<char>) -> Seq<u128> {
    sort_dedup(implementations_over(h, method, seq![receiver] + direct_subtypes(h, receiver)))
}

/// The message for a virtual call without receiver type.
pub open spec fn missing_receiver_message(line: usize) -> Seq<char> {
    "No receiver type for virtual call at line "@ + decimal(line as nat)
}

/// Targets found, if any.
pub open spec fn found(t: Seq<u128>) -> Option<Seq<u128>> {
    if t.len() > 0 { Some(t) } else { None }
}

/// How a call site resolves: `Ok(Some(targets))`, `Ok(None)` when unresolved,
/// or `Err` when a call that needs a receiver type has none.
pub open spec fn resolve_call(h: HierarchyView, cs: CallSite) -> Result<Option<Seq<u128>>, Seq<char>> {
    let callee = cs.callee_name@;
    let virt = match cs.receiver_type {
        Some(r) => Ok(found(virtual_targets(h, callee, r@))),
        None => Err(missing_receiver_message(cs.line_number)),
    };
    match cs.call_type {
        CallType::Static => Ok(found(static_targets(h.classes, callee))),
        CallType::Virtual => virt,
        CallType::Constructor => match class_named(h, callee) {
            Some(c) => match find_sig(c.method_signatures@, callee) {
                Some(sig) => Ok(Some(seq![sig.id])),
                None => Ok(None),
            },
            None => Ok(None),
        },
        CallType::Function => Ok(None),
        CallType::Method => if cs.receiver_type is Some { virt } else { Ok(None) },
        CallType::TraitMethod => virt,
        CallType::InterfaceMethod => virt,
    }
}

/// The error of the first call site that fails to resolve.
pub open spec fn first_error(h: HierarchyView, sites: Seq<CallSite>) -> Option<Seq<char>>
    decreases sites.len(),
{
    if sites.len() == 0 {
        None
    } else {
        match first_error(h, sites.drop_last()) {
            Some(e) => Some(e),
            None => match resolve_call(h, sites.last()) {
                Err(e) => Some(e),
                Ok(_) => None,
            },
        }
    }
}

/// The resolved-call map after recording the resolved call sites in order.
pub open spec fn record_resolutions(h: HierarchyView, sites: Seq<CallSite>, m: Map<u128, Seq<u128>>) -> Map<u128, Seq<u128>>
    decreases sites.len(),
{
    if sites.len() == 0 {
        m
    } else {
        let m2 = record_resolutions(h, sites.drop_last(), m);
        match resolve_call(h, sites.last()) {
            Ok(Some(t)) => m2.insert(sites.last().id, t),
            _ => m2,
        }
    }
}

/// The number of call sites that resolve to targets.
pub open spec fn count_resolved(h: HierarchyView, sites: Seq<CallSite>) -> nat
    decreases sites.len(),
{
    if sites.len() == 0 {
        0
    } else {
        count_resolved(h, sites.drop_last()) + match resolve_call(h, sites.last()) {
            Ok(Some(_)) => 1nat,
            _ => 0nat,
        }
    }
}

/// The number of call sites that resolve to nothing.
pub open spec fn count_unresolved(h: HierarchyView, sites: Seq<CallSite>) -> nat
    decreases sites.len(),
{
    if sites.len() == 0 {
        0
    } else {
        count_unresolved(h, sites.drop_last()) + match resolve_call(h, sites.last()) {
            Ok(None) => 1nat,
            _ => 0nat,
        }
    }
}

/// Whether the call site at `i` is the first with its id.
pub open spec fn first_with_id(sites: Seq<CallSite>, i: int) -> bool {
    forall|j: int| 0 <= j < i ==> sites[j].id != sites[i].id
}

/// The calls of the call graph over `functions` from the first `n` call
/// sites: for each resolved one that is the first of its id, its relations.
pub open spec fn cha_call_relations(
    sites: Seq<CallSite>,
    resolved: Map<u128, Seq<u128>>,
    functions: Seq<FunctionInfo>,
    n: nat,
) -> Seq<RelationView>
    decreases n,
{
    if n == 0 {
        Seq::empty()
    } else {
        let i = n - 1;
        let s = sites[i];
        let rest = cha_call_relations(sites, resolved, functions, (n - 1) as nat);
        if first_with_id(sites, i) && resolved.contains_key(s.id) {
            rest + target_relations(s.caller_function, s.callee_name@, s.file_path@, s.line_number, resolved[s.id], functions)
        } else {
            rest
        }
    }
}

/// The views of the target lists.
pub open spec fn target_map(m: Map<u128, Vec<u128>>) -> Map<u128, Seq<u128>> {
    m.map_values(|v: Vec<u128>| v@)
}

impl ClassHierarchyAnalysis {
    /// The hierarchy the call sites are resolved against.
    pub closed spec fn hierarchy(&self) -> HierarchyView {
        self.class_hierarchy@
    }

    /// The call sites.
    pub closed spec fn sites(&self) -> Seq<CallSite> {
        self.call_sites@
    }

    /// The resolved calls: call site id -> target method ids.
    pub closed spec fn resolved(&self) -> Map<u128, Seq<u128>> {
        target_map(self.resolved_calls@)
    }

    /// The statistics.
    pub closed spec fn statistics(&self) -> CHAAnalysisStats {
        self.stats
    }

    /// The analysis' invariant: a well-formed hierarchy, and only call sites of
    /// the analysis resolved, each to at least one target.
    pub closed spec fn well_formed(&self) -> bool {
        &&& self.class_hierarchy.well_formed()
        &&& forall|k: u128| #[trigger] self.resolved_calls@.contains_key(k) ==>
            (exists|i: int| 0 <= i < self.call_sites@.len() && self.call_sites@[i].id == k)
                && self.resolved_calls@[k]@.len() > 0
    }

    /// Creates the analysis of `call_sites` against `class_hierarchy`, with nothing resolved yet.
    pub fn new(class_hierarchy: ClassHierarchyBuilder, call_sites: Vec<CallSite>) -> (res: Self)
        requires
            class_hierarchy.well_formed(),
        ensures
            res.well_formed(),
            res.hierarchy() == class_hierarchy@,
            res.sites() == call_sites@,
            res.resolved() == Map::<u128, Seq<u128>>::empty(),
            res.statistics() == zero_stats(),
    {
        let res = ClassHierarchyAnalysis {
            class_hierarchy,
            call_sites,
            resolved_calls: HashMap::new(),
            stats: CHAAnalysisStats::default(),
        };
        assert(res.resolved() =~= Map::<u128, Seq<u128>>::empty());
        res
    }
}

/// The targets a resolution result stands for.
spec fn result_view(r: ResolutionResult) -> Option<Seq<u128>> {
    match r {
        ResolutionResult::Resolved(v) => Some(v@),
        ResolutionResult::Unresolved => None,
    }
}

/// A resolution whose targets are the given list, or unresolved when it is empty.
fn from_targets(v: Vec<u128>) -> (res: ResolutionResult)
    ensures
        result_view(res) == found(v@),
{
    if v.len() > 0 {
        ResolutionResult::Resolved(v)
    } else {
        ResolutionResult::Unresolved
    }
}

impl ClassHierarchyAnalysis {
    /// The static methods named `method_name`, one per class that has one, in class order.
    fn find_static_method_implementations(&self, method_name: &String) -> (res: Option<Vec<u128>>)
        requires
            self.well_formed(),
        ensures
            match res {
                Some(v) => v@.len() > 0 && v@ == static_targets(self.hierarchy().classes, method_name@),
                None => static_targets(self.hierarchy().classes, method_name@).len() == 0,
            },
    {
        let classes = self.class_hierarchy.get_all_classes();
        let mut implementations: Vec<u128> = Vec::new();
        let mut i: usize = 0;
        while i < classes.len()
            invariant
                classes@ == self.hierarchy().classes,
                i <= classes.len(),
                implementations@ == static_targets(classes@.subrange(0, i as int), method_name@),
            decreases classes.len() - i,
        {
            proof {
                assert(classes@.subrange(0, i + 1).drop_last() =~= classes@.subrange(0, i as int));
            }
            match sig_position(&classes[i].method_signatures, method_name) {
                Some(q) => {
                    if classes[i].method_signatures[q].is_static {
                        implementations.push(classes[i].method_signatures[q].id);
                    }
                },
                None => {},
            }
            i = i + 1;
        }
        proof { assert(classes@.subrange(0, classes.len() as int) =~= classes@); }
        if implementations.len() == 0 {
            None
        } else {
            Some(implementations)
        }
    }

    /// Free functions are not registered with the analysis: never found.
    fn find_function_implementations(&self, _function_name: &String) -> (res: Option<Vec<u128>>)
        ensures
            res is None,
    {
        None
    }

    fn resolve_static_call_internal(&self, call_site: &CallSite) -> (res: Result<ResolutionResult, String>)
        requires
            self.well_formed(),
        ensures
            res matches Ok(r) && result_view(r) == found(static_targets(self.hierarchy().classes, call_site.callee_name@)),
    {
        match self.find_static_method_implementations(&call_site.callee_name) {
            Some(targets) => Ok(ResolutionResult::Resolved(targets)),
            None => Ok(ResolutionResult::Unresolved),
        }
    }

    fn resolve_virtual_call_internal(&self, call_site: &CallSite) -> (res: Result<ResolutionResult, String>)
        requires
            self.well_formed(),
        ensures
            match call_site.receiver_type {
                Some(r) => res matches Ok(rr)
                    && result_view(rr) == found(virtual_targets(self.hierarchy(), call_site.callee_name@, r@)),
                None => res matches Err(e) && e@ == missing_receiver_message(call_site.line_number),
            },
    {
        let receiver_type = match &call_site.receiver_type {
            Some(r) => r,
            None => {
                let mut msg = String::new();
                string_push_str(&mut msg, "No receiver type for virtual call at line ");
                push_decimal(&mut msg, call_site.line_number as u64);
                return Err(msg);
            },
        };
        let ghost h = self.hierarchy();
        let possible_types = self.class_hierarchy.get_subtypes(receiver_type);
        let ghost types = seq![receiver_type@] + direct_subtypes(h, receiver_type@);
        let mut target_methods: Vec<u128> = Vec::new();
        // the receiver type first
        let first = self.class_hierarchy.find_method_implementations(&call_site.callee_name, receiver_type);
        let mut j: usize = 0;
        while j < first.len()
            invariant
                j <= first.len(),
                target_methods@ == first@.subrange(0, j as int),
            decreases first.len() - j,
        {
            target_methods.push(first[j]);
            proof { assert(target_methods@ =~= first@.subrange(0, j + 1)); }
            j = j + 1;
        }
        proof {
            assert(first@.subrange(0, first.len() as int) =~= first@);
            let t1 = types.subrange(0, 1);
            assert(t1.drop_last() =~= Seq::<Seq<char>>::empty());
            assert(t1.last() == receiver_type@);
            assert(implementations_over(h, call_site.callee_name@, t1.drop_last()) =~= Seq::<u128>::empty());
            assert(implementations_over(h, call_site.callee_name@, t1) ==
                implementations_over(h, call_site.callee_name@, t1.drop_last()) + method_implementations(h, call_site.callee_name@, receiver_type@));
            assert(target_methods@ =~= implementations_over(h, call_site.callee_name@, types.subrange(0, 1)));
        }
        // then each direct subtype
        let mut i: usize = 0;
        while i < possible_types.len()
            invariant
                self.well_formed(),
                h == self.hierarchy(),
                types == seq![receiver_type@] + direct_subtypes(h, receiver_type@),
                crate::cha::types::views(possible_types@) == direct_subtypes(h, receiver_type@),
                i <= possible_types.len(),
                target_methods@ == implementations_over(h, call_site.callee_name@, types.subrange(0, i + 1)),
            decreases possible_types.len() - i,
        {
            let found_here = self.class_hierarchy.find_method_implementations(&call_site.callee_name, &possible_types[i]);
            let ghost before = target_methods@;
            let mut j: usize = 0;
            while j < found_here.len()
                invariant
                    j <= found_here.len(),
                    target_methods@ == before + found_here@.subrange(0, j as int),
                decreases found_here.len() - j,
            {
                target_methods.push(found_here[j]);
                proof { assert(target_methods@ =~= before + found_here@.subrange(0, j + 1)); }
                j = j + 1;
            }
            proof {
                assert(found_here@.subrange(0, found_here.len() as int) =~= found_here@);
                assert(types.subrange(0, i + 2).drop_last() =~= types.subrange(0, i + 1));
                assert(types[i + 1] == crate::cha::types::views(possible_types@)[i as int]);
                assert(types.subrange(0, i + 2).last() == possible_types@[i as int]@);
            }
            i = i + 1;
        }
        proof {
            assert(types.subrange(0, possible_types.len() + 1) =~= types);
        }
        let deduped = sorted_unique(&target_methods);
        Ok(from_targets(deduped))
    }

    fn resolve_constructor_call_internal(&self, call_site: &CallSite) -> (res: Result<ResolutionResult, String>)
        requires
            self.well_formed(),
        ensures
            res matches Ok(r) && result_view(r) == match class_named(self.hierarchy(), call_site.callee_name@) {
                Some(c) => match find_sig(c.method_signatures@, call_site.callee_name@) {
                    Some(sig) => Some(seq![sig.id]),
                    None => None,
                },
                None => None,
            },
    {
        match self.class_hierarchy.find_class_by_name(&call_site.callee_name) {
            Some(class) => {
                match sig_position(&class.method_signatures, &call_site.callee_name) {
                    Some(q) => {
                        let mut v: Vec<u128> = Vec::new();
                        v.push(class.method_signatures[q].id);
                        proof { assert(v@ =~= seq![class.method_signatures@[q as int].id]); }
                        Ok(ResolutionResult::Resolved(v))
                    },
                    None => Ok(ResolutionResult::Unresolved),
                }
            },
            None => Ok(ResolutionResult::Unresolved),
        }
    }

    fn resolve_function_call_internal(&self, call_site: &CallSite) -> (res: Result<ResolutionResult, String>)
        ensures
            res matches Ok(r) && result_view(r) is None,
    {
        match self.find_function_implementations(&call_site.callee_name) {
            Some(targets) => Ok(ResolutionResult::Resolved(targets)),
            None => Ok(ResolutionResult::Unresolved),
        }
    }

    fn resolve_method_call_internal(&self, call_site: &CallSite) -> (res: Result<ResolutionResult, String>)
        requires
            self.well_formed(),
        ensures
            match call_site.receiver_type {
                Some(r) => res matches Ok(rr)
                    && result_view(rr) == found(virtual_targets(self.hierarchy(), call_site.callee_name@, r@)),
                None => res matches Ok(rr) && result_view(rr) is None,
            },
    {
        if call_site.receiver_type.is_some() {
            self.resolve_virtual_call_internal(call_site)
        } else {
            self.resolve_function_call_internal(call_site)
        }
    }

    fn resolve_trait_method_call_internal(&self, call_site: &CallSite) -> (res: Result<ResolutionResult, String>)
        requires
            self.well_formed(),
        ensures
            match call_site.receiver_type {
                Some(r) => res matches Ok(rr)
                    && result_view(rr) == found(virtual_targets(self.hierarchy(), call_site.callee_name@, r@)),
                None => res matches Err(e) && e@ == missing_receiver_message(call_site.line_number),
            },
    {
        self.resolve_virtual_call_internal(call_site)
    }

    fn resolve_interface_method_call_internal(&self, call_site: &CallSite) -> (res: Result<ResolutionResult, String>)
        requires
            self.well_formed(),
        ensures
            match call_site.receiver_type {
                Some(r) => res matches Ok(rr)
                    && result_view(rr) == found(virtual_targets(self.hierarchy(), call_site.callee_name@, r@)),
                None => res matches Err(e) && e@ == missing_receiver_message(call_site.line_number),
            },
    {
        self.resolve_virtual_call_internal(call_site)
    }

    /// Resolves one call site by its kind of call.
    fn resolve_call_site(&self, call_site: &CallSite) -> (res: Result<ResolutionResult, String>)
        requires
            self.well_formed(),
        ensures
            match res {
                Ok(r) => resolve_call(self.hierarchy(), *call_site) == Ok::<Option<Seq<u128>>, Seq<char>>(result_view(r)),
                Err(e) => resolve_call(self.hierarchy(), *call_site) == Err::<Option<Seq<u128>>, Seq<char>>(e@),
            },
    {
        match call_site.call_type {
            CallType::Static => self.resolve_static_call_internal(call_site),
            CallType::Virtual => self.resolve_virtual_call_internal(call_site),
            CallType::Constructor => self.resolve_constructor_call_internal(call_site),
            CallType::Function => self.resolve_function_call_internal(call_site),
            CallType::Method => self.resolve_method_call_internal(call_site),
            CallType::TraitMethod => self.resolve_trait_method_call_internal(call_site),
            CallType::InterfaceMethod => self.resolve_interface_method_call_internal(call_site),
        }
    }
}

impl ClassHierarchyAnalysis {
    /// Resolves every call site, in order, by its kind of call. On the first call
    /// site that cannot be resolved for want of a receiver type it fails with that
    /// message, having recorded only the number of call sites. Otherwise it records
    /// every resolved call site with its targets and counts resolved and unresolved ones.
    pub fn analyze(&mut self) -> (res: Result<(), String>)
        requires
            old(self).well_formed(),
            old(self).statistics().resolved_calls + old(self).sites().len() <= usize::MAX,
            old(self).statistics().unresolved_calls + old(self).sites().len() <= usize::MAX,
        ensures
            final(self).well_formed(),
            final(self).hierarchy() == old(self).hierarchy(),
            final(self).sites() == old(self).sites(),
            match res {
                Ok(()) => {
                    &&& first_error(old(self).hierarchy(), old(self).sites()) is None
                    &&& final(self).resolved() == record_resolutions(old(self).hierarchy(), old(self).sites(), old(self).resolved())
                    &&& final(self).statistics() == (CHAAnalysisStats {
                        total_call_sites: old(self).sites().len() as usize,
                        resolved_calls: (old(self).statistics().resolved_calls
                            + count_resolved(old(self).hierarchy(), old(self).sites())) as usize,
                        unresolved_calls: (old(self).statistics().unresolved_calls
                            + count_unresolved(old(self).hierarchy(), old(self).sites())) as usize,
                        resolution_time_ms: final(self).statistics().resolution_time_ms,
                        ..old(self).statistics()
                    })
                },
                Err(e) => {
                    &&& first_error(old(self).hierarchy(), old(self).sites()) == Some(e@)
                    &&& final(self).resolved() == old(self).resolved()
                    &&& final(self).statistics() == (CHAAnalysisStats {
                        total_call_sites: old(self).sites().len() as usize,
                        ..old(self).statistics()
                    })
                },
            },
    {
        let start_time = instant_now();
        let ghost h = self.hierarchy();
        let ghost sites = self.sites();
        let ghost m_start = self.resolved_calls@;
        let ghost stats_start = self.stats;
        let ghost before_stats = *self;
        self.stats.total_call_sites = self.call_sites.len();
        proof {
            lemma_wf_same(&before_stats, self);
        }
        let mut ids: Vec<u128> = Vec::new();
        let mut results: Vec<ResolutionResult> = Vec::new();
        let mut i: usize = 0;
        while i < self.call_sites.len()
            invariant
                self.well_formed(),
                self.hierarchy() == h,
                self.sites() == sites,
                i <= sites.len(),
                ids@.len() == i,
                results@.len() == i,
                first_error(h, sites.subrange(0, i as int)) is None,
                self.resolved() == old(self).resolved(),
                self.stats == (CHAAnalysisStats { total_call_sites: sites.len() as usize, ..stats_start }),
                stats_start == old(self).statistics(),
                h == old(self).hierarchy(),
                sites == old(self).sites(),
                forall|j: int| 0 <= j < i ==> #[trigger] ids@[j] == sites[j].id
                    && resolve_call(h, sites[j]) == Ok::<Option<Seq<u128>>, Seq<char>>(result_view(results@[j])),
            decreases sites.len() - i,
        {
            proof {
                assert(sites.subrange(0, i + 1).drop_last() =~= sites.subrange(0, i as int));
                assert(sites.subrange(0, i + 1).last() == sites[i as int]);
            }
            let r = self.resolve_call_site(&self.call_sites[i]);
            match r {
                Ok(rr) => {
                    let ghost old_ids = ids@;
                    let ghost old_results = results@;
                    ids.push(self.call_sites[i].id);
                    results.push(rr);
                    proof {
                        assert(self.call_sites@[i as int] == sites[i as int]);
                        assert forall|j: int| 0 <= j < i + 1 implies #[trigger] ids@[j] == sites[j].id
                            && resolve_call(h, sites[j]) == Ok::<Option<Seq<u128>>, Seq<char>>(result_view(results@[j])) by {
                            if j < i {
                                assert(ids@[j] == old_ids[j]);
                                assert(results@[j] == old_results[j]);
                            }
                        }
                    }
                },
                Err(e) => {
                    proof {
                        lemma_first_error_prefix(h, sites, (i + 1) as nat);
                    }
                    return Err(e);
                },
            }
            i = i + 1;
        }
        proof {
            assert(i == sites.len());
            assert(sites.subrange(0, sites.len() as int) =~= sites);
        }
        let ghost m0 = self.resolved();
        let ghost s0 = self.stats;
        let mut k: usize = 0;
        while k < ids.len()
            invariant
                self.well_formed(),
                self.hierarchy() == h,
                self.sites() == sites,
                k <= ids.len(),
                ids@.len() == sites.len(),
                results@.len() == sites.len(),
                forall|j: int| 0 <= j < sites.len() ==> #[trigger] ids@[j] == sites[j].id
                    && resolve_call(h, sites[j]) == Ok::<Option<Seq<u128>>, Seq<char>>(result_view(results@[j])),
                self.resolved() == record_resolutions(h, sites.subrange(0, k as int), m0),
                self.stats == (CHAAnalysisStats {
                    resolved_calls: self.stats.resolved_calls,
                    unresolved_calls: self.stats.unresolved_calls,
                    ..s0
                }),
                self.stats.resolved_calls == s0.resolved_calls + count_resolved(h, sites.subrange(0, k as int)),
                self.stats.unresolved_calls == s0.unresolved_calls + count_unresolved(h, sites.subrange(0, k as int)),
                count_resolved(h, sites.subrange(0, k as int)) <= k,
                count_unresolved(h, sites.subrange(0, k as int)) <= k,
                s0.resolved_calls + sites.len() <= usize::MAX,
                s0.unresolved_calls + sites.len() <= usize::MAX,
            decreases ids.len() - k,
        {
            proof {
                assert(sites.subrange(0, k + 1).drop_last() =~= sites.subrange(0, k as int));
                assert(sites.subrange(0, k + 1).last() == sites[k as int]);
            }
            let ghost rk = results@[k as int];
            match &results[k] {
                ResolutionResult::Resolved(targets) => {
                    assert(result_view(rk) == Some(targets@));
                    let ghost before = self.resolved_calls@;
                    self.resolved_calls.insert(ids[k], clone_ids(targets));
                    self.stats.resolved_calls = self.stats.resolved_calls + 1;
                    proof {
                        assert(ids@[k as int] == sites[k as int].id);
                        assert(resolve_call(h, sites[k as int]) == Ok::<Option<Seq<u128>>, Seq<char>>(Some(targets@)));
                        assert(record_resolutions(h, sites.subrange(0, k + 1), m0)
                            == record_resolutions(h, sites.subrange(0, k as int), m0).insert(sites[k as int].id, targets@));
                        assert(count_resolved(h, sites.subrange(0, k + 1)) == count_resolved(h, sites.subrange(0, k as int)) + 1);
                        assert(count_unresolved(h, sites.subrange(0, k + 1)) == count_unresolved(h, sites.subrange(0, k as int)));
                        assert(self.resolved() =~= target_map(before).insert(ids@[k as int], targets@));
                        assert forall|key: u128| #[trigger] self.resolved_calls@.contains_key(key) implies
                            (exists|i: int| 0 <= i < self.call_sites@.len() && self.call_sites@[i].id == key)
                                && self.resolved_calls@[key]@.len() > 0 by {
                            if key == ids@[k as int] {
                                assert(self.call_sites@[k as int].id == key);
                                lemma_resolved_nonempty(h, sites[k as int]);
                            } else {
                                assert(before.contains_key(key));
                            }
                        }
                    }
                },
                ResolutionResult::Unresolved => {
                    assert(result_view(rk) is None);
                    assert(ids@[k as int] == sites[k as int].id);
                    assert(resolve_call(h, sites[k as int]) == Ok::<Option<Seq<u128>>, Seq<char>>(None));
                    assert(record_resolutions(h, sites.subrange(0, k + 1), m0)
                        == record_resolutions(h, sites.subrange(0, k as int), m0));
                    assert(count_resolved(h, sites.subrange(0, k + 1)) == count_resolved(h, sites.subrange(0, k as int)));
                    assert(count_unresolved(h, sites.subrange(0, k + 1)) == count_unresolved(h, sites.subrange(0, k as int)) + 1);
                    self.stats.unresolved_calls = self.stats.unresolved_calls + 1;
                },
            }
            k = k + 1;
        }
        proof {
            assert(sites.subrange(0, sites.len() as int) =~= sites);
        }
        let ghost before_time = *self;
        self.stats.resolution_time_ms = elapsed_millis(&start_time);
        proof { lemma_wf_same(&before_time, self); }
        self.update_stats();
        Ok(())
    }

    /// The statistics are kept up to date by `analyze` itself.
    fn update_stats(&mut self)
        ensures
            *final(self) == *old(self),
    {
    }
}

/// The invariant does not depend on the statistics.
proof fn lemma_wf_same(a: &ClassHierarchyAnalysis, b: &ClassHierarchyAnalysis)
    requires
        a.well_formed(),
        a.class_hierarchy == b.class_hierarchy,
        a.call_sites == b.call_sites,
        a.resolved_calls == b.resolved_calls,
    ensures
        b.well_formed(),
{
    assert forall|key: u128| #[trigger] b.resolved_calls@.contains_key(key) implies
        (exists|i: int| 0 <= i < b.call_sites@.len() && b.call_sites@[i].id == key)
            && b.resolved_calls@[key]@.len() > 0 by {
        assert(a.resolved_calls@.contains_key(key));
    }
}

/// A copy of an id list.
pub fn clone_ids(v: &Vec<u128>) -> (res: Vec<u128>)
    ensures
        res@ == v@,
{
    let mut res: Vec<u128> = Vec::new();
    let mut i: usize = 0;
    while i < v.len()
        invariant
            i <= v.len(),
            res@ == v@.subrange(0, i as int),
        decreases v.len() - i,
    {
        res.push(v[i]);
        proof { assert(res@ =~= v@.subrange(0, i + 1)); }
        i = i + 1;
    }
    proof { assert(v@.subrange(0, v.len() as int) =~= v@); }
    res
}

/// A call site that resolves to targets resolves to at least one.
pub proof fn lemma_resolved_nonempty(h: HierarchyView, cs: CallSite)
    ensures
        resolve_call(h, cs) matches Ok(Some(t)) ==> t.len() > 0,
{
}

/// The first error of the sites is that of the first `k` sites when the `k`th fails.
pub proof fn lemma_first_error_prefix(h: HierarchyView, sites: Seq<CallSite>, k: nat)
    requires
        0 < k <= sites.len(),
        first_error(h, sites.subrange(0, k - 1)) is None,
        resolve_call(h, sites[k - 1]) is Err,
    ensures
        first_error(h, sites) == first_error(h, sites.subrange(0, k as int)),
        first_error(h, sites.subrange(0, k as int)) == Some(resolve_call(h, sites[k - 1])->Err_0),
    decreases sites.len(),
{
    assert(sites.subrange(0, k as int).drop_last() =~= sites.subrange(0, k - 1));
    if k < sites.len() {
        assert(sites.drop_last().subrange(0, k - 1) =~= sites.subrange(0, k - 1));
        assert(sites.drop_last()[k - 1] == sites[k - 1]);
        lemma_first_error_prefix(h, sites.drop_last(), k);
        assert(sites.drop_last().subrange(0, k as int) =~= sites.subrange(0, k as int));
        assert(sites.drop_last().subrange(0, k - 1) =~= sites.subrange(0, k - 1));
    } else {
        assert(sites.subrange(0, k as int) =~= sites);
    }
}

/// The kind of a resolution with `n` targets.
pub open spec fn resolution_kind(n: nat) -> ResolutionType {
    if n == 1 {
        ResolutionType::Direct
    } else if n > 1 {
        ResolutionType::Virtual
    } else {
        ResolutionType::Unresolved
    }
}

/// The message of `validate_results` when `n` call sites remain unresolved.
pub open spec fn unresolved_message(n: nat) -> Seq<char> {
    "Validation errors: "@ + decimal(n) + " call sites remain unresolved"@
}

/// The analysis summary for the given statistics.
pub open spec fn summary_text(s: CHAAnalysisStats) -> Seq<char> {
    "CHA Analysis Summary:\nTotal Call Sites: "@ + decimal(s.total_call_sites as nat)
        + "\nResolved Calls: "@ + decimal(s.resolved_calls as nat)
        + "\nUnresolved Calls: "@ + decimal(s.unresolved_calls as nat)
        + "\nVirtual Calls: "@ + decimal(s.virtual_calls as nat)
        + "\nStatic Calls: "@ + decimal(s.static_calls as nat)
        + "\nConstructor Calls: "@ + decimal(s.constructor_calls as nat)
        + "\nFunction Calls: "@ + decimal(s.function_calls as nat)
        + "\nMethod Calls: "@ + decimal(s.method_calls as nat)
        + "\nResolution Time: "@ + decimal(s.resolution_time_ms as nat) + "ms"@
}

impl ClassHierarchyAnalysis {
    /// The resolution of a call site: its targets and how it resolved (one
    /// target: direct; several: virtual). `None` when the call site is not resolved.
    pub fn get_method_resolution_result(&self, call_site_id: &u128) -> (res: Option<MethodResolutionResult>)
        requires
            self.well_formed(),
        ensures
            res is Some <==> self.resolved().contains_key(*call_site_id),
            res matches Some(r) ==> {
                &&& r.call_site_id == *call_site_id
                &&& r.target_methods@ == self.resolved()[*call_site_id]
                &&& r.resolution_type == resolution_kind(self.resolved()[*call_site_id].len())
            },
    {
        match self.resolved_calls.get(call_site_id) {
            Some(target_methods) => {
                let resolution_type = if target_methods.len() == 1 {
                    ResolutionType::Direct
                } else if target_methods.len() > 1 {
                    ResolutionType::Virtual
                } else {
                    ResolutionType::Unresolved
                };
                Some(MethodResolutionResult {
                    call_site_id: *call_site_id,
                    target_methods: clone_ids(target_methods),
                    resolution_type,
                })
            },
            None => None,
        }
    }

    /// All resolved calls: call site id -> target method ids.
    pub fn get_resolved_calls(&self) -> (res: &HashMap<u128, Vec<u128>>)
        ensures
            target_map(res@) == self.resolved(),
    {
        &self.resolved_calls
    }

    /// The first call site with that id.
    pub fn get_call_site(&self, call_site_id: &u128) -> (res: Option<&CallSite>)
        ensures
            match res {
                Some(c) => exists|i: int| 0 <= i < self.sites().len() && self.sites()[i] == *c
                    && c.id == *call_site_id
                    && forall|j: int| 0 <= j < i ==> #[trigger] self.sites()[j].id != *call_site_id,
                None => forall|j: int| 0 <= j < self.sites().len() ==> #[trigger] self.sites()[j].id != *call_site_id,
            },
    {
        let mut i: usize = 0;
        while i < self.call_sites.len()
            invariant
                i <= self.call_sites.len(),
                forall|j: int| 0 <= j < i ==> #[trigger] self.call_sites@[j].id != *call_site_id,
            decreases self.call_sites.len() - i,
        {
            if self.call_sites[i].id == *call_site_id {
                return Some(&self.call_sites[i]);
            }
            i = i + 1;
        }
        None
    }

    /// All call sites.
    pub fn get_all_call_sites(&self) -> (res: &[CallSite])
        ensures
            res@ == self.sites(),
    {
        self.call_sites.as_slice()
    }

    /// The calls of the call graph over `functions`: for each resolved call
    /// site (the first of each id), in call site order, a resolved relation
    /// to each of its targets that is among `functions`.
    pub fn build_call_graph(&self, functions: &Vec<FunctionInfo>) -> (res: Result<Vec<CallRelation>, String>)
        ensures
            res matches Ok(rs)
                && relation_views(rs@) == cha_call_relations(self.sites(), self.resolved(), functions@, self.sites().len()),
    {
        let ghost sites = self.call_sites@;
        let mut out: Vec<CallRelation> = Vec::new();
        let mut i: usize = 0;
        while i < self.call_sites.len()
            invariant
                i <= sites.len(),
                sites == self.call_sites@,
                relation_views(out@) == cha_call_relations(sites, self.resolved(), functions@, i as nat),
            decreases sites.len() - i,
        {
            let site = &self.call_sites[i];
            let mut first = true;
            let mut j: usize = 0;
            while j < i
                invariant
                    j <= i < sites.len(),
                    sites == self.call_sites@,
                    site.id == sites[i as int].id,
                    first == forall|k: int| 0 <= k < j ==> sites[k].id != sites[i as int].id,
                decreases i - j,
            {
                if self.call_sites[j].id == site.id {
                    first = false;
                }
                j = j + 1;
            }
            if first {
                match self.resolved_calls.get(&site.id) {
                    Some(targets) => {
                        push_target_relations(&mut out, site.caller_function, &site.callee_name, &site.file_path,
                            site.line_number, targets, functions);
                    },
                    None => {},
                }
            }
            i = i + 1;
        }
        Ok(out)
    }

    /// The statistics.
    pub fn get_stats(&self) -> (res: &CHAAnalysisStats)
        ensures
            *res == self.statistics(),
    {
        &self.stats
    }

    /// Checks that every call site was resolved; otherwise fails with the number
    /// of call sites that remain unresolved. (Resolved call sites always have at
    /// least one target, so no empty resolution is ever reported.)
    pub fn validate_results(&self) -> (res: Result<(), String>)
        requires
            self.well_formed(),
        ensures
            self.resolved().dom().len() <= self.sites().len(),
            res is Ok <==> self.resolved().dom().len() == self.sites().len(),
            res matches Err(e) ==> e@ == unresolved_message((self.sites().len() - self.resolved().dom().len()) as nat),
    {
        proof { self.lemma_resolved_bounded(); }
        let unresolved_count = self.call_sites.len() - self.resolved_calls.len();
        if unresolved_count > 0 {
            let mut msg = String::new();
            string_push_str(&mut msg, "Validation errors: ");
            push_decimal(&mut msg, unresolved_count as u64);
            string_push_str(&mut msg, " call sites remain unresolved");
            Err(msg)
        } else {
            Ok(())
        }
    }

    /// Only call sites of the analysis are resolved, so there are at most as many
    /// resolved calls as call sites.
    proof fn lemma_resolved_bounded(&self)
        requires
            self.well_formed(),
        ensures
            self.resolved_calls@.dom().len() <= self.call_sites@.len(),
            self.resolved().dom() == self.resolved_calls@.dom(),
            self.resolved_calls@.dom().finite(),
    {
        let ids = self.call_sites@.map_values(|c: CallSite| c.id);
        assert(self.resolved_calls@.dom().subset_of(ids.to_set())) by {
            assert forall|k: u128| self.resolved_calls@.dom().contains(k) implies ids.to_set().contains(k) by {
                assert(self.resolved_calls@.contains_key(k));
                let i = choose|i: int| 0 <= i < self.call_sites@.len() && self.call_sites@[i].id == k;
                assert(ids[i] == k);
            }
        }
        ids.lemma_cardinality_of_set();
        vstd::set_lib::lemma_len_subset(self.resolved_calls@.dom(), ids.to_set());
        assert(self.resolved().dom() =~= self.resolved_calls@.dom());
    }

    /// A summary of the statistics, one line each.
    pub fn get_analysis_summary(&self) -> (res: String)
        ensures
            res@ == summary_text(self.statistics()),
    {
        let mut s = String::new();
        string_push_str(&mut s, "CHA Analysis Summary:\nTotal Call Sites: ");
        push_decimal(&mut s, self.stats.total_call_sites as u64);
        string_push_str(&mut s, "\nResolved Calls: ");
        push_decimal(&mut s, self.stats.resolved_calls as u64);
        string_push_str(&mut s, "\nUnresolved Calls: ");
        push_decimal(&mut s, self.stats.unresolved_calls as u64);
        string_push_str(&mut s, "\nVirtual Calls: ");
        push_decimal(&mut s, self.stats.virtual_calls as u64);
        string_push_str(&mut s, "\nStatic Calls: ");
        push_decimal(&mut s, self.stats.static_calls as u64);
        string_push_str(&mut s, "\nConstructor Calls: ");
        push_decimal(&mut s, self.stats.constructor_calls as u64);
        string_push_str(&mut s, "\nFunction Calls: ");
        push_decimal(&mut s, self.stats.function_calls as u64);
        string_push_str(&mut s, "\nMethod Calls: ");
        push_decimal(&mut s, self.stats.method_calls as u64);
        string_push_str(&mut s, "\nResolution Time: ");
        push_decimal(&mut s, self.stats.resolution_time_ms);
        string_push_str(&mut s, "ms");
        s
    }
}

impl Default for ClassHierarchyAnalysis {
    fn default() -> (res: Self)
        ensures
            res.well_formed(),
            res.hierarchy().classes.len() == 0,
            res.hierarchy().nodes.len() == 0,
            res.hierarchy().edges.len() == 0,
            res.sites().len() == 0,
            res.resolved() == Map::<u128, Seq<u128>>::empty(),
            res.statistics() == zero_stats(),
    {
        ClassHierarchyAnalysis::new(ClassHierarchyBuilder::new(), Vec::new())
    }
}


/// Every static target is the static method of that name of some class.
proof fn lemma_static_targets_declared(classes: Seq<EnhancedClassInfo>, h: HierarchyView, name: Seq<char>)
    requires
        classes == h.classes,
    ensures
        forall|k: int| 0 <= k < static_targets(classes, name).len()
            ==> declared_in(h, name, #[trigger] static_targets(classes, name)[k]),
    decreases classes.len(),
{
    if classes.len() > 0 {
        let init = classes.drop_last();
        let hi = HierarchyView { classes: init, ..h };
        lemma_static_targets_declared(init, hi, name);
        let rest = static_targets(init, name);
        let r = static_targets(classes, name);
        assert forall|k: int| 0 <= k < r.len() implies declared_in(h, name, #[trigger] r[k]) by {
            if k < rest.len() {
                assert(r[k] == rest[k]);
                assert(declared_in(hi, name, rest[k]));
                let i = choose|i: int| 0 <= i < init.len() && #[trigger] implements(init[i], name, rest[k]);
                assert(init[i] == classes[i]);
                assert(implements(h.classes[i], name, r[k]));
            } else {
                assert(implements(h.classes[classes.len() - 1], name, r[k]));
            }
        }
    }
}

/// Some class declares a static method named `name` whose id is `id`.
pub open spec fn static_method_declared(classes: Seq<EnhancedClassInfo>, name: Seq<char>, id: u128) -> bool {
    exists|i: int, j: int| 0 <= i < classes.len() && 0 <= j < classes[i].method_signatures@.len() && {
        let sig: MethodSignature = #[trigger] classes[i].method_signatures@[j];
        sig.name@ == name && sig.id == id && sig.is_static
    }
}

proof fn lemma_static_targets_static(classes: Seq<EnhancedClassInfo>, name: Seq<char>)
    ensures
        forall|k: int| 0 <= k < static_targets(classes, name).len()
            ==> static_method_declared(classes, name, #[trigger] static_targets(classes, name)[k]),
    decreases classes.len(),
{
    if classes.len() > 0 {
        let init = classes.drop_last();
        lemma_static_targets_static(init, name);
        let rest = static_targets(init, name);
        let r = static_targets(classes, name);
        let last = classes.len() - 1;
        lemma_sig_pos(classes[last].method_signatures@, name);
        assert forall|k: int| 0 <= k < r.len() implies static_method_declared(classes, name, #[trigger] r[k]) by {
            if k < rest.len() {
                assert(r[k] == rest[k]);
                assert(static_method_declared(init, name, rest[k]));
                let (i, j) = choose|i: int, j: int| 0 <= i < init.len() && 0 <= j < init[i].method_signatures@.len() && {
                    let sig: MethodSignature = #[trigger] init[i].method_signatures@[j];
                    sig.name@ == name && sig.id == rest[k] && sig.is_static
                };
                assert(init[i] == classes[i]);
                assert(classes[i].method_signatures@[j].id == r[k]);
            } else {
                let j = sig_pos(classes[last].method_signatures@, name);
                assert(classes[last].method_signatures@[j].id == r[k]);
            }
        }
    }
}

proof fn lemma_static_targets_complete(classes: Seq<EnhancedClassInfo>, name: Seq<char>, i: int, j: int)
    requires
        0 <= i < classes.len(),
        0 <= j < classes[i].method_signatures@.len(),
        classes[i].method_signatures@[j].name@ == name,
        classes[i].method_signatures@[j].is_static,
        forall|j2: int| 0 <= j2 < j ==> #[trigger] classes[i].method_signatures@[j2].name@ != name,
    ensures
        static_targets(classes, name).contains(classes[i].method_signatures@[j].id),
    decreases classes.len(),
{
    let init = classes.drop_last();
    let rest = static_targets(init, name);
    let r = static_targets(classes, name);
    if i < classes.len() - 1 {
        assert(init[i] == classes[i]);
        lemma_static_targets_complete(init, name, i, j);
        let k = choose|k: int| 0 <= k < rest.len() && rest[k] == classes[i].method_signatures@[j].id;
        lemma_sig_pos(classes.last().method_signatures@, name);
        assert(r[k] == rest[k]);
    } else {
        let sigs = classes[i].method_signatures@;
        lemma_sig_pos(sigs, name);
        assert(sig_pos(sigs, name) == j);
        assert(r == rest.push(sigs[j].id));
        assert(r[rest.len() as int] == sigs[j].id);
    }
}

/// A static call reaches every static method of its name: when a class's
/// first method of the callee's name is static, the call resolves, and that
/// method is among its targets.
pub proof fn law_static_calls_find_every_static_method(h: HierarchyView, cs: CallSite, i: int, j: int)
    requires
        cs.call_type == CallType::Static,
        0 <= i < h.classes.len(),
        0 <= j < h.classes[i].method_signatures@.len(),
        h.classes[i].method_signatures@[j].name@ == cs.callee_name@,
        h.classes[i].method_signatures@[j].is_static,
        forall|j2: int| 0 <= j2 < j ==> #[trigger] h.classes[i].method_signatures@[j2].name@ != cs.callee_name@,
    ensures
        resolve_call(h, cs) matches Ok(Some(t)) && t.contains(h.classes[i].method_signatures@[j].id),
{
    lemma_static_targets_complete(h.classes, cs.callee_name@, i, j);
}

/// A constructor call goes to the constructor of the class it names: when it
/// resolves, its one target is the id of a method named like the class,
/// declared by the class of that name.
pub proof fn law_constructor_calls_reach_the_named_class(h: HierarchyView, cs: CallSite)
    requires
        cs.call_type == CallType::Constructor,
    ensures
        resolve_call(h, cs) is Ok,
        resolve_call(h, cs) matches Ok(Some(t)) ==> t.len() == 1 && exists|i: int, j: int|
            0 <= i < h.classes.len() && 0 <= j < h.classes[i].method_signatures@.len()
            && h.classes[i].name@ == cs.callee_name@
            && (#[trigger] h.classes[i].method_signatures@[j]).name@ == cs.callee_name@
            && h.classes[i].method_signatures@[j].id == t[0],
{
    let callee = cs.callee_name@;
    lemma_class_pos(h.classes, callee);
    let p = class_pos(h.classes, callee);
    if p >= 0 {
        lemma_sig_pos(h.classes[p].method_signatures@, callee);
        let q = sig_pos(h.classes[p].method_signatures@, callee);
        if q >= 0 {
            assert(h.classes[p].method_signatures@[q].id == h.classes[p].method_signatures@[q].id);
        }
    }
}

/// A static call goes only to static methods: every target a static call
/// site resolves to is the id of a method of the callee's name that a class
/// of the hierarchy declares static.
pub proof fn law_static_calls_reach_static_methods(h: HierarchyView, cs: CallSite)
    requires
        cs.call_type == CallType::Static,
    ensures
        resolve_call(h, cs) matches Ok(Some(t)) ==> forall|k: int| 0 <= k < t.len()
            ==> static_method_declared(h.classes, cs.callee_name@, #[trigger] t[k]),
{
    lemma_static_targets_static(h.classes, cs.callee_name@);
}

/// Every method found from one of the receiver types is among those found
/// over all of them.
pub proof fn lemma_implementations_over_has(h: HierarchyView, method: Seq<char>, types: Seq<Seq<char>>, i: int, id: u128)
    requires
        0 <= i < types.len(),
        method_implementations(h, method, types[i]).contains(id),
    ensures
        implementations_over(h, method, types).contains(id),
    decreases types.len(),
{
    let a = implementations_over(h, method, types.drop_last());
    let b = method_implementations(h, method, types.last());
    let r = implementations_over(h, method, types);
    assert(r == a + b);
    if i < types.len() - 1 {
        assert(types.drop_last()[i] == types[i]);
        lemma_implementations_over_has(h, method, types.drop_last(), i, id);
        let j = choose|j: int| 0 <= j < a.len() && a[j] == id;
        assert(r[j] == id);
    } else {
        let j = choose|j: int| 0 <= j < b.len() && b[j] == id;
        assert(r[a.len() + j] == id);
    }
}

/// A virtual call reaches the receiver's whole inheritance cone: every method
/// of the called name found in the receiver type or in any type derived from
/// it, directly or not, is among the call's targets.
pub proof fn law_virtual_targets_cover_the_cone(h: HierarchyView, method: Seq<char>, receiver: Seq<char>, id: u128)
    requires
        method_implementations(h, method, receiver).contains(id),
    ensures
        virtual_targets(h, method, receiver).contains(id),
{
    let types = seq![receiver] + direct_subtypes(h, receiver);
    assert(types[0] == receiver);
    lemma_implementations_over_has(h, method, types, 0, id);
    lemma_sort_dedup(implementations_over(h, method, types));
}

/// Sound resolution: every target a call site resolves to is a method with
/// the callee's name, declared by a class of the hierarchy.
pub proof fn law_targets_have_the_callee_name(h: HierarchyView, cs: CallSite)
    ensures
        resolve_call(h, cs) matches Ok(Some(t)) ==> forall|k: int| 0 <= k < t.len()
            ==> declared_in(h, cs.callee_name@, #[trigger] t[k]),
{
    let callee = cs.callee_name@;
    lemma_static_targets_declared(h.classes, h, callee);
    match cs.receiver_type {
        Some(r) => {
            let types = seq![r@] + direct_subtypes(h, r@);
            lemma_implementations_over_declared(h, callee, types);
            lemma_sort_dedup(implementations_over(h, callee, types));
            let v = virtual_targets(h, callee, r@);
            assert forall|k: int| 0 <= k < v.len() implies declared_in(h, callee, #[trigger] v[k]) by {
                assert(v.contains(v[k]));
                let all = implementations_over(h, callee, types);
                assert(all.contains(v[k]));
                let j = choose|j: int| 0 <= j < all.len() && all[j] == v[k];
                assert(declared_in(h, callee, all[j]));
            }
        },
        None => {},
    }
    lemma_class_pos(h.classes, callee);
    let p = class_pos(h.classes, callee);
    if p >= 0 {
        match find_sig(h.classes[p].method_signatures@, callee) {
            Some(sig) => {
                assert(implements(h.classes[p], callee, sig.id));
            },
            None => {},
        }
    }
}

/// When no call site fails, each one is counted once: the resolved and the
/// unresolved ones together are all of them.
pub proof fn law_counts_cover_sites(h: HierarchyView, sites: Seq<CallSite>)
    requires
        first_error(h, sites) is None,
    ensures
        count_resolved(h, sites) + count_unresolved(h, sites) == sites.len(),
    decreases sites.len(),
{
    if sites.len() > 0 {
        law_counts_cover_sites(h, sites.drop_last());
    }
}

/// Only resolved call sites are recorded: each recorded id is that of a call
/// site that resolves to exactly the recorded targets, and those are never empty.
pub proof fn law_recorded_calls_resolve(h: HierarchyView, sites: Seq<CallSite>, id: u128)
    requires
        record_resolutions(h, sites, Map::empty()).dom().contains(id),
    ensures
        exists|i: int| 0 <= i < sites.len() && (#[trigger] sites[i]).id == id
            && resolve_call(h, sites[i]) == Ok::<Option<Seq<u128>>, Seq<char>>(
                Some(record_resolutions(h, sites, Map::empty())[id])),
        record_resolutions(h, sites, Map::empty())[id].len() > 0,
    decreases sites.len(),
{
    let m = record_resolutions(h, sites, Map::empty());
    if sites.len() > 0 {
        let init = sites.drop_last();
        let m2 = record_resolutions(h, init, Map::empty());
        let last = sites.last();
        lemma_resolved_nonempty(h, last);
        if resolve_call(h, last) is Ok && resolve_call(h, last)->Ok_0 is Some && last.id == id {
            assert(sites[sites.len() - 1].id == id);
        } else {
            assert(m2.dom().contains(id));
            assert(m[id] == m2[id]);
            law_recorded_calls_resolve(h, init, id);
            let i = choose|i: int| 0 <= i < init.len() && (#[trigger] init[i]).id == id
                && resolve_call(h, init[i]) == Ok::<Option<Seq<u128>>, Seq<char>>(Some(m2[id]));
            assert(sites[i] == init[i]);
        }
    }
}

/// Every call of the call graph built from a class-hierarchy analysis is a
/// resolved call from the function of one of its call sites to one of that
/// site's resolved targets, and the target is one of the graph's functions.
pub proof fn law_call_graph_follows_resolutions(
    sites: Seq<CallSite>,
    resolved: Map<u128, Seq<u128>>,
    functions: Seq<FunctionInfo>,
    n: nat,
)
    requires
        n <= sites.len(),
    ensures
        forall|k: int| 0 <= k < cha_call_relations(sites, resolved, functions, n).len() ==> {
            let r = #[trigger] cha_call_relations(sites, resolved, functions, n)[k];
            &&& r.7
            &&& function_pos(functions, r.1) >= 0
            &&& exists|i: int| 0 <= i < n && resolved.contains_key(sites[i].id)
                && r.0 == sites[i].caller_function && resolved[sites[i].id].contains(r.1)
        },
    decreases n,
{
    if n > 0 {
        let i = n - 1;
        let s = sites[i];
        law_call_graph_follows_resolutions(sites, resolved, functions, (n - 1) as nat);
        let rest = cha_call_relations(sites, resolved, functions, (n - 1) as nat);
        let all = cha_call_relations(sites, resolved, functions, n);
        if first_with_id(sites, i) && resolved.contains_key(s.id) {
            let tr = target_relations(s.caller_function, s.callee_name@, s.file_path@, s.line_number, resolved[s.id], functions);
            lemma_target_relations(s.caller_function, s.callee_name@, s.file_path@, s.line_number, resolved[s.id], functions);
            assert forall|k: int| 0 <= k < all.len() implies {
                let r = #[trigger] all[k];
                &&& r.7
                &&& function_pos(functions, r.1) >= 0
                &&& exists|i: int| 0 <= i < n && resolved.contains_key(sites[i].id)
                    && r.0 == sites[i].caller_function && resolved[sites[i].id].contains(r.1)
            } by {
                if k < rest.len() {
                    assert(all[k] == rest[k]);
                    let j = choose|j: int| 0 <= j < n - 1 && resolved.contains_key(sites[j].id)
                        && rest[k].0 == sites[j].caller_function && resolved[sites[j].id].contains(rest[k].1);
                    assert(0 <= j < n);
                } else {
                    assert(all[k] == tr[k - rest.len()]);
                    assert(0 <= i < n);
                }
            }
        } else {
            assert forall|k: int| 0 <= k < all.len() implies {
                let r = #[trigger] all[k];
                &&& r.7
                &&& function_pos(functions, r.1) >= 0
                &&& exists|i: int| 0 <= i < n && resolved.contains_key(sites[i].id)
                    && r.0 == sites[i].caller_function && resolved[sites[i].id].contains(r.1)
            } by {
                let j = choose|j: int| 0 <= j < n - 1 && resolved.contains_key(sites[j].id)
                    && rest[k].0 == sites[j].caller_function && resolved[sites[j].id].contains(rest[k].1);
                assert(0 <= j < n);
            }
        }
    }
}

} // verus!

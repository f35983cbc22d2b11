//! What the call-site extractor decides about a call: the function that makes
//! it, the class around that function, the call's context and its kind.

use vstd::prelude::*;
use crate::cha::types::{CallSite, CallType, CallContext, ScopeType, find_sig};
use crate::analyzers::common::new_id;
use crate::cha::hierarchy::{ClassHierarchyBuilder, class_named};
use crate::graph_types::{FunctionInfo, ClassInfo, same_function};
use crate::languages::TreeSitterParser;
use crate::text::{find_from, split_parts, find_first, split_str};

verus! {

/// What `char::is_uppercase` gives for a character.
pub uninterp spec fn is_uppercase_char(c: char) -> bool;

/// `char::is_uppercase`: whether the character has the Unicode
/// `Uppercase` property.
#[verifier::external_body]
fn char_is_uppercase(c: char) -> (res: bool)
    ensures
        res == is_uppercase_char(c),
{
    c.is_uppercase()
}

/// The class a function belongs to, read from its namespace: for a
/// `::`-separated namespace the next-to-last part, for a `.`-separated one the
/// last part; none otherwise.
pub open spec fn containing_class_of(namespace: Seq<char>) -> Option<Seq<char>> {
    if find_from(namespace, "::"@, 0) >= 0 {
        let parts = split_parts(namespace, "::"@);
        if parts.len() > 1 { Some(parts[parts.len() - 2]) } else { None }
    } else if find_from(namespace, "."@, 0) >= 0 {
        let parts = split_parts(namespace, "."@);
        if parts.len() > 1 { Some(parts.last()) } else { None }
    } else {
        None
    }
}

/// A call is virtual when the caller's class is in the hierarchy and declares
/// a virtual method of that name.
pub open spec fn virtual_call(h: crate::cha::hierarchy::HierarchyView, call_name: Seq<char>, caller: FunctionInfo) -> bool {
    match containing_class_of(caller.namespace@) {
        Some(c) => match class_named(h, c) {
            Some(class) => match find_sig(class.method_signatures@, call_name) {
                Some(sig) => sig.is_virtual,
                None => false,
            },
            None => false,
        },
        None => false,
    }
}

/// A call is a constructor call when the callee's name begins with an upper-case letter.
pub open spec fn constructor_call(call_name: Seq<char>) -> bool {
    call_name.len() > 0 && is_uppercase_char(call_name[0])
}

/// The kind of a call: a constructor call, else a virtual call, else a call
/// of a free function.
pub open spec fn call_kind(h: crate::cha::hierarchy::HierarchyView, call_name: Seq<char>, caller: FunctionInfo) -> CallType {
    if constructor_call(call_name) {
        CallType::Constructor
    } else if virtual_call(h, call_name, caller) {
        CallType::Virtual
    } else {
        CallType::Function
    }
}

/// The position of the first of `fs` in `file_path` whose lines hold `line`, or -1.
pub open spec fn holder_pos(fs: Seq<FunctionInfo>, file_path: Seq<char>, line: nat) -> int
    decreases fs.len(),
{
    if fs.len() == 0 {
        -1
    } else if holds_line(fs[0], file_path, line) {
        0
    } else {
        let r = holder_pos(fs.drop_first(), file_path, line);
        if r < 0 { -1 } else { r + 1 }
    }
}

/// `holder_pos` is the first match.
pub proof fn lemma_holder_pos(fs: Seq<FunctionInfo>, file_path: Seq<char>, line: nat)
    ensures
        -1 <= holder_pos(fs, file_path, line) < fs.len(),
        holder_pos(fs, file_path, line) >= 0 ==> holds_line(fs[holder_pos(fs, file_path, line)], file_path, line),
        forall|j: int| 0 <= j < fs.len() && (holder_pos(fs, file_path, line) < 0 || j < holder_pos(fs, file_path, line))
            ==> !holds_line(#[trigger] fs[j], file_path, line),
    decreases fs.len(),
{
    if fs.len() > 0 {
        lemma_holder_pos(fs.drop_first(), file_path, line);
        assert forall|j: int| 0 <= j < fs.len() && (holder_pos(fs, file_path, line) < 0 || j < holder_pos(fs, file_path, line))
            implies !holds_line(#[trigger] fs[j], file_path, line) by {
            if j > 0 {
                assert(fs[j] == fs.drop_first()[j - 1]);
            }
        }
    }
}

/// The context of a call made by `caller`: a class scope when its namespace
/// names a class, else a function scope; the caller as containing function,
/// the class from its namespace, and its namespace when not empty.
pub open spec fn call_context_of(c: CallContext, caller: FunctionInfo) -> bool {
    &&& c.scope_type == (if containing_class_of(caller.namespace@) is Some { ScopeType::Class } else { ScopeType::Function })
    &&& c.containing_function == Some(caller.name)
    &&& match c.containing_class {
        Some(k) => containing_class_of(caller.namespace@) == Some(k@),
        None => containing_class_of(caller.namespace@) is None,
    }
    &&& c.namespace == (if caller.namespace@.len() > 0 { Some(caller.namespace) } else { None })
}

/// `cs` is the call site of a call of `call_name` at `line` of `file_path`:
/// made by the first known function holding the line, of the kind
/// `call_kind` gives, in that function's context, with no receiver and no
/// parameters (its id is fresh).
pub open spec fn call_site_for(
    cs: CallSite,
    h: crate::cha::hierarchy::HierarchyView,
    fs: Seq<FunctionInfo>,
    call_name: Seq<char>,
    line: nat,
    file_path: Seq<char>,
) -> bool {
    let p = holder_pos(fs, file_path, line);
    &&& p >= 0
    &&& cs.caller_function == fs[p].id
    &&& cs.callee_name@ == call_name
    &&& cs.call_type == call_kind(h, call_name, fs[p])
    &&& call_context_of(cs.context, fs[p])
    &&& cs.line_number == line
    &&& cs.file_path@ == file_path
    &&& cs.receiver_type is None
    &&& cs.receiver_expression is None
    &&& cs.parameters@.len() == 0
}

/// The calls among `calls` (callee name, zero-based row) whose line some
/// function of `fs` in `file_path` holds, in order.
pub open spec fn held_calls(fs: Seq<FunctionInfo>, file_path: Seq<char>, calls: Seq<(String, usize)>) -> Seq<(String, usize)>
    decreases calls.len(),
{
    if calls.len() == 0 {
        Seq::empty()
    } else {
        let rest = held_calls(fs, file_path, calls.drop_last());
        if holder_pos(fs, file_path, (calls.last().1 + 1) as nat) >= 0 { rest.push(calls.last()) } else { rest }
    }
}

/// `f` is in `file_path` and its lines hold `line`.
pub open spec fn holds_line(f: FunctionInfo, file_path: Seq<char>, line: nat) -> bool {
    f.file_path@ == file_path && f.line_start <= line <= f.line_end
}

/// The position of the function with id `id`, or -1 when there is none.
pub open spec fn cached_function_pos(functions: Seq<FunctionInfo>, id: u128) -> int {
    crate::cha_simple::analysis::function_pos(functions, id)
}

/// The position of the class with id `id`, or -1 when there is none.
pub open spec fn cached_class_pos(classes: Seq<ClassInfo>, id: u128) -> int
    decreases classes.len(),
{
    if classes.len() == 0 {
        -1
    } else if classes[0].id == id {
        0
    } else {
        let r = cached_class_pos(classes.drop_first(), id);
        if r < 0 { -1 } else { r + 1 }
    }
}

/// Extracts call sites and decides what kind of call each is.
pub struct CallSiteExtractor {
    ts_parser: TreeSitterParser,
    class_hierarchy: ClassHierarchyBuilder,
    /// The known functions, at most one per id.
    function_cache: Vec<FunctionInfo>,
    /// The known classes, at most one per id.
    class_cache: Vec<ClassInfo>,
}

impl CallSiteExtractor {
    /// The extractor's invariant: its hierarchy is well formed.
    pub closed spec fn well_formed(&self) -> bool {
        self.class_hierarchy.well_formed()
    }

    /// The hierarchy calls are classified against.
    pub closed spec fn hierarchy(&self) -> crate::cha::hierarchy::HierarchyView {
        self.class_hierarchy@
    }

    /// The known functions.
    pub closed spec fn functions(&self) -> Seq<FunctionInfo> {
        self.function_cache@
    }

    /// The known classes.
    pub closed spec fn classes(&self) -> Seq<ClassInfo> {
        self.class_cache@
    }

    /// An extractor over the given hierarchy, with no function or class known.
    pub fn new(ts_parser: &TreeSitterParser, class_hierarchy: ClassHierarchyBuilder) -> (res: Self)
        requires
            class_hierarchy.well_formed(),
        ensures
            res.well_formed(),
            res.hierarchy() == class_hierarchy@,
            res.functions().len() == 0,
            res.classes().len() == 0,
    {
        CallSiteExtractor {
            ts_parser: *ts_parser,
            class_hierarchy,
            function_cache: Vec::new(),
            class_cache: Vec::new(),
        }
    }

    /// The function that makes a call at `call_line` of `file_path`: the first
    /// known function of that file whose lines hold the call line.
    pub fn find_caller_function(&self, file_path: &String, call_line: usize) -> (res: Result<Option<FunctionInfo>, String>)
        ensures
            match res {
                Ok(Some(f)) => exists|i: int| 0 <= i < self.functions().len()
                    && holds_line(#[trigger] self.functions()[i], file_path@, call_line as nat)
                    && same_function(self.functions()[i], f)
                    && forall|j: int| 0 <= j < i ==> !holds_line(self.functions()[j], file_path@, call_line as nat),
                Ok(None) => forall|j: int| 0 <= j < self.functions().len()
                    ==> !holds_line(#[trigger] self.functions()[j], file_path@, call_line as nat),
                Err(_) => false,
            },
    {
        let mut i: usize = 0;
        while i < self.function_cache.len()
            invariant
                i <= self.function_cache.len(),
                forall|j: int| 0 <= j < i ==> !holds_line(#[trigger] self.function_cache@[j], file_path@, call_line as nat),
            decreases self.function_cache.len() - i,
        {
            let f = &self.function_cache[i];
            if f.file_path == *file_path && call_line >= f.line_start && call_line <= f.line_end {
                let copy = f.clone();
                proof {
                    assert(holds_line(self.functions()[i as int], file_path@, call_line as nat));
                    assert(same_function(self.functions()[i as int], copy));
                }
                return Ok(Some(copy));
            }
            i = i + 1;
        }
        Ok(None)
    }

    /// The class a function belongs to, read from its namespace.
    pub fn find_containing_class(&self, function: &FunctionInfo) -> (res: Option<String>)
        ensures
            match res {
                Some(c) => containing_class_of(function.namespace@) == Some(c@),
                None => containing_class_of(function.namespace@) is None,
            },
    {
        let ns = function.namespace.as_str();
        proof {
            reveal_strlit("::");
            reveal_strlit(".");
        }
        if find_first(ns, "::").is_some() {
            let parts = split_str(ns, "::");
            if parts.len() > 1 {
                proof { assert(crate::cha::types::views(parts@)[parts@.len() - 2] == parts@[parts@.len() - 2]@); }
                return Some(parts[parts.len() - 2].clone());
            }
        } else if find_first(ns, ".").is_some() {
            let parts = split_str(ns, ".");
            if parts.len() > 1 {
                proof { assert(crate::cha::types::views(parts@)[parts@.len() - 1] == parts@[parts@.len() - 1]@); }
                return Some(parts[parts.len() - 1].clone());
            }
        }
        None
    }

    /// The context of a call made by `caller`.
    pub fn analyze_call_context(&self, caller: &FunctionInfo) -> (res: Result<CallContext, String>)
        ensures
            res matches Ok(c) && c.scope_type == (if containing_class_of(caller.namespace@) is Some {
                    ScopeType::Class
                } else {
                    ScopeType::Function
                })
                && c.containing_function == Some(caller.name)
                && (match c.containing_class {
                    Some(k) => containing_class_of(caller.namespace@) == Some(k@),
                    None => containing_class_of(caller.namespace@) is None,
                })
                && c.namespace == (if caller.namespace@.len() > 0 { Some(caller.namespace) } else { None }),
    {
        let mut context = CallContext::default();
        if caller.namespace.as_str().unicode_len() > 0 {
            context = context.with_namespace(caller.namespace.clone());
        }
        context = context.with_containing_function(caller.name.clone());
        match self.find_containing_class(caller) {
            Some(class_name) => {
                context = context.with_containing_class(class_name);
            },
            None => {},
        }
        Ok(context)
    }

    /// Whether the callee's name begins with an upper-case letter.
    pub fn is_constructor_call(&self, call_name: &str) -> (res: bool)
        ensures
            res == constructor_call(call_name@),
    {
        if call_name.unicode_len() > 0 {
            char_is_uppercase(call_name.get_char(0))
        } else {
            false
        }
    }

    /// Whether the caller's class declares a virtual method of that name.
    pub fn is_virtual_call(&self, call_name: &String, caller: &FunctionInfo) -> (res: bool)
        requires
            self.well_formed(),
        ensures
            res == virtual_call(self.hierarchy(), call_name@, *caller),
    {
        match self.find_containing_class(caller) {
            Some(class_name) => {
                match self.class_hierarchy.find_class_by_name(&class_name) {
                    Some(class) => class.is_virtual_method(call_name),
                    None => false,
                }
            },
            None => false,
        }
    }

    /// The kind of a call: constructor, virtual, or a call of a free function.
    pub fn classify_call_type(&self, call_name: &String, caller: &FunctionInfo) -> (res: Result<CallType, String>)
        requires
            self.well_formed(),
        ensures
            res == Ok::<CallType, String>(call_kind(self.hierarchy(), call_name@, *caller)),
    {
        if self.is_constructor_call(call_name.as_str()) {
            return Ok(CallType::Constructor);
        }
        if self.is_virtual_call(call_name, caller) {
            return Ok(CallType::Virtual);
        }
        Ok(CallType::Function)
    }

    /// Whether an argument expression takes a reference or dereferences
    /// (begins with `&` or `*`).
    pub fn is_reference_expression(&self, expression: &str) -> (res: bool)
        ensures
            res == (expression@.len() > 0 && (expression@[0] == '&' || expression@[0] == '*')),
    {
        if expression.unicode_len() > 0 {
            let c = expression.get_char(0);
            c == '&' || c == '*'
        } else {
            false
        }
    }

    /// The position of the known function with id `id`.
    fn function_index(&self, id: u128) -> (res: Option<usize>)
        ensures
            match res {
                Some(i) => i == cached_function_pos(self.function_cache@, id) && i < self.function_cache@.len(),
                None => cached_function_pos(self.function_cache@, id) < 0,
            },
    {
        proof { crate::cha_simple::analysis::lemma_function_pos(self.function_cache@, id); }
        let mut i: usize = 0;
        while i < self.function_cache.len()
            invariant
                i <= self.function_cache.len(),
                forall|j: int| 0 <= j < i ==> self.function_cache@[j].id != id,
                -1 <= cached_function_pos(self.function_cache@, id) < self.function_cache@.len(),
                cached_function_pos(self.function_cache@, id) >= 0
                    ==> self.function_cache@[cached_function_pos(self.function_cache@, id)].id == id,
                forall|j: int| 0 <= j < self.function_cache@.len()
                    && (cached_function_pos(self.function_cache@, id) < 0 || j < cached_function_pos(self.function_cache@, id))
                    ==> #[trigger] self.function_cache@[j].id != id,
            decreases self.function_cache.len() - i,
        {
            if self.function_cache[i].id == id {
                return Some(i);
            }
            i = i + 1;
        }
        None
    }

    /// The position of the known class with id `id`.
    fn class_index(&self, id: u128) -> (res: Option<usize>)
        ensures
            match res {
                Some(i) => i == cached_class_pos(self.class_cache@, id) && i < self.class_cache@.len(),
                None => cached_class_pos(self.class_cache@, id) < 0,
            },
    {
        proof { lemma_cached_class_pos(self.class_cache@, id); }
        let mut i: usize = 0;
        while i < self.class_cache.len()
            invariant
                i <= self.class_cache.len(),
                forall|j: int| 0 <= j < i ==> self.class_cache@[j].id != id,
                -1 <= cached_class_pos(self.class_cache@, id) < self.class_cache@.len(),
                cached_class_pos(self.class_cache@, id) >= 0
                    ==> self.class_cache@[cached_class_pos(self.class_cache@, id)].id == id,
                forall|j: int| 0 <= j < self.class_cache@.len()
                    && (cached_class_pos(self.class_cache@, id) < 0 || j < cached_class_pos(self.class_cache@, id))
                    ==> #[trigger] self.class_cache@[j].id != id,
            decreases self.class_cache.len() - i,
        {
            if self.class_cache[i].id == id {
                return Some(i);
            }
            i = i + 1;
        }
        None
    }

    /// Adds a function, in place of the known function with the same id.
    pub fn add_function(&mut self, function: FunctionInfo)
        requires
            old(self).well_formed(),
        ensures
            final(self).well_formed(),
            final(self).hierarchy() == old(self).hierarchy(),
            final(self).classes() == old(self).classes(),
            final(self).functions() == crate::cha_simple::analysis::insert_function(old(self).functions(), function),
    {
        match self.function_index(function.id) {
            Some(i) => {
                self.function_cache.set(i, function);
            },
            None => {
                self.function_cache.push(function);
            },
        }
    }

    /// Adds a class, in place of the known class with the same id.
    pub fn add_class(&mut self, class: ClassInfo)
        requires
            old(self).well_formed(),
        ensures
            final(self).well_formed(),
            final(self).hierarchy() == old(self).hierarchy(),
            final(self).functions() == old(self).functions(),
            final(self).classes() == ({
                let p = cached_class_pos(old(self).classes(), class.id);
                if p >= 0 { old(self).classes().update(p, class) } else { old(self).classes().push(class) }
            }),
    {
        match self.class_index(class.id) {
            Some(i) => {
                self.class_cache.set(i, class);
            },
            None => {
                self.class_cache.push(class);
            },
        }
    }

    /// The call site of a call of `call_name` whose syntax node starts on the
    /// zero-based row `start_row` of `file_path` (see `call_site_for`); none
    /// when no known function holds the call's line.
    pub fn analyze_function_call(&self, call_name: &String, start_row: usize, file_path: &String)
        -> (res: Result<Option<CallSite>, String>)
        requires
            self.well_formed(),
            start_row < usize::MAX,
        ensures
            match res {
                Ok(Some(cs)) => call_site_for(cs, self.hierarchy(), self.functions(), call_name@, (start_row + 1) as nat, file_path@),
                Ok(None) => holder_pos(self.functions(), file_path@, (start_row + 1) as nat) < 0,
                Err(_) => false,
            },
    {
        proof { lemma_holder_pos(self.functions(), file_path@, (start_row + 1) as nat); }
        let call_line = start_row + 1;
        let caller = match self.find_caller_function(file_path, call_line)? {
            Some(f) => f,
            None => {
                return Ok(None);
            },
        };
        proof {
            let fs = self.functions();
            let i = choose|i: int| 0 <= i < fs.len() && holds_line(#[trigger] fs[i], file_path@, call_line as nat)
                && same_function(fs[i], caller)
                && forall|j: int| 0 <= j < i ==> !holds_line(fs[j], file_path@, call_line as nat);
            let p = holder_pos(fs, file_path@, call_line as nat);
            assert(p == i) by {
                if p < 0 || p > i {
                    assert(!holds_line(fs[i], file_path@, call_line as nat));
                } else if p < i {
                    assert(!holds_line(fs[p], file_path@, call_line as nat));
                }
            }
        }
        let call_type = self.classify_call_type(call_name, &caller)?;
        let context = self.analyze_call_context(&caller)?;
        let call_site = CallSite::new(new_id(), caller.id, call_name.clone(), call_type, call_line, file_path.clone())
            .with_context(context);
        Ok(Some(call_site))
    }

    /// The call sites of the calls found in `file_path`, each call given by
    /// its callee's name and the zero-based row its node starts on: one per
    /// call that a known function holds, in order (see `call_site_for`).
    pub fn extract_call_sites(&self, file_path: &String, calls: &Vec<(String, usize)>)
        -> (res: Result<Vec<CallSite>, String>)
        requires
            self.well_formed(),
            forall|k: int| 0 <= k < calls@.len() ==> (#[trigger] calls@[k]).1 < usize::MAX,
        ensures
            res matches Ok(sites)
                && sites@.len() == held_calls(self.functions(), file_path@, calls@).len()
                && forall|k: int| 0 <= k < sites@.len() ==> call_site_for(
                    #[trigger] sites@[k],
                    self.hierarchy(),
                    self.functions(),
                    held_calls(self.functions(), file_path@, calls@)[k].0@,
                    (held_calls(self.functions(), file_path@, calls@)[k].1 + 1) as nat,
                    file_path@,
                ),
    {
        let ghost fs = self.functions();
        let mut sites: Vec<CallSite> = Vec::new();
        let mut i: usize = 0;
        while i < calls.len()
            invariant
                i <= calls@.len(),
                self.well_formed(),
                fs == self.functions(),
                forall|k: int| 0 <= k < calls@.len() ==> (#[trigger] calls@[k]).1 < usize::MAX,
                sites@.len() == held_calls(fs, file_path@, calls@.subrange(0, i as int)).len(),
                forall|k: int| 0 <= k < sites@.len() ==> call_site_for(
                    #[trigger] sites@[k],
                    self.hierarchy(),
                    fs,
                    held_calls(fs, file_path@, calls@.subrange(0, i as int))[k].0@,
                    (held_calls(fs, file_path@, calls@.subrange(0, i as int))[k].1 + 1) as nat,
                    file_path@,
                ),
            decreases calls@.len() - i,
        {
            proof {
                let sub = calls@.subrange(0, i + 1);
                assert(sub.drop_last() =~= calls@.subrange(0, i as int));
                assert(sub.last() == calls@[i as int]);
                assert(calls@[i as int].1 < usize::MAX);
            }
            match self.analyze_function_call(&calls[i].0, calls[i].1, file_path)? {
                Some(cs) => {
                    sites.push(cs);
                },
                None => {},
            }
            i = i + 1;
        }
        assert(calls@.subrange(0, calls@.len() as int) =~= calls@);
        Ok(sites)
    }

    /// The known functions.
    pub fn get_function_cache(&self) -> (res: &Vec<FunctionInfo>)
        ensures
            res@ == self.functions(),
    {
        &self.function_cache
    }

    /// The known classes.
    pub fn get_class_cache(&self) -> (res: &Vec<ClassInfo>)
        ensures
            res@ == self.classes(),
    {
        &self.class_cache
    }
}

/// `cached_class_pos` is the first match.
pub proof fn lemma_cached_class_pos(classes: Seq<ClassInfo>, id: u128)
    ensures
        -1 <= cached_class_pos(classes, id) < classes.len(),
        cached_class_pos(classes, id) >= 0 ==> classes[cached_class_pos(classes, id)].id == id,
        forall|j: int| 0 <= j < classes.len() && (cached_class_pos(classes, id) < 0 || j < cached_class_pos(classes, id))
            ==> #[trigger] classes[j].id != id,
    decreases classes.len(),
{
    if classes.len() > 0 {
        lemma_cached_class_pos(classes.drop_first(), id);
        assert forall|j: int| 0 <= j < classes.len() && (cached_class_pos(classes, id) < 0 || j < cached_class_pos(classes, id))
            implies #[trigger] classes[j].id != id by {
            if j > 0 {
                assert(classes[j] == classes.drop_first()[j - 1]);
            }
        }
    }
}

impl Default for CallSiteExtractor {
    fn default() -> (res: Self)
        ensures
            res.well_formed(),
            res.hierarchy().classes.len() == 0,
            res.functions().len() == 0,
            res.classes().len() == 0,
    {
        let h = ClassHierarchyBuilder::new();
        CallSiteExtractor::new(&TreeSitterParser::new(), h)
    }
}

} // verus!

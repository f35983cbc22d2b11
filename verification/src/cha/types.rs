//! The data of class-hierarchy analysis: classes with their method
//! signatures, call sites with their context, and the statistics of a run.
//! Identifiers are 128-bit integers (the value of a UUID); file paths are strings.

use vstd::prelude::*;

verus! {

#[verifier::external_type_specification]
#[verifier::external_body]
pub struct ExJsonValue(serde_json::Value);

/// Enhanced class information that supports inheritance-hierarchy analysis.
#[derive(Debug, Clone)]
pub struct EnhancedClassInfo {
    pub id: u128,
    pub name: String,
    pub file_path: String,
    pub line_start: usize,
    pub line_end: usize,
    pub namespace: String,
    pub language: String,
    /// The direct parent class.
    pub parent_class: Option<String>,
    /// All base classes (the transitive closure of the parent relation).
    pub base_classes: Vec<String>,
    /// Virtual (overridable) methods.
    pub virtual_methods: Vec<u128>,
    /// Method signatures, at most one per method name (see `add_method_signature`).
    pub method_signatures: Vec<MethodSignature>,
    /// The full inheritance path, from the root down to the direct parent.
    pub inheritance_chain: Vec<String>,
    pub implemented_interfaces: Vec<String>,
    pub class_type: ClassType,
    pub member_functions: Vec<u128>,
    pub member_variables: Vec<String>,
}

/// Method signature information.
#[derive(Debug, Clone)]
pub struct MethodSignature {
    pub id: u128,
    pub name: String,
    pub parameters: Vec<ParameterInfo>,
    pub return_type: Option<String>,
    pub is_virtual: bool,
    pub is_override: bool,
    /// The base-class method that this one overrides.
    pub base_method: Option<String>,
    pub access_modifier: AccessModifier,
    pub is_static: bool,
}

/// Parameter information.
#[derive(Debug, Clone)]
pub struct ParameterInfo {
    pub name: String,
    pub param_type: Option<String>,
    pub default_value: Option<String>,
    pub is_reference: bool,
    pub is_const: bool,
}

/// Access modifiers.
#[derive(Debug, Clone, Copy, PartialEq, Eq, Structural)]
pub enum AccessModifier {
    Public,
    Protected,
    Private,
    Internal,
    Default,
}

/// Kinds of class-like types.
#[derive(Debug, Clone, Copy, PartialEq, Eq, Structural)]
pub enum ClassType {
    Class,
    Struct,
    Interface,
    Trait,
    Enum,
    Abstract,
}

/// A call site.
#[derive(Debug, Clone)]
pub struct CallSite {
    pub id: u128,
    pub caller_function: u128,
    pub callee_name: String,
    /// The declared type of the receiver object.
    pub receiver_type: Option<String>,
    /// The receiver expression as written.
    pub receiver_expression: Option<String>,
    pub call_type: CallType,
    pub line_number: usize,
    pub file_path: String,
    pub parameters: Vec<CallParameter>,
    pub context: CallContext,
}

/// Kinds of calls.
#[derive(Debug, Clone, Copy, PartialEq, Eq, Structural)]
pub enum CallType {
    Static,
    Virtual,
    Constructor,
    Function,
    Method,
    TraitMethod,
    InterfaceMethod,
}

/// A call argument.
#[derive(Debug, Clone)]
pub struct CallParameter {
    pub expression: String,
    pub inferred_type: Option<String>,
    pub is_literal: bool,
    pub is_reference: bool,
}

/// The context in which a call occurs.
#[derive(Debug, Clone)]
pub struct CallContext {
    pub scope_type: ScopeType,
    pub containing_class: Option<String>,
    pub containing_function: Option<String>,
    pub namespace: Option<String>,
}

/// Scope kinds.
#[derive(Debug, Clone, Copy, PartialEq, Eq, Structural)]
pub enum ScopeType {
    Global,
    Class,
    Function,
    Block,
}

/// The weight of an inheritance edge.
#[derive(Debug, Clone)]
pub struct InheritanceEdge {
    pub edge_type: InheritanceEdgeType,
    pub metadata: Option<serde_json::Value>,
}

/// Kinds of inheritance edges.
#[derive(Debug, Clone, Copy, PartialEq, Eq, Structural)]
pub enum InheritanceEdgeType {
    Extends,
    Implements,
    Mixin,
}

/// Kinds of method resolution.
#[derive(Debug, Clone, Copy, PartialEq, Eq, Structural)]
pub enum ResolutionType {
    Direct,
    Virtual,
    Override,
    Interface,
    Trait,
    Ambiguous,
    Unresolved,
}

/// Statistics of a class-hierarchy analysis run.
#[derive(Debug, Clone)]
pub struct CHAAnalysisStats {
    pub total_call_sites: usize,
    pub resolved_calls: usize,
    pub unresolved_calls: usize,
    pub virtual_calls: usize,
    pub static_calls: usize,
    pub constructor_calls: usize,
    pub function_calls: usize,
    pub method_calls: usize,
    pub resolution_time_ms: u64,
}

/// Statistics with every count zero.
pub open spec fn zero_stats() -> CHAAnalysisStats {
    CHAAnalysisStats {
        total_call_sites: 0,
        resolved_calls: 0,
        unresolved_calls: 0,
        virtual_calls: 0,
        static_calls: 0,
        constructor_calls: 0,
        function_calls: 0,
        method_calls: 0,
        resolution_time_ms: 0,
    }
}

impl Default for CHAAnalysisStats {
    fn default() -> (s: Self)
        ensures
            s == zero_stats(),
    {
        CHAAnalysisStats {
            total_call_sites: 0,
            resolved_calls: 0,
            unresolved_calls: 0,
            virtual_calls: 0,
            static_calls: 0,
            constructor_calls: 0,
            function_calls: 0,
            method_calls: 0,
            resolution_time_ms: 0,
        }
    }
}

/// The views of a sequence of strings.
pub open spec fn views(s: Seq<String>) -> Seq<Seq<char>> {
    s.map_values(|x: String| x@)
}

/// The position of the first signature named `name`, or -1 when there is none.
pub open spec fn sig_pos(sigs: Seq<MethodSignature>, name: Seq<char>) -> int
    decreases sigs.len(),
{
    if sigs.len() == 0 {
        -1
    } else if sigs[0].name@ == name {
        0
    } else {
        let r = sig_pos(sigs.drop_first(), name);
        if r < 0 { -1 } else { r + 1 }
    }
}

/// The first signature named `name`: what a map keyed by method name holds for it.
pub open spec fn find_sig(sigs: Seq<MethodSignature>, name: Seq<char>) -> Option<MethodSignature> {
    let p = sig_pos(sigs, name);
    if p >= 0 { Some(sigs[p]) } else { None }
}

/// The signatures after storing `sig` under its name: it replaces the first
/// signature of that name, or is appended when there is none.
pub open spec fn sigs_insert(sigs: Seq<MethodSignature>, sig: MethodSignature) -> Seq<MethodSignature> {
    let p = sig_pos(sigs, sig.name@);
    if p >= 0 { sigs.update(p, sig) } else { sigs.push(sig) }
}

/// `sig_pos` is the first match.
pub proof fn lemma_sig_pos(sigs: Seq<MethodSignature>, name: Seq<char>)
    ensures
        -1 <= sig_pos(sigs, name) < sigs.len(),
        sig_pos(sigs, name) >= 0 ==> sigs[sig_pos(sigs, name)].name@ == name,
        forall|j: int| 0 <= j < sigs.len() && (sig_pos(sigs, name) < 0 || j < sig_pos(sigs, name))
            ==> #[trigger] sigs[j].name@ != name,
    decreases sigs.len(),
{
    if sigs.len() > 0 {
        lemma_sig_pos(sigs.drop_first(), name);
        assert forall|j: int| 0 <= j < sigs.len() && (sig_pos(sigs, name) < 0 || j < sig_pos(sigs, name))
            implies #[trigger] sigs[j].name@ != name by {
            if j > 0 {
                assert(sigs[j] == sigs.drop_first()[j - 1]);
            }
        }
    }
}

/// Finds the position of the first signature named `name`.
pub fn sig_position(sigs: &Vec<MethodSignature>, name: &String) -> (res: Option<usize>)
    ensures
        match res {
            Some(i) => sig_pos(sigs@, name@) == i as int && i < sigs@.len(),
            None => sig_pos(sigs@, name@) < 0,
        },
{
    proof { lemma_sig_pos(sigs@, name@); }
    let mut i: usize = 0;
    while i < sigs.len()
        invariant
            i <= sigs.len(),
            forall|j: int| 0 <= j < i ==> #[trigger] sigs@[j].name@ != name@,
            -1 <= sig_pos(sigs@, name@) < sigs@.len(),
            sig_pos(sigs@, name@) >= 0 ==> sigs@[sig_pos(sigs@, name@)].name@ == name@,
            forall|j: int| 0 <= j < sigs@.len() && (sig_pos(sigs@, name@) < 0 || j < sig_pos(sigs@, name@))
                ==> #[trigger] sigs@[j].name@ != name@,
        decreases sigs.len() - i,
    {
        if sigs[i].name == *name {
            return Some(i);
        }
        i = i + 1;
    }
    None
}

/// Whether some string of `names` equals `s`.
pub fn contains_string(names: &Vec<String>, s: &String) -> (res: bool)
    ensures
        res == views(names@).contains(s@),
{
    let mut i: usize = 0;
    while i < names.len()
        invariant
            i <= names.len(),
            forall|j: int| 0 <= j < i ==> names@[j]@ != s@,
        decreases names.len() - i,
    {
        if names[i] == *s {
            assert(views(names@)[i as int] == s@);
            return true;
        }
        i = i + 1;
    }
    proof {
        if views(names@).contains(s@) {
            let j = choose|j: int| 0 <= j < views(names@).len() && views(names@)[j] == s@;
            assert(names@[j]@ == s@);
        }
    }
    false
}

/// Whether `ids` holds `id`.
pub fn contains_id(ids: &Vec<u128>, id: u128) -> (res: bool)
    ensures
        res == ids@.contains(id),
{
    let mut i: usize = 0;
    while i < ids.len()
        invariant
            i <= ids.len(),
            forall|j: int| 0 <= j < i ==> ids@[j] != id,
        decreases ids.len() - i,
    {
        if ids[i] == id {
            return true;
        }
        i = i + 1;
    }
    false
}

/// A copy of an optional string.
pub fn clone_opt_string(s: &Option<String>) -> (res: Option<String>)
    ensures
        res == *s,
{
    match s {
        Some(x) => Some(x.clone()),
        None => None,
    }
}

impl EnhancedClassInfo {
    /// Creates class information with no parent, bases, methods or members.
    pub fn new(
        id: u128,
        name: String,
        file_path: String,
        line_start: usize,
        line_end: usize,
        namespace: String,
        language: String,
        class_type: ClassType,
    ) -> (res: Self)
        ensures
            res.id == id,
            res.name == name,
            res.file_path == file_path,
            res.line_start == line_start,
            res.line_end == line_end,
            res.namespace == namespace,
            res.language == language,
            res.class_type == class_type,
            res.parent_class is None,
            res.base_classes@.len() == 0,
            res.virtual_methods@.len() == 0,
            res.method_signatures@.len() == 0,
            res.inheritance_chain@.len() == 0,
            res.implemented_interfaces@.len() == 0,
            res.member_functions@.len() == 0,
            res.member_variables@.len() == 0,
    {
        EnhancedClassInfo {
            id,
            name,
            file_path,
            line_start,
            line_end,
            namespace,
            language,
            parent_class: None,
            base_classes: Vec::new(),
            virtual_methods: Vec::new(),
            method_signatures: Vec::new(),
            inheritance_chain: Vec::new(),
            implemented_interfaces: Vec::new(),
            class_type,
            member_functions: Vec::new(),
            member_variables: Vec::new(),
        }
    }

    /// Sets the direct parent and appends it to the inheritance chain.
    pub fn add_parent_class(&mut self, parent: String)
        ensures
            final(self).parent_class == Some(parent),
            final(self).inheritance_chain@ == old(self).inheritance_chain@.push(parent),
            final(self).base_classes == old(self).base_classes,
            final(self).method_signatures == old(self).method_signatures,
            final(self).name == old(self).name,
            final(self).id == old(self).id,
            final(self).implemented_interfaces == old(self).implemented_interfaces,
            final(self).virtual_methods == old(self).virtual_methods,
            final(self).language == old(self).language,
    {
        self.parent_class = Some(parent.clone());
        self.inheritance_chain.push(parent);
    }

    /// Adds a base class unless it is already listed.
    pub fn add_base_class(&mut self, base: String)
        ensures
            final(self).base_classes@ == if views(old(self).base_classes@).contains(base@) {
                old(self).base_classes@
            } else {
                old(self).base_classes@.push(base)
            },
            final(self).parent_class == old(self).parent_class,
            final(self).method_signatures == old(self).method_signatures,
            final(self).name == old(self).name,
    {
        if !contains_string(&self.base_classes, &base) {
            self.base_classes.push(base);
        }
    }

    /// Adds a virtual method unless it is already listed.
    pub fn add_virtual_method(&mut self, method_id: u128)
        ensures
            final(self).virtual_methods@ == if old(self).virtual_methods@.contains(method_id) {
                old(self).virtual_methods@
            } else {
                old(self).virtual_methods@.push(method_id)
            },
            final(self).method_signatures == old(self).method_signatures,
            final(self).name == old(self).name,
    {
        if !contains_id(&self.virtual_methods, method_id) {
            self.virtual_methods.push(method_id);
        }
    }

    /// Stores a signature under its method name, replacing an earlier one of that name.
    pub fn add_method_signature(&mut self, signature: MethodSignature)
        ensures
            final(self).method_signatures@ == sigs_insert(old(self).method_signatures@, signature),
            final(self).name == old(self).name,
            final(self).id == old(self).id,
            final(self).parent_class == old(self).parent_class,
    {
        match sig_position(&self.method_signatures, &signature.name) {
            Some(i) => {
                self.method_signatures.set(i, signature);
            },
            None => {
                self.method_signatures.push(signature);
            },
        }
    }

    /// Whether the method of that name is declared virtual; false when there is no such method.
    pub fn is_virtual_method(&self, method_name: &String) -> (res: bool)
        ensures
            res == match find_sig(self.method_signatures@, method_name@) {
                Some(sig) => sig.is_virtual,
                None => false,
            },
    {
        match sig_position(&self.method_signatures, method_name) {
            Some(i) => self.method_signatures[i].is_virtual,
            None => false,
        }
    }

    /// The signature of the method of that name.
    pub fn get_method_signature(&self, method_name: &String) -> (res: Option<&MethodSignature>)
        ensures
            match res {
                Some(sig) => find_sig(self.method_signatures@, method_name@) == Some(*sig),
                None => find_sig(self.method_signatures@, method_name@) is None,
            },
    {
        match sig_position(&self.method_signatures, method_name) {
            Some(i) => Some(&self.method_signatures[i]),
            None => None,
        }
    }
}

impl CallSite {
    /// Creates a call site with no receiver, no arguments and the global context.
    pub fn new(
        id: u128,
        caller_function: u128,
        callee_name: String,
        call_type: CallType,
        line_number: usize,
        file_path: String,
    ) -> (res: Self)
        ensures
            res.id == id,
            res.caller_function == caller_function,
            res.callee_name == callee_name,
            res.call_type == call_type,
            res.line_number == line_number,
            res.file_path == file_path,
            res.receiver_type is None,
            res.receiver_expression is None,
            res.parameters@.len() == 0,
            res.context.scope_type == ScopeType::Global,
            res.context.containing_class is None,
            res.context.containing_function is None,
            res.context.namespace is None,
    {
        CallSite {
            id,
            caller_function,
            callee_name,
            receiver_type: None,
            receiver_expression: None,
            call_type,
            line_number,
            file_path,
            parameters: Vec::new(),
            context: CallContext::default(),
        }
    }

    /// Sets the receiver type.
    pub fn with_receiver_type(self, receiver_type: String) -> (res: Self)
        ensures
            res == (CallSite { receiver_type: Some(receiver_type), ..self }),
    {
        let mut s = self;
        s.receiver_type = Some(receiver_type);
        s
    }

    /// Sets the receiver expression.
    pub fn with_receiver_expression(self, expression: String) -> (res: Self)
        ensures
            res == (CallSite { receiver_expression: Some(expression), ..self }),
    {
        let mut s = self;
        s.receiver_expression = Some(expression);
        s
    }

    /// Appends an argument.
    pub fn add_parameter(&mut self, parameter: CallParameter)
        ensures
            *final(self) == (CallSite { parameters: final(self).parameters, ..*old(self) }),
            final(self).parameters@ == old(self).parameters@.push(parameter),
    {
        self.parameters.push(parameter);
    }

    /// Sets the context.
    pub fn with_context(self, context: CallContext) -> (res: Self)
        ensures
            res == (CallSite { context: context, ..self }),
    {
        let mut s = self;
        s.context = context;
        s
    }
}

impl CallContext {
    /// The global context: no class, function or namespace.
    pub fn default() -> (res: Self)
        ensures
            res.scope_type == ScopeType::Global,
            res.containing_class is None,
            res.containing_function is None,
            res.namespace is None,
    {
        CallContext {
            scope_type: ScopeType::Global,
            containing_class: None,
            containing_function: None,
            namespace: None,
        }
    }

    /// Sets the containing class; the scope becomes a class scope.
    pub fn with_containing_class(self, class: String) -> (res: Self)
        ensures
            res == (CallContext { containing_class: Some(class), scope_type: ScopeType::Class, ..self }),
    {
        let mut s = self;
        s.containing_class = Some(class);
        s.scope_type = ScopeType::Class;
        s
    }

    /// Sets the containing function; the scope becomes a function scope.
    pub fn with_containing_function(self, function: String) -> (res: Self)
        ensures
            res == (CallContext { containing_function: Some(function), scope_type: ScopeType::Function, ..self }),
    {
        let mut s = self;
        s.containing_function = Some(function);
        s.scope_type = ScopeType::Function;
        s
    }

    /// Sets the namespace.
    pub fn with_namespace(self, namespace: String) -> (res: Self)
        ensures
            res == (CallContext { namespace: Some(namespace), ..self }),
    {
        let mut s = self;
        s.namespace = Some(namespace);
        s
    }
}

} // verus!

//! Language-specific extensions of the class-hierarchy analysis: Rust traits
//! and impl blocks, Java interfaces and packages, C++ templates and namespaces.
//!
//! Each resolver keeps a table from a name to what is known of it.

use vstd::prelude::*;
use crate::cha::types::{CallSite, EnhancedClassInfo, views};
use crate::cha::hierarchy::{
    ClassHierarchyBuilder, HierarchyView, class_names, implementations_over, method_implementations,
};
use crate::cha::hierarchy::clone_string_vec;
use crate::table::{lookup, entry_index};

verus! {

/// The targets of a call resolved by its receiver type, or, where that finds
/// nothing, by every class of the hierarchy in turn.
pub open spec fn receiver_or_all_targets(h: HierarchyView, cs: CallSite) -> Seq<u128> {
    let first = match cs.receiver_type {
        Some(r) => method_implementations(h, cs.callee_name@, r@),
        None => Seq::empty(),
    };
    if first.len() > 0 {
        first
    } else {
        implementations_over(h, cs.callee_name@, class_names(h))
    }
}

/// The targets of a call looked up in the given types, when the table has an
/// entry for the callee's name; none otherwise.
pub open spec fn listed_targets(h: HierarchyView, cs: CallSite, types: Option<Seq<String>>) -> Seq<u128> {
    match types {
        Some(ts) => implementations_over(h, cs.callee_name@, views(ts)),
        None => Seq::empty(),
    }
}

/// Resolves a call by its receiver type, or by every class when that finds nothing.
fn resolve_by_receiver_or_all(call_site: &CallSite, class_hierarchy: &ClassHierarchyBuilder) -> (res: Vec<u128>)
    requires
        class_hierarchy.well_formed(),
    ensures
        res@ == receiver_or_all_targets(class_hierarchy@, *call_site),
{
    let mut target_methods: Vec<u128> = Vec::new();
    match &call_site.receiver_type {
        Some(receiver_type) => {
            target_methods = class_hierarchy.find_method_implementations(&call_site.callee_name, receiver_type);
        },
        None => {},
    }
    if target_methods.len() == 0 {
        let names = class_hierarchy.get_all_class_names();
        target_methods = class_hierarchy.implementations_for_each(&call_site.callee_name, &names);
    }
    target_methods
}

/// Rust extension: trait and impl-block resolution.
pub struct RustCHAExtender {
    /// The trait resolver.
    pub trait_resolver: TraitResolver,
    /// The impl-block resolver.
    pub impl_resolver: ImplResolver,
}

impl RustCHAExtender {
    /// An extender with empty resolvers.
    pub fn new() -> (res: Self)
        ensures
            res.trait_resolver.traits@.len() == 0,
            res.trait_resolver.trait_implementations@.len() == 0,
            res.impl_resolver.impl_blocks@.len() == 0,
    {
        RustCHAExtender { trait_resolver: TraitResolver::new(), impl_resolver: ImplResolver::new() }
    }

    /// Resolves a trait method call: the implementations found from the
    /// receiver type, or, where that finds none, from every class in turn.
    pub fn resolve_trait_method(&self, call_site: &CallSite, class_hierarchy: &ClassHierarchyBuilder) -> (res: Result<Vec<u128>, String>)
        requires
            class_hierarchy.well_formed(),
        ensures
            res matches Ok(v) && v@ == receiver_or_all_targets(class_hierarchy@, *call_site),
    {
        Ok(resolve_by_receiver_or_all(call_site, class_hierarchy))
    }

    /// Resolves a call through an impl block: when an impl block is known
    /// under the callee's name, the implementations found in its target types.
    pub fn resolve_impl_method(&self, call_site: &CallSite, class_hierarchy: &ClassHierarchyBuilder) -> (res: Result<Vec<u128>, String>)
        requires
            class_hierarchy.well_formed(),
        ensures
            res matches Ok(v) && v@ == listed_targets(
                class_hierarchy@,
                *call_site,
                match lookup(self.impl_resolver.impl_blocks@, call_site.callee_name@) {
                    Some(info) => Some(info.target_types@),
                    None => None,
                },
            ),
    {
        match self.impl_resolver.find_impl_method(&call_site.callee_name) {
            Some(impl_info) => {
                let target_types = self.impl_resolver.get_impl_types(impl_info);
                Ok(class_hierarchy.implementations_for_each(&call_site.callee_name, &target_types))
            },
            None => Ok(Vec::new()),
        }
    }

    /// Analyses the Rust classes among `classes`; the resolvers keep what they had.
    pub fn analyze_rust_structure(&mut self, classes: &[EnhancedClassInfo]) -> (res: Result<(), String>)
        ensures
            res is Ok,
            final(self).trait_resolver.traits@ == old(self).trait_resolver.traits@,
            final(self).trait_resolver.trait_implementations@ == old(self).trait_resolver.trait_implementations@,
            final(self).impl_resolver.impl_blocks@ == old(self).impl_resolver.impl_blocks@,
    {
        let rust = String::from_str("rust");
        let mut i: usize = 0;
        while i < classes.len()
            invariant
                i <= classes.len(),
                self.trait_resolver.traits@ == old(self).trait_resolver.traits@,
                self.trait_resolver.trait_implementations@ == old(self).trait_resolver.trait_implementations@,
                self.impl_resolver.impl_blocks@ == old(self).impl_resolver.impl_blocks@,
            decreases classes.len() - i,
        {
            if classes[i].language == rust {
                let r = self.trait_resolver.analyze_class(&classes[i]);
                if r.is_err() {
                    return r;
                }
                let r = self.impl_resolver.analyze_class(&classes[i]);
                if r.is_err() {
                    return r;
                }
            }
            i = i + 1;
        }
        Ok(())
    }
}

/// Java extension: interface and package resolution.
pub struct JavaCHAExtender {
    /// The interface resolver.
    pub interface_resolver: InterfaceResolver,
    /// The package resolver.
    pub package_resolver: PackageResolver,
}

impl JavaCHAExtender {
    /// An extender with empty resolvers.
    pub fn new() -> (res: Self)
        ensures
            res.interface_resolver.interfaces@.len() == 0,
            res.interface_resolver.interface_implementations@.len() == 0,
            res.package_resolver.packages@.len() == 0,
    {
        JavaCHAExtender { interface_resolver: InterfaceResolver::new(), package_resolver: PackageResolver::new() }
    }

    /// Resolves an interface method call: the implementations found from the
    /// receiver type, or, where that finds none, from every class in turn.
    pub fn resolve_interface_method(&self, call_site: &CallSite, class_hierarchy: &ClassHierarchyBuilder) -> (res: Result<Vec<u128>, String>)
        requires
            class_hierarchy.well_formed(),
        ensures
            res matches Ok(v) && v@ == receiver_or_all_targets(class_hierarchy@, *call_site),
    {
        Ok(resolve_by_receiver_or_all(call_site, class_hierarchy))
    }

    /// Resolves a call through a package: when a package is known under the
    /// callee's name, the implementations found in its classes.
    pub fn resolve_package_method(&self, call_site: &CallSite, class_hierarchy: &ClassHierarchyBuilder) -> (res: Result<Vec<u128>, String>)
        requires
            class_hierarchy.well_formed(),
        ensures
            res matches Ok(v) && v@ == listed_targets(
                class_hierarchy@,
                *call_site,
                match lookup(self.package_resolver.packages@, call_site.callee_name@) {
                    Some(info) => Some(info.classes@),
                    None => None,
                },
            ),
    {
        match self.package_resolver.find_package_method(&call_site.callee_name) {
            Some(package_info) => {
                let target_classes = self.package_resolver.get_package_classes(package_info);
                Ok(class_hierarchy.implementations_for_each(&call_site.callee_name, &target_classes))
            },
            None => Ok(Vec::new()),
        }
    }

    /// Analyses the Java classes among `classes`; the resolvers keep what they had.
    pub fn analyze_java_structure(&mut self, classes: &[EnhancedClassInfo]) -> (res: Result<(), String>)
        ensures
            res is Ok,
            final(self).interface_resolver.interfaces@ == old(self).interface_resolver.interfaces@,
            final(self).interface_resolver.interface_implementations@
                == old(self).interface_resolver.interface_implementations@,
            final(self).package_resolver.packages@ == old(self).package_resolver.packages@,
    {
        let java = String::from_str("java");
        let mut i: usize = 0;
        while i < classes.len()
            invariant
                i <= classes.len(),
                self.interface_resolver.interfaces@ == old(self).interface_resolver.interfaces@,
                self.interface_resolver.interface_implementations@
                    == old(self).interface_resolver.interface_implementations@,
                self.package_resolver.packages@ == old(self).package_resolver.packages@,
            decreases classes.len() - i,
        {
            if classes[i].language == java {
                let r = self.interface_resolver.analyze_class(&classes[i]);
                if r.is_err() {
                    return r;
                }
                let r = self.package_resolver.analyze_class(&classes[i]);
                if r.is_err() {
                    return r;
                }
            }
            i = i + 1;
        }
        Ok(())
    }
}

/// C++ extension: template and namespace resolution.
pub struct CppCHAExtender {
    /// The template resolver.
    pub template_resolver: TemplateResolver,
    /// The namespace resolver.
    pub namespace_resolver: NamespaceResolver,
}

impl CppCHAExtender {
    /// An extender with empty resolvers.
    pub fn new() -> (res: Self)
        ensures
            res.template_resolver.templates@.len() == 0,
            res.namespace_resolver.namespaces@.len() == 0,
    {
        CppCHAExtender { template_resolver: TemplateResolver::new(), namespace_resolver: NamespaceResolver::new() }
    }

    /// Resolves a template method call: the implementations found from the
    /// receiver type, or, where that finds none, from every class in turn.
    pub fn resolve_template_method(&self, call_site: &CallSite, class_hierarchy: &ClassHierarchyBuilder) -> (res: Result<Vec<u128>, String>)
        requires
            class_hierarchy.well_formed(),
        ensures
            res matches Ok(v) && v@ == receiver_or_all_targets(class_hierarchy@, *call_site),
    {
        Ok(resolve_by_receiver_or_all(call_site, class_hierarchy))
    }

    /// Resolves a call through a namespace: when a namespace is known under the
    /// callee's name, the implementations found in its classes.
    pub fn resolve_namespace_method(&self, call_site: &CallSite, class_hierarchy: &ClassHierarchyBuilder) -> (res: Result<Vec<u128>, String>)
        requires
            class_hierarchy.well_formed(),
        ensures
            res matches Ok(v) && v@ == listed_targets(
                class_hierarchy@,
                *call_site,
                match lookup(self.namespace_resolver.namespaces@, call_site.callee_name@) {
                    Some(info) => Some(info.classes@),
                    None => None,
                },
            ),
    {
        match self.namespace_resolver.find_namespace_method(&call_site.callee_name) {
            Some(namespace_info) => {
                let target_classes = self.namespace_resolver.get_namespace_classes(namespace_info);
                Ok(class_hierarchy.implementations_for_each(&call_site.callee_name, &target_classes))
            },
            None => Ok(Vec::new()),
        }
    }

    /// Analyses the C++ classes (language "cpp" or "c++") among `classes`; the
    /// resolvers keep what they had.
    pub fn analyze_cpp_structure(&mut self, classes: &[EnhancedClassInfo]) -> (res: Result<(), String>)
        ensures
            res is Ok,
            final(self).template_resolver.templates@ == old(self).template_resolver.templates@,
            final(self).namespace_resolver.namespaces@ == old(self).namespace_resolver.namespaces@,
    {
        let cpp = String::from_str("cpp");
        let cxx = String::from_str("c++");
        let mut i: usize = 0;
        while i < classes.len()
            invariant
                i <= classes.len(),
                self.template_resolver.templates@ == old(self).template_resolver.templates@,
                self.namespace_resolver.namespaces@ == old(self).namespace_resolver.namespaces@,
            decreases classes.len() - i,
        {
            if classes[i].language == cpp || classes[i].language == cxx {
                let r = self.template_resolver.analyze_class(&classes[i]);
                if r.is_err() {
                    return r;
                }
                let r = self.namespace_resolver.analyze_class(&classes[i]);
                if r.is_err() {
                    return r;
                }
            }
            i = i + 1;
        }
        Ok(())
    }
}

/// Rust traits, and the types that implement each.
pub struct TraitResolver {
    /// Trait name and what is known of the trait.
    pub traits: Vec<(String, TraitInfo)>,
    /// Trait name and the names of the implementing types.
    pub trait_implementations: Vec<(String, Vec<String>)>,
}

impl TraitResolver {
    /// An empty resolver.
    pub fn new() -> (res: Self)
        ensures
            res.traits@.len() == 0,
            res.trait_implementations@.len() == 0,
    {
        TraitResolver { traits: Vec::new(), trait_implementations: Vec::new() }
    }

    /// The trait of that name.
    pub fn find_trait(&self, trait_name: &str) -> (res: Option<&TraitInfo>)
        ensures
            match res {
                Some(t) => lookup(self.traits@, trait_name@) == Some(*t),
                None => lookup(self.traits@, trait_name@) is None,
            },
    {
        let key = String::from_str(trait_name);
        match entry_index(&self.traits, &key) {
            Some(i) => Some(&self.traits[i].1),
            None => None,
        }
    }

    /// The types that implement the trait, by its name; none when it has no entry.
    pub fn find_implementing_types(&self, trait_info: &TraitInfo) -> (res: Vec<String>)
        ensures
            res@ == match lookup(self.trait_implementations@, trait_info.name@) {
                Some(types) => types@,
                None => Seq::empty(),
            },
    {
        match entry_index(&self.trait_implementations, &trait_info.name) {
            Some(i) => clone_string_vec(&self.trait_implementations[i].1),
            None => Vec::new(),
        }
    }

    /// Analyses one class; the resolver keeps what it had.
    pub fn analyze_class(&mut self, _class: &EnhancedClassInfo) -> (res: Result<(), String>)
        ensures
            res is Ok,
            final(self).traits@ == old(self).traits@,
            final(self).trait_implementations@ == old(self).trait_implementations@,
    {
        Ok(())
    }
}

/// Rust impl blocks, by method name.
pub struct ImplResolver {
    /// Method name and the impl block that holds it.
    pub impl_blocks: Vec<(String, ImplBlockInfo)>,
}

impl ImplResolver {
    /// An empty resolver.
    pub fn new() -> (res: Self)
        ensures
            res.impl_blocks@.len() == 0,
    {
        ImplResolver { impl_blocks: Vec::new() }
    }

    /// The impl block of that method.
    pub fn find_impl_method(&self, method_name: &str) -> (res: Option<&ImplBlockInfo>)
        ensures
            match res {
                Some(b) => lookup(self.impl_blocks@, method_name@) == Some(*b),
                None => lookup(self.impl_blocks@, method_name@) is None,
            },
    {
        let key = String::from_str(method_name);
        match entry_index(&self.impl_blocks, &key) {
            Some(i) => Some(&self.impl_blocks[i].1),
            None => None,
        }
    }

    /// The target types of an impl block.
    pub fn get_impl_types(&self, impl_info: &ImplBlockInfo) -> (res: Vec<String>)
        ensures
            res@ == impl_info.target_types@,
    {
        clone_string_vec(&impl_info.target_types)
    }

    /// Analyses one class; the resolver keeps what it had.
    pub fn analyze_class(&mut self, _class: &EnhancedClassInfo) -> (res: Result<(), String>)
        ensures
            res is Ok,
            final(self).impl_blocks@ == old(self).impl_blocks@,
    {
        Ok(())
    }
}

/// Java interfaces, and the classes that implement each.
pub struct InterfaceResolver {
    /// Interface name and what is known of the interface.
    pub interfaces: Vec<(String, InterfaceInfo)>,
    /// Interface name and the names of the implementing classes.
    pub interface_implementations: Vec<(String, Vec<String>)>,
}

impl InterfaceResolver {
    /// An empty resolver.
    pub fn new() -> (res: Self)
        ensures
            res.interfaces@.len() == 0,
            res.interface_implementations@.len() == 0,
    {
        InterfaceResolver { interfaces: Vec::new(), interface_implementations: Vec::new() }
    }

    /// The interface of that name.
    pub fn find_interface(&self, interface_name: &str) -> (res: Option<&InterfaceInfo>)
        ensures
            match res {
                Some(t) => lookup(self.interfaces@, interface_name@) == Some(*t),
                None => lookup(self.interfaces@, interface_name@) is None,
            },
    {
        let key = String::from_str(interface_name);
        match entry_index(&self.interfaces, &key) {
            Some(i) => Some(&self.interfaces[i].1),
            None => None,
        }
    }

    /// The classes that implement the interface, by its name; none when it has no entry.
    pub fn find_implementing_classes(&self, interface_info: &InterfaceInfo) -> (res: Vec<String>)
        ensures
            res@ == match lookup(self.interface_implementations@, interface_info.name@) {
                Some(classes) => classes@,
                None => Seq::empty(),
            },
    {
        match entry_index(&self.interface_implementations, &interface_info.name) {
            Some(i) => clone_string_vec(&self.interface_implementations[i].1),
            None => Vec::new(),
        }
    }

    /// Analyses one class; the resolver keeps what it had.
    pub fn analyze_class(&mut self, _class: &EnhancedClassInfo) -> (res: Result<(), String>)
        ensures
            res is Ok,
            final(self).interfaces@ == old(self).interfaces@,
            final(self).interface_implementations@ == old(self).interface_implementations@,
    {
        Ok(())
    }
}

/// Java packages, by method name.
pub struct PackageResolver {
    /// Method name and the package that holds it.
    pub packages: Vec<(String, PackageInfo)>,
}

impl PackageResolver {
    /// An empty resolver.
    pub fn new() -> (res: Self)
        ensures
            res.packages@.len() == 0,
    {
        PackageResolver { packages: Vec::new() }
    }

    /// The package of that method.
    pub fn find_package_method(&self, method_name: &str) -> (res: Option<&PackageInfo>)
        ensures
            match res {
                Some(p) => lookup(self.packages@, method_name@) == Some(*p),
                None => lookup(self.packages@, method_name@) is None,
            },
    {
        let key = String::from_str(method_name);
        match entry_index(&self.packages, &key) {
            Some(i) => Some(&self.packages[i].1),
            None => None,
        }
    }

    /// The classes of a package.
    pub fn get_package_classes(&self, package_info: &PackageInfo) -> (res: Vec<String>)
        ensures
            res@ == package_info.classes@,
    {
        clone_string_vec(&package_info.classes)
    }

    /// Analyses one class; the resolver keeps what it had.
    pub fn analyze_class(&mut self, _class: &EnhancedClassInfo) -> (res: Result<(), String>)
        ensures
            res is Ok,
            final(self).packages@ == old(self).packages@,
    {
        Ok(())
    }
}

/// C++ templates, by method name.
pub struct TemplateResolver {
    /// Method name and the template that holds it.
    pub templates: Vec<(String, TemplateInfo)>,
}

impl TemplateResolver {
    /// An empty resolver.
    pub fn new() -> (res: Self)
        ensures
            res.templates@.len() == 0,
    {
        TemplateResolver { templates: Vec::new() }
    }

    /// The template of that method.
    pub fn find_template_method(&self, method_name: &str) -> (res: Option<&TemplateInfo>)
        ensures
            match res {
                Some(t) => lookup(self.templates@, method_name@) == Some(*t),
                None => lookup(self.templates@, method_name@) is None,
            },
    {
        let key = String::from_str(method_name);
        match entry_index(&self.templates, &key) {
            Some(i) => Some(&self.templates[i].1),
            None => None,
        }
    }

    /// The types a template is instantiated with.
    pub fn get_instantiated_types(&self, template_info: &TemplateInfo) -> (res: Vec<String>)
        ensures
            res@ == template_info.instantiated_types@,
    {
        clone_string_vec(&template_info.instantiated_types)
    }

    /// Analyses one class; the resolver keeps what it had.
    pub fn analyze_class(&mut self, _class: &EnhancedClassInfo) -> (res: Result<(), String>)
        ensures
            res is Ok,
            final(self).templates@ == old(self).templates@,
    {
        Ok(())
    }
}

/// C++ namespaces, by method name.
pub struct NamespaceResolver {
    /// Method name and the namespace that holds it.
    pub namespaces: Vec<(String, NamespaceInfo)>,
}

impl NamespaceResolver {
    /// An empty resolver.
    pub fn new() -> (res: Self)
        ensures
            res.namespaces@.len() == 0,
    {
        NamespaceResolver { namespaces: Vec::new() }
    }

    /// The namespace of that method.
    pub fn find_namespace_method(&self, method_name: &str) -> (res: Option<&NamespaceInfo>)
        ensures
            match res {
                Some(n) => lookup(self.namespaces@, method_name@) == Some(*n),
                None => lookup(self.namespaces@, method_name@) is None,
            },
    {
        let key = String::from_str(method_name);
        match entry_index(&self.namespaces, &key) {
            Some(i) => Some(&self.namespaces[i].1),
            None => None,
        }
    }

    /// The classes of a namespace.
    pub fn get_namespace_classes(&self, namespace_info: &NamespaceInfo) -> (res: Vec<String>)
        ensures
            res@ == namespace_info.classes@,
    {
        clone_string_vec(&namespace_info.classes)
    }

    /// Analyses one class; the resolver keeps what it had.
    pub fn analyze_class(&mut self, _class: &EnhancedClassInfo) -> (res: Result<(), String>)
        ensures
            res is Ok,
            final(self).namespaces@ == old(self).namespaces@,
    {
        Ok(())
    }
}

/// A Rust trait.
#[derive(Debug, Clone)]
pub struct TraitInfo {
    pub name: String,
    pub methods: Vec<String>,
    pub super_traits: Vec<String>,
}

/// A Rust impl block.
#[derive(Debug, Clone)]
pub struct ImplBlockInfo {
    pub target_types: Vec<String>,
    pub methods: Vec<String>,
    pub trait_name: Option<String>,
}

/// A Java interface.
#[derive(Debug, Clone)]
pub struct InterfaceInfo {
    pub name: String,
    pub methods: Vec<String>,
    pub super_interfaces: Vec<String>,
}

/// A Java package.
#[derive(Debug, Clone)]
pub struct PackageInfo {
    pub name: String,
    pub classes: Vec<String>,
}

/// A C++ template.
#[derive(Debug, Clone)]
pub struct TemplateInfo {
    pub name: String,
    pub parameters: Vec<String>,
    pub instantiated_types: Vec<String>,
}

/// A C++ namespace.
#[derive(Debug, Clone)]
pub struct NamespaceInfo {
    pub name: String,
    pub classes: Vec<String>,
}

impl Default for RustCHAExtender {
    fn default() -> (res: Self)
        ensures
            res.trait_resolver.traits@.len() == 0,
            res.trait_resolver.trait_implementations@.len() == 0,
            res.impl_resolver.impl_blocks@.len() == 0,
    {
        Self::new()
    }
}

impl Default for JavaCHAExtender {
    fn default() -> (res: Self)
        ensures
            res.interface_resolver.interfaces@.len() == 0,
            res.interface_resolver.interface_implementations@.len() == 0,
            res.package_resolver.packages@.len() == 0,
    {
        Self::new()
    }
}

impl Default for CppCHAExtender {
    fn default() -> (res: Self)
        ensures
            res.template_resolver.templates@.len() == 0,
            res.namespace_resolver.namespaces@.len() == 0,
    {
        Self::new()
    }
}

} // verus!

//! The records of the simple class-hierarchy analysis.

use vstd::prelude::*;
use crate::cha::types::{contains_id, clone_opt_string};

verus! {

/// A class: where it is, its parent class and its methods.
#[derive(Debug, Clone)]
pub struct SimpleClassInfo {
    pub id: u128,
    pub name: String,
    pub file_path: String,
    pub line_start: usize,
    pub line_end: usize,
    pub namespace: String,
    pub language: String,
    pub parent_class: Option<String>,
    /// The ids of its methods, each once.
    pub methods: Vec<u128>,
}

/// A call site.
#[derive(Debug)]
pub struct SimpleCallSite {
    pub id: u128,
    pub caller_function: u128,
    pub callee_name: String,
    pub receiver_type: Option<String>,
    pub line_number: usize,
    pub file_path: String,
}

/// How a call site was resolved.
#[derive(Debug, Clone)]
pub struct SimpleMethodResolution {
    pub call_site_id: u128,
    pub target_methods: Vec<u128>,
    pub is_resolved: bool,
}

impl SimpleClassInfo {
    /// A class without parent and without methods.
    pub fn new(
        id: u128,
        name: String,
        file_path: String,
        line_start: usize,
        line_end: usize,
        namespace: String,
        language: String,
    ) -> (res: Self)
        ensures
            res.id == id,
            res.name == name,
            res.file_path == file_path,
            res.line_start == line_start,
            res.line_end == line_end,
            res.namespace == namespace,
            res.language == language,
            res.parent_class is None,
            res.methods@.len() == 0,
    {
        SimpleClassInfo {
            id,
            name,
            file_path,
            line_start,
            line_end,
            namespace,
            language,
            parent_class: None,
            methods: Vec::new(),
        }
    }

    /// Adds a method, unless the class has it already.
    pub fn add_method(&mut self, method_id: u128)
        ensures
            final(self).methods@ == if old(self).methods@.contains(method_id) {
                old(self).methods@
            } else {
                old(self).methods@.push(method_id)
            },
            final(self).id == old(self).id,
            final(self).name == old(self).name,
            final(self).parent_class == old(self).parent_class,
    {
        if !contains_id(&self.methods, method_id) {
            self.methods.push(method_id);
        }
    }

    /// Sets the parent class.
    pub fn set_parent_class(&mut self, parent: String)
        ensures
            final(self).parent_class == Some(parent),
            final(self).id == old(self).id,
            final(self).name == old(self).name,
            final(self).methods == old(self).methods,
    {
        self.parent_class = Some(parent);
    }
}

impl SimpleCallSite {
    /// A call site without receiver type.
    pub fn new(id: u128, caller_function: u128, callee_name: String, line_number: usize, file_path: String) -> (res: Self)
        ensures
            res.id == id,
            res.caller_function == caller_function,
            res.callee_name == callee_name,
            res.receiver_type is None,
            res.line_number == line_number,
            res.file_path == file_path,
    {
        SimpleCallSite { id, caller_function, callee_name, receiver_type: None, line_number, file_path }
    }

    /// The call site with that receiver type.
    pub fn with_receiver_type(self, receiver_type: String) -> (res: Self)
        ensures
            res == (SimpleCallSite { receiver_type: Some(receiver_type), ..self }),
    {
        SimpleCallSite { receiver_type: Some(receiver_type), ..self }
    }
}

impl Clone for SimpleCallSite {
    fn clone(&self) -> (res: Self)
        ensures
            res == *self,
    {
        SimpleCallSite {
            id: self.id,
            caller_function: self.caller_function,
            callee_name: self.callee_name.clone(),
            receiver_type: clone_opt_string(&self.receiver_type),
            line_number: self.line_number,
            file_path: self.file_path.clone(),
        }
    }
}

} // verus!

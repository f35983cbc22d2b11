//! What an analyzer keeps of the files it has analysed: each function under
//! its name, and each file's functions.

use vstd::prelude::*;
use crate::graph_types::{FunctionInfo, same_function};
use crate::table::{lookup, table_insert, entry_index, table_keys, keys_put};
use crate::text::{decimal, push_decimal, string_push_str};

verus! {

/// The functions an analyzer has found: one under each function name (the
/// last one recorded), and the list of each file's functions.
#[derive(Debug)]
pub struct FunctionRegistry {
    pub by_name: Vec<(String, FunctionInfo)>,
    pub by_file: Vec<(String, Vec<FunctionInfo>)>,
}

/// The position of the last function named `name` among the first `n` of `fs`, or -1.
pub open spec fn last_named(fs: Seq<FunctionInfo>, name: Seq<char>, n: nat) -> int
    decreases n,
{
    if n == 0 {
        -1
    } else if fs[n - 1].name@ == name {
        n - 1
    } else {
        last_named(fs, name, (n - 1) as nat)
    }
}

proof fn lemma_last_named(fs: Seq<FunctionInfo>, name: Seq<char>, n: nat)
    requires
        n <= fs.len(),
    ensures
        -1 <= last_named(fs, name, n) < n,
        last_named(fs, name, n) >= 0 ==> fs[last_named(fs, name, n)].name@ == name,
    decreases n,
{
    if n > 0 {
        lemma_last_named(fs, name, (n - 1) as nat);
    }
}

/// `by_name` after recording `fs` over `before`: under each name the last
/// function of `fs` with that name (a copy of it), else what `before` held.
pub open spec fn names_recorded(
    before: Seq<(String, FunctionInfo)>,
    after: Seq<(String, FunctionInfo)>,
    fs: Seq<FunctionInfo>,
    n: nat,
) -> bool {
    forall|k: Seq<char>| #![trigger lookup(after, k)] {
        let j = last_named(fs, k, n);
        if j >= 0 {
            lookup(after, k) matches Some(g) && same_function(g, fs[j])
        } else {
            lookup(after, k) == lookup(before, k)
        }
    }
}

/// The keys after putting the names of the first `n` functions of `fs`, in order.
pub open spec fn names_put(keys: Seq<Seq<char>>, fs: Seq<FunctionInfo>, n: nat) -> Seq<Seq<char>>
    decreases n,
{
    if n == 0 { keys } else { keys_put(names_put(keys, fs, (n - 1) as nat), fs[n - 1].name@) }
}

impl FunctionRegistry {
    /// An empty registry.
    pub fn new() -> (res: Self)
        ensures
            res.by_name@.len() == 0,
            res.by_file@.len() == 0,
    {
        FunctionRegistry { by_name: Vec::new(), by_file: Vec::new() }
    }

    /// Records the functions of a file: each under its name, replacing what
    /// that name held, and the list under the file.
    pub fn record_file(&mut self, file_path: String, functions: Vec<FunctionInfo>)
        ensures
            lookup(final(self).by_file@, file_path@) == Some(functions),
            forall|p: Seq<char>| p != file_path@
                ==> #[trigger] lookup(final(self).by_file@, p) == lookup(old(self).by_file@, p),
            names_recorded(old(self).by_name@, final(self).by_name@, functions@, functions@.len()),
            table_keys(final(self).by_name@) == names_put(table_keys(old(self).by_name@), functions@, functions@.len()),
            table_keys(final(self).by_file@) == keys_put(table_keys(old(self).by_file@), file_path@),
    {
        let ghost before = self.by_name@;
        let mut i: usize = 0;
        while i < functions.len()
            invariant
                i <= functions@.len(),
                self.by_file@ == old(self).by_file@,
                before == old(self).by_name@,
                names_recorded(before, self.by_name@, functions@, i as nat),
                table_keys(self.by_name@) == names_put(table_keys(before), functions@, i as nat),
            decreases functions@.len() - i,
        {
            let f = functions[i].clone();
            let ghost reg = self.by_name@;
            table_insert(&mut self.by_name, functions[i].name.clone(), f);
            proof {
                let fi = functions@[i as int];
                assert forall|k: Seq<char>| #![trigger lookup(self.by_name@, k)] {
                    let j = last_named(functions@, k, (i + 1) as nat);
                    if j >= 0 {
                        lookup(self.by_name@, k) matches Some(g) && same_function(g, functions@[j])
                    } else {
                        lookup(self.by_name@, k) == lookup(before, k)
                    }
                } by {
                    if k == fi.name@ {
                        assert(last_named(functions@, k, (i + 1) as nat) == i as int);
                    } else {
                        assert(last_named(functions@, k, (i + 1) as nat) == last_named(functions@, k, i as nat));
                        assert(lookup(self.by_name@, k) == lookup(reg, k));
                    }
                }
            }
            i = i + 1;
        }
        table_insert(&mut self.by_file, file_path, functions);
    }

    /// The functions recorded under their names, in the registry's order.
    pub fn get_all_functions(&self) -> (res: Vec<&FunctionInfo>)
        ensures
            res@.len() == self.by_name@.len(),
            forall|k: int| 0 <= k < res@.len() ==> *#[trigger] res@[k] == self.by_name@[k].1,
    {
        let mut res: Vec<&FunctionInfo> = Vec::new();
        let mut i: usize = 0;
        while i < self.by_name.len()
            invariant
                i <= self.by_name@.len(),
                res@.len() == i,
                forall|k: int| 0 <= k < i ==> *#[trigger] res@[k] == self.by_name@[k].1,
            decreases self.by_name@.len() - i,
        {
            res.push(&self.by_name[i].1);
            i = i + 1;
        }
        res
    }

    /// The recorded functions named `name`, in the registry's order.
    pub fn find_functions_by_name(&self, name: &str) -> (res: Vec<&FunctionInfo>)
        ensures
            res@.len() == named(self.by_name@, name@).len(),
            forall|k: int| 0 <= k < res@.len() ==> *#[trigger] res@[k] == named(self.by_name@, name@)[k],
    {
        let ghost reg = self.by_name@;
        let mut res: Vec<&FunctionInfo> = Vec::new();
        let mut i: usize = 0;
        while i < self.by_name.len()
            invariant
                i <= reg.len(),
                reg == self.by_name@,
                res@.len() == named(reg.subrange(0, i as int), name@).len(),
                forall|k: int| 0 <= k < res@.len() ==> *#[trigger] res@[k] == named(reg.subrange(0, i as int), name@)[k],
            decreases reg.len() - i,
        {
            proof {
                let sub = reg.subrange(0, i + 1);
                assert(sub.drop_last() =~= reg.subrange(0, i as int));
                assert(sub.last() == reg[i as int]);
            }
            if crate::text::str_eq(&self.by_name[i].1.name, name) {
                res.push(&self.by_name[i].1);
            }
            i = i + 1;
        }
        assert(reg.subrange(0, reg.len() as int) =~= reg);
        res
    }

    /// The functions recorded for the file `file_path`, if it was recorded.
    pub fn get_file_functions(&self, file_path: &String) -> (res: Option<&Vec<FunctionInfo>>)
        ensures
            match res {
                Some(v) => lookup(self.by_file@, file_path@) == Some(*v),
                None => lookup(self.by_file@, file_path@) is None,
            },
    {
        match entry_index(&self.by_file, file_path) {
            Some(i) => Some(&self.by_file[i].1),
            None => None,
        }
    }
}

/// The functions of `reg` named `name`, in order.
pub open spec fn named(reg: Seq<(String, FunctionInfo)>, name: Seq<char>) -> Seq<FunctionInfo>
    decreases reg.len(),
{
    if reg.len() == 0 {
        Seq::empty()
    } else {
        let r = named(reg.drop_last(), name);
        if reg.last().1.name@ == name { r.push(reg.last().1) } else { r }
    }
}

/// A report line for a function: `  name (file:start-end)`.
pub open spec fn function_line(f: FunctionInfo) -> Seq<char> {
    "  "@ + f.name@ + " ("@ + f.file_path@ + ":"@ + decimal(f.line_start as nat) + "-"@
        + decimal(f.line_end as nat) + ")\n"@
}

/// The report lines of the registry's functions, one after the other.
pub open spec fn function_lines(reg: Seq<(String, FunctionInfo)>) -> Seq<char>
    decreases reg.len(),
{
    if reg.len() == 0 {
        Seq::empty()
    } else {
        function_lines(reg.drop_last()) + function_line(reg.last().1)
    }
}

/// A report line for a file: `  path: count unit`.
pub open spec fn file_line(entry: (String, Vec<FunctionInfo>), unit: Seq<char>) -> Seq<char> {
    "  "@ + entry.0@ + ": "@ + decimal(entry.1@.len()) + " "@ + unit + "\n"@
}

/// The report lines of the registry's files, one after the other.
pub open spec fn file_lines(files: Seq<(String, Vec<FunctionInfo>)>, unit: Seq<char>) -> Seq<char>
    decreases files.len(),
{
    if files.len() == 0 {
        Seq::empty()
    } else {
        file_lines(files.drop_last(), unit) + file_line(files.last(), unit)
    }
}

/// Appends the report lines of the registry's functions.
pub fn push_function_lines(report: &mut String, reg: &Vec<(String, FunctionInfo)>)
    ensures
        final(report)@ == old(report)@ + function_lines(reg@),
{
    let ghost start = report@;
    let mut i: usize = 0;
    while i < reg.len()
        invariant
            i <= reg@.len(),
            report@ == start + function_lines(reg@.subrange(0, i as int)),
        decreases reg@.len() - i,
    {
        let f = &reg[i].1;
        let ghost before = report@;
        string_push_str(report, "  ");
        string_push_str(report, f.name.as_str());
        string_push_str(report, " (");
        string_push_str(report, f.file_path.as_str());
        string_push_str(report, ":");
        push_decimal(report, f.line_start as u64);
        string_push_str(report, "-");
        push_decimal(report, f.line_end as u64);
        string_push_str(report, ")\n");
        proof {
            let sub = reg@.subrange(0, i + 1);
            assert(sub.drop_last() =~= reg@.subrange(0, i as int));
            assert(sub.last() == reg@[i as int]);
            assert(report@ =~= before + function_line(reg@[i as int].1));
        }
        i = i + 1;
    }
    assert(reg@.subrange(0, reg@.len() as int) =~= reg@);
}

/// Appends the report lines of the registry's files.
pub fn push_file_lines(report: &mut String, files: &Vec<(String, Vec<FunctionInfo>)>, unit: &str)
    ensures
        final(report)@ == old(report)@ + file_lines(files@, unit@),
{
    let ghost start = report@;
    let mut i: usize = 0;
    while i < files.len()
        invariant
            i <= files@.len(),
            report@ == start + file_lines(files@.subrange(0, i as int), unit@),
        decreases files@.len() - i,
    {
        let ghost before = report@;
        string_push_str(report, "  ");
        string_push_str(report, files[i].0.as_str());
        string_push_str(report, ": ");
        push_decimal(report, files[i].1.len() as u64);
        string_push_str(report, " ");
        string_push_str(report, unit);
        string_push_str(report, "\n");
        proof {
            let sub = files@.subrange(0, i + 1);
            assert(sub.drop_last() =~= files@.subrange(0, i as int));
            assert(sub.last() == files@[i as int]);
            assert(report@ =~= before + file_line(files@[i as int], unit@));
        }
        i = i + 1;
    }
    assert(files@.subrange(0, files@.len() as int) =~= files@);
}

} // verus!

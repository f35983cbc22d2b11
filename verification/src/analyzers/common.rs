//! Positions in source, fresh identifiers, and parameter lists.

use vstd::prelude::*;
use crate::cha::types::views;
use crate::text::{split_parts, split_str};
use crate::graph_types::{FunctionInfo, ParameterInfo};

verus! {

/// A position in source: row and column, both counted from 0.
#[derive(Debug, Clone, Copy, PartialEq, Eq, Structural)]
pub struct Position {
    pub row: usize,
    pub column: usize,
}

/// `loc` lies in the box from `start` to `end`: its row and its column each
/// between theirs.
pub open spec fn within(loc: Position, start: Position, end: Position) -> bool {
    start.row <= loc.row <= end.row && start.column <= loc.column <= end.column
}

/// A fresh identifier (`Uuid::new_v4().as_u128()`). It is random: nothing is
/// stated of it.
#[verifier::external_body]
pub fn new_id() -> (res: u128) {
    uuid::Uuid::new_v4().as_u128()
}

/// A white-space character: one of the 25 code points with the Unicode
/// `White_Space` property, which `char::is_whitespace` tests for.
pub open spec fn is_whitespace_char(c: char) -> bool {
    let u = c as u32;
    ||| 0x9 <= u <= 0xD
    ||| u == 0x20 ||| u == 0x85 ||| u == 0xA0 ||| u == 0x1680
    ||| 0x2000 <= u <= 0x200A
    ||| u == 0x2028 ||| u == 0x2029 ||| u == 0x202F ||| u == 0x205F ||| u == 0x3000
}

/// Whether a character is white space.
pub fn char_is_whitespace(c: char) -> (res: bool)
    ensures
        res == is_whitespace_char(c),
{
    let u = c as u32;
    (0x9 <= u && u <= 0xD) || u == 0x20 || u == 0x85 || u == 0xA0 || u == 0x1680
        || (0x2000 <= u && u <= 0x200A)
        || u == 0x2028 || u == 0x2029 || u == 0x202F || u == 0x205F || u == 0x3000
}

/// The characters stripped from the ends: parentheses (`kind` 0) or white
/// space (otherwise).
pub open spec fn stripped(c: char, kind: u8) -> bool {
    if kind == 0 { c == '(' || c == ')' } else { is_whitespace_char(c) }
}

fn is_stripped(c: char, kind: u8) -> (res: bool)
    ensures
        res == stripped(c, kind),
{
    if kind == 0 { c == '(' || c == ')' } else { char_is_whitespace(c) }
}

/// The first position, from `i` on, of a character not stripped.
pub open spec fn lead_end(s: Seq<char>, kind: u8, i: nat) -> nat
    decreases s.len() - i,
{
    if i < s.len() && stripped(s[i as int], kind) { lead_end(s, kind, i + 1) } else { i }
}

/// The position after the last character not stripped, looking from `j`
/// down to `start`.
pub open spec fn trail_start(s: Seq<char>, kind: u8, start: nat, j: nat) -> nat
    decreases j,
{
    if j > start && stripped(s[j - 1], kind) { trail_start(s, kind, start, (j - 1) as nat) } else { j }
}

/// `s` without the stripped characters at either end (`str::trim_matches`).
pub open spec fn strip_ends(s: Seq<char>, kind: u8) -> Seq<char> {
    let a = lead_end(s, kind, 0);
    let a2 = if a <= s.len() { a } else { s.len() };
    s.subrange(a2 as int, trail_start(s, kind, a2, s.len()) as int)
}

proof fn lemma_lead_end(s: Seq<char>, kind: u8, i: nat)
    requires
        i <= s.len(),
    ensures
        i <= lead_end(s, kind, i) <= s.len(),
    decreases s.len() - i,
{
    if i < s.len() && stripped(s[i as int], kind) {
        lemma_lead_end(s, kind, i + 1);
    }
}

proof fn lemma_trail_start(s: Seq<char>, kind: u8, start: nat, j: nat)
    requires
        start <= j <= s.len(),
    ensures
        start <= trail_start(s, kind, start, j) <= j,
    decreases j,
{
    if j > start && stripped(s[j - 1], kind) {
        lemma_trail_start(s, kind, start, (j - 1) as nat);
    }
}

/// `s` without the stripped characters at either end.
pub fn strip_ends_exec(s: &str, kind: u8) -> (res: String)
    ensures
        res@ == strip_ends(s@, kind),
{
    let n = s.unicode_len();
    let mut a: usize = 0;
    while a < n && is_stripped(s.get_char(a), kind)
        invariant
            n == s@.len(),
            a <= n,
            lead_end(s@, kind, 0) == lead_end(s@, kind, a as nat),
        decreases n - a,
    {
        a = a + 1;
    }
    proof { lemma_lead_end(s@, kind, a as nat); }
    let mut b: usize = n;
    while b > a && is_stripped(s.get_char(b - 1), kind)
        invariant
            n == s@.len(),
            a <= b <= n,
            a as nat == lead_end(s@, kind, 0),
            trail_start(s@, kind, a as nat, n as nat) == trail_start(s@, kind, a as nat, b as nat),
        decreases b,
    {
        b = b - 1;
    }
    String::from_str(s.substring_char(a, b))
}

/// Each part with white space stripped from both ends, the empty ones left out.
pub open spec fn trimmed_nonempty(parts: Seq<Seq<char>>) -> Seq<Seq<char>>
    decreases parts.len(),
{
    if parts.len() == 0 {
        Seq::empty()
    } else {
        let rest = trimmed_nonempty(parts.drop_last());
        let t = strip_ends(parts.last(), 1);
        if t.len() > 0 { rest.push(t) } else { rest }
    }
}

/// The parameters of a parenthesised parameter list: parentheses stripped
/// from both ends, split at commas, each part trimmed of white space, the
/// empty parts left out.
pub open spec fn parameter_list(text: Seq<char>) -> Seq<Seq<char>> {
    trimmed_nonempty(split_parts(strip_ends(text, 0), ","@))
}

/// The parts of `text` between occurrences of `sep`, each trimmed of white
/// space, the empty ones left out.
pub fn trimmed_parts(text: &str, sep: &str) -> (res: Vec<String>)
    requires
        sep@.len() > 0,
    ensures
        views(res@) == trimmed_nonempty(split_parts(text@, sep@)),
{
    let parts = split_str(text, sep);
    let ghost ps = views(parts@);
    let mut res: Vec<String> = Vec::new();
    let mut i: usize = 0;
    while i < parts.len()
        invariant
            i <= parts.len(),
            ps == views(parts@),
            views(res@) == trimmed_nonempty(ps.subrange(0, i as int)),
        decreases parts.len() - i,
    {
        let t = strip_ends_exec(parts[i].as_str(), 1);
        proof {
            let s = ps.subrange(0, i + 1);
            assert(s.drop_last() =~= ps.subrange(0, i as int));
            assert(s.last() == parts@[i as int]@);
        }
        if t.as_str().unicode_len() > 0 {
            let ghost prev = res@;
            let ghost tv = t@;
            res.push(t);
            proof { assert(views(res@) =~= views(prev).push(tv)); }
        }
        i = i + 1;
    }
    proof { assert(ps.subrange(0, parts.len() as int) =~= ps); }
    res
}

/// The parameters of a parenthesised parameter list.
pub fn split_parameters(params_text: &str) -> (res: Vec<String>)
    ensures
        views(res@) == parameter_list(params_text@),
{
    let inner = strip_ends_exec(params_text, 0);
    proof { reveal_strlit(","); }
    trimmed_parts(inner.as_str(), ",")
}


/// The text of an optional string, empty when absent (`unwrap_or_default`).
pub open spec fn text_or_empty(s: Option<String>) -> Seq<char> {
    match s {
        Some(t) => t@,
        None => Seq::empty(),
    }
}

/// An optional string's text, or an empty string.
pub fn string_or_empty(s: &Option<String>) -> (res: String)
    ensures
        res@ == text_or_empty(*s),
{
    match s {
        Some(t) => t.clone(),
        None => String::new(),
    }
}

/// `f` describes a function with these fields, its parameters named after
/// `params`, in order, each without type or default value.
pub open spec fn describes_function(
    f: FunctionInfo,
    name: String,
    file_path: Seq<char>,
    line_start: usize,
    line_end: usize,
    namespace: Seq<char>,
    language: Seq<char>,
    signature: Option<String>,
    return_type: Option<String>,
    params: Seq<String>,
) -> bool {
    &&& f.name == name
    &&& f.file_path@ == file_path
    &&& f.line_start == line_start
    &&& f.line_end == line_end
    &&& f.namespace@ == namespace
    &&& f.language@ == language
    &&& f.signature == signature
    &&& f.return_type == return_type
    &&& f.parameters@.len() == params.len()
    &&& forall|j: int| 0 <= j < params.len() ==> (#[trigger] f.parameters@[j]).name == params[j]
        && f.parameters@[j].param_type is None && f.parameters@[j].default_value is None
}

/// One parameter per name, without type or default value.
pub fn parameters_named(params: &Vec<String>) -> (res: Vec<ParameterInfo>)
    ensures
        res@.len() == params@.len(),
        forall|j: int| 0 <= j < params@.len() ==> (#[trigger] res@[j]).name == params@[j]
            && res@[j].param_type is None && res@[j].default_value is None,
{
    let mut res: Vec<ParameterInfo> = Vec::new();
    let mut i: usize = 0;
    while i < params.len()
        invariant
            i <= params.len(),
            res@.len() == i,
            forall|j: int| 0 <= j < i ==> (#[trigger] res@[j]).name == params@[j]
                && res@[j].param_type is None && res@[j].default_value is None,
        decreases params.len() - i,
    {
        res.push(ParameterInfo { name: params[i].clone(), param_type: None, default_value: None });
        i = i + 1;
    }
    res
}

/// Every parameter of a parameter list is non-empty.
pub proof fn law_parameters_nonempty(text: Seq<char>)
    ensures
        forall|i: int| 0 <= i < parameter_list(text).len() ==> (#[trigger] parameter_list(text)[i]).len() > 0,
{
    lemma_trimmed_nonempty(split_parts(strip_ends(text, 0), ","@));
}

proof fn lemma_trimmed_nonempty(parts: Seq<Seq<char>>)
    ensures
        forall|i: int| 0 <= i < trimmed_nonempty(parts).len() ==> (#[trigger] trimmed_nonempty(parts)[i]).len() > 0,
    decreases parts.len(),
{
    if parts.len() > 0 {
        lemma_trimmed_nonempty(parts.drop_last());
        let rest = trimmed_nonempty(parts.drop_last());
        let r = trimmed_nonempty(parts);
        assert forall|i: int| 0 <= i < r.len() implies (#[trigger] r[i]).len() > 0 by {
            if i < rest.len() {
                assert(r[i] == rest[i]);
            }
        }
    }
}

/// The origin of a source file: row 0, column 0.
pub open spec fn origin() -> Position {
    Position { row: 0, column: 0 }
}

/// A node of a syntax tree as the analyzers read it: its kind, its text and
/// the box it spans.
#[derive(Debug)]
pub struct SyntaxNode {
    pub kind: String,
    pub text: String,
    pub start: Position,
    pub end: Position,
}

/// A capture of a query match: the capture's name and the node it caught.
#[derive(Debug)]
pub struct NamedCapture {
    pub capture_name: String,
    pub text: String,
    pub start: Position,
    pub end: Position,
}

/// The position of the first node, from `i` on, of the given kind; -1 when none.
pub open spec fn first_index(nodes: Seq<SyntaxNode>, kind: Seq<char>, i: nat) -> int
    decreases nodes.len() - i,
{
    if i >= nodes.len() {
        -1
    } else if nodes[i as int].kind@ == kind {
        i as int
    } else {
        first_index(nodes, kind, i + 1)
    }
}

/// The position of the last node before `k` of the given kind; -1 when none.
pub open spec fn last_index(nodes: Seq<SyntaxNode>, kind: Seq<char>, k: nat) -> int
    decreases k,
{
    if k == 0 {
        -1
    } else if nodes[k - 1].kind@ == kind {
        k - 1
    } else {
        last_index(nodes, kind, (k - 1) as nat)
    }
}

/// The position of the last capture before `k` with the given name; -1 when none.
pub open spec fn last_capture(caps: Seq<NamedCapture>, name: Seq<char>, k: nat) -> int
    decreases k,
{
    if k == 0 {
        -1
    } else if caps[k - 1].capture_name@ == name {
        k - 1
    } else {
        last_capture(caps, name, (k - 1) as nat)
    }
}

/// Finds the first node of a kind.
pub fn first_node_of_kind(nodes: &Vec<SyntaxNode>, kind: &str) -> (res: Option<usize>)
    ensures
        match res {
            Some(i) => i < nodes@.len() && first_index(nodes@, kind@, 0) == i,
            None => first_index(nodes@, kind@, 0) == -1,
        },
{
    let mut i: usize = 0;
    while i < nodes.len()
        invariant
            i <= nodes@.len(),
            first_index(nodes@, kind@, 0) == first_index(nodes@, kind@, i as nat),
        decreases nodes.len() - i,
    {
        if crate::text::str_eq(&nodes[i].kind, kind) {
            return Some(i);
        }
        i = i + 1;
    }
    None
}

/// Finds the last node of a kind.
pub fn last_node_of_kind(nodes: &Vec<SyntaxNode>, kind: &str) -> (res: Option<usize>)
    ensures
        match res {
            Some(i) => i < nodes@.len() && last_index(nodes@, kind@, nodes@.len()) == i,
            None => last_index(nodes@, kind@, nodes@.len()) == -1,
        },
{
    let mut found: Option<usize> = None;
    let mut i: usize = 0;
    while i < nodes.len()
        invariant
            i <= nodes@.len(),
            match found {
                Some(j) => j < i && last_index(nodes@, kind@, i as nat) == j,
                None => last_index(nodes@, kind@, i as nat) == -1,
            },
        decreases nodes.len() - i,
    {
        if crate::text::str_eq(&nodes[i].kind, kind) {
            found = Some(i);
        }
        i = i + 1;
    }
    found
}

/// Finds the last capture of a name.
pub fn last_capture_named(caps: &Vec<NamedCapture>, name: &str) -> (res: Option<usize>)
    ensures
        match res {
            Some(i) => i < caps@.len() && last_capture(caps@, name@, caps@.len()) == i,
            None => last_capture(caps@, name@, caps@.len()) == -1,
        },
{
    let mut found: Option<usize> = None;
    let mut i: usize = 0;
    while i < caps.len()
        invariant
            i <= caps@.len(),
            match found {
                Some(j) => j < i && last_capture(caps@, name@, i as nat) == j,
                None => last_capture(caps@, name@, i as nat) == -1,
            },
        decreases caps.len() - i,
    {
        if crate::text::str_eq(&caps[i].capture_name, name) {
            found = Some(i);
        }
        i = i + 1;
    }
    found
}

} // verus!

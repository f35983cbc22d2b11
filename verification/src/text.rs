//! Small text utilities used when the analysis reports results as strings.

use vstd::prelude::*;

verus! {

/// The decimal digit character for `d` (`d < 10`).
pub open spec fn digit_char(d: nat) -> char {
    if d == 0 { '0' }
    else if d == 1 { '1' }
    else if d == 2 { '2' }
    else if d == 3 { '3' }
    else if d == 4 { '4' }
    else if d == 5 { '5' }
    else if d == 6 { '6' }
    else if d == 7 { '7' }
    else if d == 8 { '8' }
    else { '9' }
}

/// The decimal representation of `n`, without leading zeros (`"0"` for zero).
pub open spec fn decimal(n: nat) -> Seq<char>
    decreases n,
{
    if n < 10 {
        seq![digit_char(n)]
    } else {
        decimal(n / 10).push(digit_char(n % 10))
    }
}

/// Appends one character to a string (`String::push`).
#[verifier::external_body]
pub fn string_push(s: &mut String, c: char)
    ensures
        final(s)@ == old(s)@.push(c),
{
    s.push(c)
}

/// Appends a string slice to a string (`String::push_str`).
#[verifier::external_body]
pub fn string_push_str(s: &mut String, t: &str)
    ensures
        final(s)@ == old(s)@ + t@,
{
    s.push_str(t)
}

fn digit_of(d: u64) -> (c: char)
    requires
        d < 10,
    ensures
        c == digit_char(d as nat),
{
    if d == 0 { '0' }
    else if d == 1 { '1' }
    else if d == 2 { '2' }
    else if d == 3 { '3' }
    else if d == 4 { '4' }
    else if d == 5 { '5' }
    else if d == 6 { '6' }
    else if d == 7 { '7' }
    else if d == 8 { '8' }
    else { '9' }
}

/// Appends the decimal representation of `n` to `s`.
pub fn push_decimal(s: &mut String, n: u64)
    ensures
        final(s)@ == old(s)@ + decimal(n as nat),
    decreases n,
{
    if n < 10 {
        string_push(s, digit_of(n));
        assert(decimal(n as nat) == seq![digit_char(n as nat)]);
    } else {
        push_decimal(s, n / 10);
        string_push(s, digit_of(n % 10));
        assert(decimal(n as nat) == decimal((n / 10) as nat).push(digit_char((n % 10) as nat)));
    }
}

/// The decimal representation of `n` as a new string.
pub fn usize_to_decimal(n: usize) -> (res: String)
    ensures
        res@ == decimal(n as nat),
{
    let mut s = String::new();
    push_decimal(&mut s, n as u64);
    s
}


/// Whether a string holds exactly the characters of `b`.
pub fn str_eq(a: &String, b: &str) -> (res: bool)
    ensures
        res == (a@ == b@),
{
    *a == String::from_str(b)
}

/// The strings of `parts` one after the other, `sep` between each two.
pub open spec fn joined(parts: Seq<Seq<char>>, sep: Seq<char>) -> Seq<char>
    decreases parts.len(),
{
    if parts.len() == 0 {
        Seq::empty()
    } else if parts.len() == 1 {
        parts[0]
    } else {
        joined(parts.drop_last(), sep) + sep + parts.last()
    }
}

/// `parts[start..end]` joined with `sep` between each two (`[&str]::join`).
pub fn join_range(parts: &Vec<String>, start: usize, end: usize, sep: &str) -> (res: String)
    requires
        start <= end <= parts@.len(),
    ensures
        res@ == joined(crate::cha::types::views(parts@).subrange(start as int, end as int), sep@),
{
    let ghost vs = crate::cha::types::views(parts@);
    let mut res = String::new();
    let mut i: usize = start;
    while i < end
        invariant
            start <= i <= end <= parts@.len(),
            vs == crate::cha::types::views(parts@),
            res@ == joined(vs.subrange(start as int, i as int), sep@),
        decreases end - i,
    {
        proof {
            let s1 = vs.subrange(start as int, i + 1);
            assert(s1.drop_last() =~= vs.subrange(start as int, i as int));
            assert(s1.last() == parts@[i as int]@);
            if i == start {
                assert(vs.subrange(start as int, i as int).len() == 0);
            }
        }
        if i > start {
            string_push_str(&mut res, sep);
        }
        string_push_str(&mut res, parts[i].as_str());
        i = i + 1;
    }
    res
}

/// A line without one carriage return at its end, if it has one.
pub open spec fn without_cr(line: Seq<char>) -> Seq<char> {
    if line.len() > 0 && line.last() == '\r' { line.drop_last() } else { line }
}

/// What `str::lines` makes of a text, as its documentation says: the text
/// split at each line feed, a carriage return just before a line feed
/// removed with it, and no line after a final line feed (so none at all for
/// an empty text).
pub open spec fn lines_of(text: Seq<char>) -> Seq<Seq<char>> {
    let parts = split_parts(text, seq!['\n']);
    let n = parts.len();
    let ended = Seq::new((n - 1) as nat, |i: int| without_cr(parts[i]));
    if parts[n - 1].len() == 0 { ended } else { ended.push(parts[n - 1]) }
}

/// `str::lines`, each line copied into a `String`. Its contract is what the
/// documentation of `str::lines` states.
#[verifier::external_body]
pub fn text_lines(text: &str) -> (res: Vec<String>)
    ensures
        crate::cha::types::views(res@) == lines_of(text@),
{
    let mut res = Vec::new();
    for line in text.lines() {
        res.push(line.to_string());
    }
    res
}

/// What `str::to_lowercase` makes of a text.
pub uninterp spec fn lowercase_of(text: Seq<char>) -> Seq<char>;

/// `str::to_lowercase`.
#[verifier::external_body]
pub fn to_lowercase(text: &str) -> (res: String)
    ensures
        res@ == lowercase_of(text@),
{
    text.to_lowercase()
}


/// The first position, from `i` on, at which `sep` occurs in `s`; -1 when
/// there is none.
pub open spec fn find_from(s: Seq<char>, sep: Seq<char>, i: nat) -> int
    decreases s.len() - i,
{
    if i + sep.len() > s.len() {
        -1
    } else if s.subrange(i as int, (i + sep.len()) as int) == sep {
        i as int
    } else if i >= s.len() {
        -1
    } else {
        find_from(s, sep, i + 1)
    }
}

/// The parts of `s` between the occurrences of `sep` (`str::split` with a
/// non-empty pattern): leftmost occurrences first, empty parts kept.
pub open spec fn split_parts(s: Seq<char>, sep: Seq<char>) -> Seq<Seq<char>>
    decreases s.len(),
{
    let p = find_from(s, sep, 0);
    if sep.len() == 0 || p < 0 {
        seq![s]
    } else {
        proof { lemma_find_from(s, sep, 0); }
        seq![s.subrange(0, p)] + split_parts(s.subrange(p + sep.len(), s.len() as int), sep)
    }
}

/// `find_from` lies between `i` and the end.
pub proof fn lemma_find_from(s: Seq<char>, sep: Seq<char>, i: nat)
    ensures
        find_from(s, sep, i) == -1 || (i <= find_from(s, sep, i) && find_from(s, sep, i) + sep.len() <= s.len()),
    decreases s.len() - i,
{
    if i + sep.len() <= s.len() && s.subrange(i as int, (i + sep.len()) as int) != sep && i < s.len() {
        lemma_find_from(s, sep, i + 1);
    }
}

/// The first position at which `sep` occurs in `s`.
pub fn find_first(s: &str, sep: &str) -> (res: Option<usize>)
    ensures
        match res {
            Some(p) => p as int == find_from(s@, sep@, 0),
            None => find_from(s@, sep@, 0) == -1,
        },
{
    let n = s.unicode_len();
    let k = sep.unicode_len();
    let target = String::from_str(sep);
    if k > n {
        return None;
    }
    if k == 0 {
        proof { assert(s@.subrange(0, 0) =~= sep@); }
        return Some(0);
    }
    let mut i: usize = 0;
    while i <= n - k
        invariant
            n == s@.len(),
            k == sep@.len(),
            1 <= k <= n,
            i <= n - k + 1,
            target@ == sep@,
            find_from(s@, sep@, 0) == find_from(s@, sep@, i as nat),
        decreases n - k + 1 - i,
    {
        let piece = String::from_str(s.substring_char(i, i + k));
        if piece == target {
            return Some(i);
        }
        proof {
            assert(find_from(s@, sep@, i as nat) == find_from(s@, sep@, (i + 1) as nat));
        }
        i = i + 1;
    }
    None
}

/// The parts of `s` between the occurrences of `sep`.
pub fn split_str(s: &str, sep: &str) -> (res: Vec<String>)
    requires
        sep@.len() > 0,
    ensures
        crate::cha::types::views(res@) == split_parts(s@, sep@),
    decreases s@.len(),
{
    let mut res: Vec<String> = Vec::new();
    match find_first(s, sep) {
        None => {
            res.push(String::from_str(s));
            proof {
                assert(crate::cha::types::views(res@) =~= seq![s@]);
            }
        },
        Some(p) => {
            proof { lemma_find_from(s@, sep@, 0); }
            let n = s.unicode_len();
            let k = sep.unicode_len();
            let head = String::from_str(s.substring_char(0, p));
            let rest = s.substring_char(p + k, n);
            let tail = split_str(rest, sep);
            res.push(head);
            let mut j: usize = 0;
            while j < tail.len()
                invariant
                    j <= tail.len(),
                    crate::cha::types::views(res@) == seq![s@.subrange(0, p as int)]
                        + crate::cha::types::views(tail@).subrange(0, j as int),
                decreases tail.len() - j,
            {
                let ghost prev = res@;
                res.push(tail[j].clone());
                proof {
                    assert(crate::cha::types::views(res@) =~= crate::cha::types::views(prev).push(tail@[j as int]@));
                    assert(crate::cha::types::views(tail@)[j as int] == tail@[j as int]@);
                    assert(crate::cha::types::views(res@) =~= seq![s@.subrange(0, p as int)]
                        + crate::cha::types::views(tail@).subrange(0, j + 1));
                }
                j = j + 1;
            }
            proof {
                assert(crate::cha::types::views(tail@).subrange(0, tail.len() as int) =~= crate::cha::types::views(tail@));
            }
        },
    }
    res
}

} // verus!

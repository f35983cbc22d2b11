//! Identifier lists kept sorted and free of repeats (what `sort` followed by
//! `dedup` makes of a list).

use vstd::prelude::*;

verus! {

/// Strictly increasing.
pub open spec fn strictly_sorted(s: Seq<u128>) -> bool {
    forall|i: int, j: int| 0 <= i < j < s.len() ==> s[i] < s[j]
}

/// `s` with `x` put in its place, unless `s` already holds it.
pub open spec fn sorted_insert(s: Seq<u128>, x: u128) -> Seq<u128>
    decreases s.len(),
{
    if s.len() == 0 {
        seq![x]
    } else if x < s[0] {
        seq![x] + s
    } else if x == s[0] {
        s
    } else {
        seq![s[0]] + sorted_insert(s.drop_first(), x)
    }
}

/// The elements of `s` in increasing order, each once.
pub open spec fn sort_dedup(s: Seq<u128>) -> Seq<u128>
    decreases s.len(),
{
    if s.len() == 0 {
        Seq::empty()
    } else {
        sorted_insert(sort_dedup(s.drop_last()), s.last())
    }
}

/// Inserting keeps the sequence sorted and adds exactly `x`.
pub proof fn lemma_sorted_insert(s: Seq<u128>, x: u128)
    requires
        strictly_sorted(s),
    ensures
        strictly_sorted(sorted_insert(s, x)),
        forall|y: u128| #[trigger] sorted_insert(s, x).contains(y) <==> (s.contains(y) || y == x),
    decreases s.len(),
{
    let r = sorted_insert(s, x);
    if s.len() == 0 {
        assert(r[0] == x);
    } else if x < s[0] {
        assert forall|y: u128| r.contains(y) <==> (s.contains(y) || y == x) by {
            if s.contains(y) {
                let j = choose|j: int| 0 <= j < s.len() && s[j] == y;
                assert(r[j + 1] == y);
            }
            if r.contains(y) && y != x {
                let j = choose|j: int| 0 <= j < r.len() && r[j] == y;
                assert(s[j - 1] == y);
            }
            if y == x {
                assert(r[0] == x);
            }
        }
    } else if x == s[0] {
    } else {
        let t = s.drop_first();
        assert(strictly_sorted(t));
        lemma_sorted_insert(t, x);
        let ti = sorted_insert(t, x);
        assert(r == seq![s[0]] + ti);
        assert forall|i: int, j: int| 0 <= i < j < r.len() implies r[i] < r[j] by {
            if i == 0 {
                assert(ti.contains(r[j]));
                if t.contains(r[j]) {
                    let k = choose|k: int| 0 <= k < t.len() && t[k] == r[j];
                    assert(s[k + 1] == r[j]);
                }
            } else {
                assert(r[i] == ti[i - 1] && r[j] == ti[j - 1]);
            }
        }
        assert forall|y: u128| r.contains(y) <==> (s.contains(y) || y == x) by {
            if s.contains(y) {
                let j = choose|j: int| 0 <= j < s.len() && s[j] == y;
                if j == 0 {
                    assert(r[0] == y);
                } else {
                    assert(t[j - 1] == y);
                    assert(t.contains(y));
                    assert(ti.contains(y));
                    let k = choose|k: int| 0 <= k < ti.len() && ti[k] == y;
                    assert(r[k + 1] == y);
                }
            }
            if y == x {
                assert(ti.contains(x));
                let k = choose|k: int| 0 <= k < ti.len() && ti[k] == x;
                assert(r[k + 1] == x);
            }
            if r.contains(y) {
                let j = choose|j: int| 0 <= j < r.len() && r[j] == y;
                if j == 0 {
                    assert(s[0] == y);
                } else {
                    assert(ti[j - 1] == y);
                    assert(ti.contains(y));
                    if t.contains(y) {
                        let k = choose|k: int| 0 <= k < t.len() && t[k] == y;
                        assert(s[k + 1] == y);
                    }
                }
            }
        }
    }
}

/// `sort_dedup` is sorted and holds exactly the elements of `s`.
pub proof fn lemma_sort_dedup(s: Seq<u128>)
    ensures
        strictly_sorted(sort_dedup(s)),
        forall|y: u128| #[trigger] sort_dedup(s).contains(y) <==> s.contains(y),
    decreases s.len(),
{
    if s.len() > 0 {
        let init = s.drop_last();
        lemma_sort_dedup(init);
        lemma_sorted_insert(sort_dedup(init), s.last());
        assert forall|y: u128| sort_dedup(s).contains(y) <==> s.contains(y) by {
            if init.contains(y) {
                let j = choose|j: int| 0 <= j < init.len() && init[j] == y;
                assert(s[j] == y);
            }
            if s.contains(y) && y != s.last() {
                let j = choose|j: int| 0 <= j < s.len() && s[j] == y;
                assert(init[j] == y);
            }
            if y == s.last() {
                assert(s[s.len() - 1] == y);
            }
        }
    }
}

/// Where `sorted_insert` puts `x`: before the first element not below it.
pub proof fn lemma_sorted_insert_at(s: Seq<u128>, x: u128, p: int)
    requires
        strictly_sorted(s),
        0 <= p <= s.len(),
        forall|j: int| 0 <= j < p ==> s[j] < x,
        p < s.len() ==> s[p] >= x,
    ensures
        sorted_insert(s, x) == if p < s.len() && s[p] == x { s } else { s.insert(p, x) },
    decreases s.len(),
{
    if s.len() == 0 {
        assert(s.insert(p, x) =~= seq![x]);
    } else if p == 0 {
        if x < s[0] {
            assert(s.insert(0, x) =~= seq![x] + s);
        }
    } else {
        let t = s.drop_first();
        lemma_sorted_insert_at(t, x, p - 1);
        if p - 1 < t.len() && t[p - 1] == x {
        } else {
            assert(s.insert(p, x) =~= seq![s[0]] + t.insert(p - 1, x));
        }
    }
}

/// Inserts `x` into the sorted list unless it is there already.
pub fn insert_sorted(v: &mut Vec<u128>, x: u128)
    requires
        strictly_sorted(old(v)@),
    ensures
        final(v)@ == sorted_insert(old(v)@, x),
        strictly_sorted(final(v)@),
{
    proof { lemma_sorted_insert(v@, x); }
    let mut p: usize = 0;
    while p < v.len() && v[p] < x
        invariant
            p <= v.len(),
            forall|j: int| 0 <= j < p ==> v@[j] < x,
        decreases v.len() - p,
    {
        p = p + 1;
    }
    proof { lemma_sorted_insert_at(v@, x, p as int); }
    if p < v.len() && v[p] == x {
    } else {
        v.insert(p, x);
    }
}

/// The elements of `s` in increasing order, each once (`sort` then `dedup`).
pub fn sorted_unique(s: &Vec<u128>) -> (res: Vec<u128>)
    ensures
        res@ == sort_dedup(s@),
{
    let mut res: Vec<u128> = Vec::new();
    let mut i: usize = 0;
    while i < s.len()
        invariant
            i <= s.len(),
            res@ == sort_dedup(s@.subrange(0, i as int)),
        decreases s.len() - i,
    {
        proof {
            lemma_sort_dedup(s@.subrange(0, i as int));
            assert(s@.subrange(0, i + 1).drop_last() =~= s@.subrange(0, i as int));
        }
        insert_sorted(&mut res, s[i]);
        i = i + 1;
    }
    proof { assert(s@.subrange(0, s.len() as int) =~= s@); }
    res
}

} // verus!

//! Tables keyed by name: a list of entries, where a lookup finds the first
//! entry of that name.

use vstd::prelude::*;

verus! {

/// The value of the first entry whose key is `key`, if any.
pub open spec fn lookup<T>(entries: Seq<(String, T)>, key: Seq<char>) -> Option<T> {
    if exists|i: int| 0 <= i < entries.len() && (#[trigger] entries[i]).0@ == key {
        let i = choose|i: int|
            0 <= i < entries.len() && (#[trigger] entries[i]).0@ == key
                && forall|j: int| 0 <= j < i ==> entries[j].0@ != key;
        Some(entries[i].1)
    } else {
        None
    }
}

/// The position of the first entry whose key is `key`.
pub fn entry_index<T>(entries: &Vec<(String, T)>, key: &String) -> (res: Option<usize>)
    ensures
        match res {
            Some(i) => i < entries@.len() && entries@[i as int].0@ == key@
                && forall|j: int| 0 <= j < i ==> entries@[j].0@ != key@,
            None => forall|j: int| 0 <= j < entries@.len() ==> entries@[j].0@ != key@,
        },
        match res {
            Some(i) => lookup(entries@, key@) == Some(entries@[i as int].1),
            None => lookup(entries@, key@) is None,
        },
{
    let mut i: usize = 0;
    while i < entries.len()
        invariant
            i <= entries.len(),
            forall|j: int| 0 <= j < i ==> entries@[j].0@ != key@,
        decreases entries.len() - i,
    {
        if entries[i].0 == *key {
            proof {
                let s = entries@;
                assert(0 <= i < s.len() && s[i as int].0@ == key@);
                let c = choose|c: int|
                    0 <= c < s.len() && (#[trigger] s[c]).0@ == key@
                        && forall|j: int| 0 <= j < c ==> s[j].0@ != key@;
                assert(c == i as int) by {
                    if c < i as int {
                        assert(s[c].0@ != key@);
                    } else if c > i as int {
                        assert(s[i as int].0@ != key@);
                    }
                }
            }
            return Some(i);
        }
        i = i + 1;
    }
    None
}


/// Tables whose keys read the same, position by position, and whose entries
/// under `k` hold the same values, give the same lookup of `k`.
pub proof fn lemma_lookup_same<T>(a: Seq<(String, T)>, b: Seq<(String, T)>, k: Seq<char>)
    requires
        a.len() == b.len(),
        forall|i: int| 0 <= i < a.len() ==> (#[trigger] a[i]).0@ == b[i].0@,
        forall|i: int| 0 <= i < a.len() && (#[trigger] a[i]).0@ == k ==> a[i].1 == b[i].1,
    ensures
        lookup(a, k) == lookup(b, k),
{
    if exists|i: int| 0 <= i < a.len() && (#[trigger] a[i]).0@ == k {
        let w = choose|i: int| 0 <= i < a.len() && (#[trigger] a[i]).0@ == k;
        assert(b[w].0@ == k);
        let ia = choose|i: int|
            0 <= i < a.len() && (#[trigger] a[i]).0@ == k
                && forall|j: int| 0 <= j < i ==> a[j].0@ != k;
        let ib = choose|i: int|
            0 <= i < b.len() && (#[trigger] b[i]).0@ == k
                && forall|j: int| 0 <= j < i ==> b[j].0@ != k;
        lemma_first_exists(a, k, w);
        lemma_first_exists(b, k, w);
        assert(a[ib].0@ == k);
        assert(b[ia].0@ == k);
        if ia < ib {
            assert(b[ia].0@ != k);
        } else if ib < ia {
            assert(a[ib].0@ != k);
        }
        assert(ia == ib);
    } else {
        assert forall|i: int| 0 <= i < b.len() implies (#[trigger] b[i]).0@ != k by {
            assert(a[i].0@ != k);
        }
    }
}

/// Where some entry has key `k`, a first one has.
pub proof fn lemma_first_exists<T>(a: Seq<(String, T)>, k: Seq<char>, w: int)
    requires
        0 <= w < a.len(),
        a[w].0@ == k,
    ensures
        exists|i: int|
            0 <= i < a.len() && (#[trigger] a[i]).0@ == k
                && forall|j: int| 0 <= j < i ==> a[j].0@ != k,
    decreases w,
{
    if exists|j: int| 0 <= j < w && (#[trigger] a[j]).0@ == k {
        let j = choose|j: int| 0 <= j < w && (#[trigger] a[j]).0@ == k;
        lemma_first_exists(a, k, j);
    } else {
        assert(forall|j: int| 0 <= j < w ==> a[j].0@ != k);
    }
}

/// An entry added at the end is found under its key when no earlier entry has
/// that key, and changes no lookup of another key.
pub proof fn lemma_lookup_push<T>(a: Seq<(String, T)>, e: (String, T), k: Seq<char>)
    ensures
        k != e.0@ ==> lookup(a.push(e), k) == lookup(a, k),
        (k == e.0@ && lookup(a, k) is None) ==> lookup(a.push(e), k) == Some(e.1),
{
    let b = a.push(e);
    if k != e.0@ {
        if exists|i: int| 0 <= i < a.len() && (#[trigger] a[i]).0@ == k {
            let w = choose|i: int| 0 <= i < a.len() && (#[trigger] a[i]).0@ == k;
            assert(b[w] == a[w]);
            lemma_first_exists(a, k, w);
            lemma_first_exists(b, k, w);
            let ia = choose|i: int|
                0 <= i < a.len() && (#[trigger] a[i]).0@ == k
                    && forall|j: int| 0 <= j < i ==> a[j].0@ != k;
            let ib = choose|i: int|
                0 <= i < b.len() && (#[trigger] b[i]).0@ == k
                    && forall|j: int| 0 <= j < i ==> b[j].0@ != k;
            if ib == a.len() {
                assert(b[ib].0@ == e.0@);
            }
            assert(b[ia] == a[ia]);
            assert(a[ib] == b[ib]);
            if ia < ib {
                assert(b[ia].0@ != k);
            } else if ib < ia {
                assert(a[ib].0@ != k);
            }
        } else {
            assert forall|i: int| 0 <= i < b.len() implies (#[trigger] b[i]).0@ != k by {
                if i < a.len() {
                    assert(b[i] == a[i]);
                } else {
                    assert(b[i] == e);
                }
            }
        }
    } else if lookup(a, k) is None {
        let n = a.len() as int;
        assert(b[n] == e);
        assert forall|j: int| 0 <= j < n implies b[j].0@ != k by {
            assert(b[j] == a[j]);
        }
        let ib = choose|i: int|
            0 <= i < b.len() && (#[trigger] b[i]).0@ == k
                && forall|j: int| 0 <= j < i ==> b[j].0@ != k;
        if ib < n {
            assert(b[ib] == a[ib]);
        }
        assert(ib == n);
    }
}

/// The keys of a table, in order.
pub open spec fn table_keys<T>(entries: Seq<(String, T)>) -> Seq<Seq<char>> {
    entries.map_values(|e: (String, T)| e.0@)
}

/// The keys after putting `key`: unchanged when it is there, else with `key` at the end.
pub open spec fn keys_put(keys: Seq<Seq<char>>, key: Seq<char>) -> Seq<Seq<char>> {
    if keys.contains(key) { keys } else { keys.push(key) }
}

/// Puts `value` under `key`: in the first entry of that name, or in a new
/// entry at the end when there is none.
pub fn table_insert<T>(entries: &mut Vec<(String, T)>, key: String, value: T)
    ensures
        lookup(final(entries)@, key@) == Some(value),
        table_keys(final(entries)@) == keys_put(table_keys(old(entries)@), key@),
        forall|k: Seq<char>| k != key@ ==> #[trigger] lookup(final(entries)@, k) == lookup(old(entries)@, k),
{
    let ghost old_entries = entries@;
    let ghost kv = key@;
    match entry_index(entries, &key) {
        Some(i) => {
            entries.set(i, (key, value));
            proof {
                assert(table_keys(old_entries)[i as int] == kv);
                assert(table_keys(entries@) =~= table_keys(old_entries));
                let b = entries@;
                assert forall|k: Seq<char>| k != kv implies #[trigger] lookup(b, k) == lookup(old_entries, k) by {
                    assert forall|j: int| 0 <= j < old_entries.len() && (#[trigger] old_entries[j]).0@ == k
                        implies old_entries[j].1 == b[j].1 by {
                        assert(j != i);
                    }
                    lemma_lookup_same(old_entries, b, k);
                }
                lemma_first_exists(b, kv, i as int);
                let ib = choose|x: int|
                    0 <= x < b.len() && (#[trigger] b[x]).0@ == kv
                        && forall|j: int| 0 <= j < x ==> b[j].0@ != kv;
                if ib < i {
                    assert(old_entries[ib] == b[ib]);
                } else if ib > i {
                    assert(b[i as int].0@ != kv);
                }
            }
        },
        None => {
            entries.push((key, value));
            proof {
                assert(!table_keys(old_entries).contains(kv)) by {
                    if table_keys(old_entries).contains(kv) {
                        let w = choose|w: int| 0 <= w < table_keys(old_entries).len() && table_keys(old_entries)[w] == kv;
                        assert(old_entries[w].0@ == kv);
                    }
                }
                assert(table_keys(entries@) =~= table_keys(old_entries).push(kv));
                assert forall|k: Seq<char>| k != kv implies #[trigger] lookup(entries@, k) == lookup(old_entries, k) by {
                    lemma_lookup_push(old_entries, (key, value), k);
                }
                lemma_lookup_push(old_entries, (key, value), kv);
            }
        },
    }
}

/// Putting a key keeps the keys of a table distinct: a table filled only by
/// `table_insert` never holds a key twice.
pub proof fn law_put_keeps_keys_distinct(keys: Seq<Seq<char>>, key: Seq<char>)
    requires
        keys.no_duplicates(),
    ensures
        keys_put(keys, key).no_duplicates(),
        keys_put(keys, key).contains(key),
{
    if !keys.contains(key) {
        let k2 = keys.push(key);
        assert forall|i: int, j: int| 0 <= i < k2.len() && 0 <= j < k2.len() && i != j implies k2[i] != k2[j] by {
            if i < keys.len() && j < keys.len() {
                assert(k2[i] == keys[i] && k2[j] == keys[j]);
            } else if i < keys.len() {
                assert(k2[i] == keys[i]);
            } else {
                assert(k2[j] == keys[j]);
            }
        }
        assert(k2[keys.len() as int] == key);
    }
}

} // verus!

//! Small string-keyed tables kept as vectors of pairs.
//!
//! Behavior tables and entity data tables are append-mostly, keyed by
//! name, and must keep their keys distinct; this module gives them one
//! shared vocabulary: a key-membership predicate, a lookup function, and a
//! verified key search.

use vstd::prelude::*;

verus! {

/// Whether the table holds an entry under key `k`.
pub open spec fn has_key<T>(s: Seq<(String, T)>, k: Seq<char>) -> bool {
    exists|i: int| 0 <= i < s.len() && s[i].0@ == k
}

/// No two entries share a key.
pub open spec fn distinct_keys<T>(s: Seq<(String, T)>) -> bool {
    forall|i: int, j: int| 0 <= i < j < s.len() ==> s[i].0@ != s[j].0@
}

/// The value stored under key `k`, when the table has one. Unambiguous on
/// tables with distinct keys.
pub open spec fn lookup<T>(s: Seq<(String, T)>, k: Seq<char>) -> Option<T> {
    if has_key(s, k) {
        Some(s[choose|i: int| 0 <= i < s.len() && s[i].0@ == k].1)
    } else {
        None
    }
}

/// Find the index holding key `k`, if any.
pub fn find_key<T>(s: &Vec<(String, T)>, k: &String) -> (r: Option<usize>)
    ensures
        r matches Some(i) ==> i < s@.len() && s@[i as int].0@ == k@,
        r is None ==> !has_key(s@, k@),
{
    let mut i: usize = 0;
    while i < s.len()
        invariant
            i <= s@.len(),
            forall|j: int| 0 <= j < i ==> s@[j].0@ != k@,
        decreases s@.len() - i,
    {
        if s[i].0 == *k {
            return Some(i);
        }
        i = i + 1;
    }
    None
}

/// On a table with distinct keys, whatever index holds key `k` is the
/// index `lookup` speaks of.
pub proof fn lemma_lookup_at<T>(s: Seq<(String, T)>, k: Seq<char>, i: int)
    requires
        distinct_keys(s),
        0 <= i < s.len(),
        s[i].0@ == k,
    ensures
        lookup(s, k) == Some(s[i].1),
{
    assert(has_key(s, k));
    let ci = choose|j: int| 0 <= j < s.len() && s[j].0@ == k;
    if ci != i {
        assert(s[ci].0@ != s[i].0@ || !distinct_keys(s));
    }
}

/// Replacing the entry at index `i` by one under the same key (as a
/// sequence of characters) leaves every other key's lookup alone and binds
/// that key to the new value.
pub proof fn lemma_lookup_update<T>(s: Seq<(String, T)>, i: int, key: String, v: T)
    requires
        distinct_keys(s),
        0 <= i < s.len(),
        key@ == s[i].0@,
    ensures
        distinct_keys(s.update(i, (key, v))),
        lookup(s.update(i, (key, v)), key@) == Some(v),
        forall|k2: Seq<char>| k2 != key@ ==> lookup(s.update(i, (key, v)), k2) == lookup(s, k2),
{
    let s2 = s.update(i, (key, v));
    assert(forall|j: int| 0 <= j < s.len() ==> s2[j].0@ == s[j].0@);
    lemma_lookup_at(s2, key@, i);
    assert forall|k2: Seq<char>| k2 != key@ implies lookup(s2, k2) == lookup(s, k2) by {
        assert(has_key(s2, k2) == has_key(s, k2));
        if has_key(s, k2) {
            let j = choose|j: int| 0 <= j < s.len() && s[j].0@ == k2;
            lemma_lookup_at(s, k2, j);
            lemma_lookup_at(s2, k2, j);
        }
    }
}

/// Appending an entry under a fresh key keeps the keys distinct, binds the
/// new key, and leaves every other key's lookup alone.
pub proof fn lemma_lookup_push<T>(s: Seq<(String, T)>, key: String, v: T)
    requires
        distinct_keys(s),
        !has_key(s, key@),
    ensures
        distinct_keys(s.push((key, v))),
        lookup(s.push((key, v)), key@) == Some(v),
        forall|k2: Seq<char>| k2 != key@ ==> lookup(s.push((key, v)), k2) == lookup(s, k2),
{
    let s2 = s.push((key, v));
    assert(forall|j: int| 0 <= j < s.len() ==> s2[j] == s[j]);
    lemma_lookup_at(s2, key@, s.len() as int);
    assert forall|k2: Seq<char>| k2 != key@ implies lookup(s2, k2) == lookup(s, k2) by {
        assert(has_key(s2, k2) == has_key(s, k2));
        if has_key(s, k2) {
            let j = choose|j: int| 0 <= j < s.len() && s[j].0@ == k2;
            lemma_lookup_at(s, k2, j);
            lemma_lookup_at(s2, k2, j);
        }
    }
}

} // verus!

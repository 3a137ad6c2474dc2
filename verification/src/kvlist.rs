//! String-keyed association lists with unique keys.
//!
//! The persistent store's tables are small key-value maps; this module
//! gives them one verified representation: a vector of pairs whose keys
//! are pairwise distinct, looked up and updated by linear scan.

use vstd::prelude::*;

use crate::textutil::str_eq;

verus! {

/// No two entries share a key.
pub open spec fn unique_keys<V>(s: Seq<(String, V)>) -> bool {
    forall|i: int, j: int| 0 <= i < j < s.len() ==> s[i].0@ != s[j].0@
}

/// The value recorded for a key, scanning from the back; under
/// `unique_keys` the scan direction does not matter.
pub open spec fn lookup<V>(s: Seq<(String, V)>, key: Seq<char>) -> Option<V>
    decreases s.len(),
{
    if s.len() == 0 {
        None
    } else if s.last().0@ == key {
        Some(s.last().1)
    } else {
        lookup(s.drop_last(), key)
    }
}

/// How many entries carry the key.
pub open spec fn count_key<V>(s: Seq<(String, V)>, key: Seq<char>) -> nat
    decreases s.len(),
{
    if s.len() == 0 {
        0
    } else {
        count_key(s.drop_last(), key) + if s.last().0@ == key {
            1nat
        } else {
            0nat
        }
    }
}

/// A key absent from every entry has no recorded value.
pub proof fn lemma_lookup_absent<V>(s: Seq<(String, V)>, key: Seq<char>)
    requires
        forall|i: int| 0 <= i < s.len() ==> s[i].0@ != key,
    ensures
        lookup(s, key) is None,
    decreases s.len(),
{
    if s.len() > 0 {
        lemma_lookup_absent(s.drop_last(), key);
    }
}

/// An entry's value is what lookup finds for its key, when keys are
/// unique.
pub proof fn lemma_lookup_at<V>(s: Seq<(String, V)>, i: int)
    requires
        unique_keys(s),
        0 <= i < s.len(),
    ensures
        lookup(s, s[i].0@) == Some(s[i].1),
    decreases s.len(),
{
    if i == s.len() - 1 {
    } else {
        lemma_lookup_at(s.drop_last(), i);
    }
}

/// Appending an entry with a fresh key records its value and leaves
/// every other key's value as it was.
pub proof fn lemma_lookup_push<V>(s: Seq<(String, V)>, x: (String, V), key: Seq<char>)
    ensures
        lookup(s.push(x), key) == if key == x.0@ {
            Some(x.1)
        } else {
            lookup(s, key)
        },
{
    assert(s.push(x).drop_last() =~= s);
}

/// Replacing the entry at `i` by one with the same key view updates
/// that key's value and leaves every other key's value as it was.
pub proof fn lemma_lookup_update<V>(s: Seq<(String, V)>, i: int, x: (String, V), key: Seq<char>)
    requires
        unique_keys(s),
        0 <= i < s.len(),
        x.0@ == s[i].0@,
    ensures
        lookup(s.update(i, x), key) == if key == x.0@ {
            Some(x.1)
        } else {
            lookup(s, key)
        },
    decreases s.len(),
{
    let t = s.update(i, x);
    if i == s.len() - 1 {
        assert(t.drop_last() =~= s.drop_last());
        if key != x.0@ {
        }
    } else {
        assert(t.drop_last() =~= s.drop_last().update(i, x));
        assert(t.last() == s.last());
        lemma_lookup_update(s.drop_last(), i, x, key);
        lemma_lookup_at(s, i);
    }
}

/// Under unique keys, a key occurs at most once, and exactly once when
/// lookup finds it.
pub proof fn lemma_count_key<V>(s: Seq<(String, V)>, key: Seq<char>)
    requires
        unique_keys(s),
    ensures
        count_key(s, key) <= 1,
        count_key(s, key) == 1 <==> lookup(s, key) is Some,
    decreases s.len(),
{
    if s.len() > 0 {
        lemma_count_key(s.drop_last(), key);
        if s.last().0@ == key {
            lemma_lookup_absent_from_unique(s, key);
        }
    }
}

/// Under unique keys, the key of the last entry is absent from the rest.
proof fn lemma_lookup_absent_from_unique<V>(s: Seq<(String, V)>, key: Seq<char>)
    requires
        unique_keys(s),
        s.len() > 0,
        s.last().0@ == key,
    ensures
        lookup(s.drop_last(), key) is None,
{
    assert forall|i: int| 0 <= i < s.drop_last().len() implies s.drop_last()[i].0@ != key by {
        assert(s.drop_last()[i] == s[i]);
    }
    lemma_lookup_absent(s.drop_last(), key);
}

/// Finds the value recorded for a key.
pub fn kv_lookup<'a, V>(entries: &'a Vec<(String, V)>, key: &str) -> (r: Option<&'a V>)
    requires
        unique_keys(entries@),
    ensures
        match r {
            Some(v) => lookup(entries@, key@) == Some(*v),
            None => lookup(entries@, key@) is None,
        },
{
    let n = entries.len();
    let mut i: usize = 0;
    while i < n
        invariant
            n == entries@.len(),
            unique_keys(entries@),
            0 <= i <= n,
            forall|j: int| 0 <= j < i ==> entries@[j].0@ != key@,
        decreases n - i,
    {
        if str_eq(entries[i].0.as_str(), key) {
            proof {
                lemma_lookup_at(entries@, i as int);
            }
            return Some(&entries[i].1);
        }
        i = i + 1;
    }
    proof {
        lemma_lookup_absent(entries@, key@);
    }
    None
}

/// Records a value for a key: overwrites the entry if the key is
/// present, appends one otherwise.  Every other key keeps its value.
pub fn kv_upsert<V>(entries: &mut Vec<(String, V)>, key: &str, value: V)
    requires
        unique_keys(old(entries)@),
    ensures
        unique_keys(final(entries)@),
        lookup(final(entries)@, key@) == Some(value),
        forall|k: Seq<char>| k != key@ ==> lookup(final(entries)@, k) == lookup(old(entries)@, k),
{
    let n = entries.len();
    let mut i: usize = 0;
    while i < n
        invariant
            n == entries@.len(),
            entries@ == old(entries)@,
            unique_keys(entries@),
            0 <= i <= n,
            forall|j: int| 0 <= j < i ==> entries@[j].0@ != key@,
        decreases n - i,
    {
        if str_eq(entries[i].0.as_str(), key) {
            let fresh = String::from_str(key);
            let ghost stored: (String, V) = (fresh, value);
            entries.set(i, (fresh, value));
            proof {
                assert forall|k: Seq<char>|
                    lookup(entries@, k) == if k == key@ {
                        Some(value)
                    } else {
                        lookup(old(entries)@, k)
                    } by {
                    lemma_lookup_update(old(entries)@, i as int, stored, k);
                }
                assert forall|a: int, b: int| 0 <= a < b < entries@.len() implies entries@[a].0@
                    != entries@[b].0@ by {
                    assert(old(entries)@[a].0@ != old(entries)@[b].0@);
                }
            }
            return ;
        }
        i = i + 1;
    }
    let fresh = String::from_str(key);
    let ghost stored: (String, V) = (fresh, value);
    proof {
        assert forall|k: Seq<char>|
            lookup(old(entries)@.push(stored), k) == if k == key@ {
                Some(value)
            } else {
                lookup(old(entries)@, k)
            } by {
            lemma_lookup_push(old(entries)@, stored, k);
        }
    }
    entries.push((fresh, value));
    proof {
        assert forall|a: int, b: int| 0 <= a < b < entries@.len() implies entries@[a].0@
            != entries@[b].0@ by {
            if b < entries@.len() - 1 {
                assert(old(entries)@[a].0@ != old(entries)@[b].0@);
            } else {
                assert(entries@[a].0@ != key@);
            }
        }
    }
}

} // verus!

//! Association lists from account identities to small values.
//!
//! The controller's pause maps and the oracle's price and sybil tables
//! are tiny mappings mutated only through their setters; a first-match
//! association list keeps them fully verified.

use crate::types::AccountId;
use vstd::prelude::*;

verus! {

/// First-match lookup starting at index `i`.
pub open spec fn spec_assoc_lookup_from<V>(
    s: Seq<(AccountId, V)>,
    key: AccountId,
    i: int,
) -> Option<V>
    decreases s.len() - i,
{
    if i < 0 || i >= s.len() {
        None
    } else if s[i].0 == key {
        Some(s[i].1)
    } else {
        spec_assoc_lookup_from(s, key, i + 1)
    }
}

/// First-match lookup over the whole list.
pub open spec fn spec_assoc_lookup<V>(s: Seq<(AccountId, V)>, key: AccountId) -> Option<V> {
    spec_assoc_lookup_from(s, key, 0)
}

/// Overwriting the first entry of a key changes that key's lookup and no
/// other's.
proof fn lemma_assoc_update<V>(s: Seq<(AccountId, V)>, i: int, value: V, key2: AccountId, j: int)
    requires
        0 <= i < s.len(),
        0 <= j <= s.len(),
    ensures
        ({
            let s2 = s.update(i, (s[i].0, value));
            &&& (key2 == s[i].0 && j <= i && (forall|l: int| j <= l < i ==> s[l].0 != key2)
                ==> spec_assoc_lookup_from(s2, key2, j) == Some(value))
            &&& (key2 != s[i].0 ==> spec_assoc_lookup_from(s2, key2, j)
                == spec_assoc_lookup_from(s, key2, j))
        }),
    decreases s.len() - j,
{
    if j < s.len() {
        lemma_assoc_update(s, i, value, key2, j + 1);
    }
}

/// Appending a fresh entry serves a key with no earlier entry and leaves
/// every other key's lookup unchanged.
proof fn lemma_assoc_push<V>(s: Seq<(AccountId, V)>, key: AccountId, value: V, key2: AccountId, j: int)
    requires
        0 <= j <= s.len(),
    ensures
        ({
            let s2 = s.push((key, value));
            &&& (key2 == key && (forall|l: int| j <= l < s.len() ==> s[l].0 != key2)
                ==> spec_assoc_lookup_from(s2, key2, j) == Some(value))
            &&& (key2 != key ==> spec_assoc_lookup_from(s2, key2, j) == spec_assoc_lookup_from(
                s,
                key2,
                j,
            ))
        }),
    decreases s.len() - j,
{
    let s2 = s.push((key, value));
    if j < s.len() {
        lemma_assoc_push(s, key, value, key2, j + 1);
    } else {
        assert(spec_assoc_lookup_from(s2, key2, j + 1) is None);
        assert(spec_assoc_lookup_from(s, key2, j) is None);
    }
}

/// Looks a key up, returning the value of its first entry.
pub fn assoc_lookup<V: Copy>(entries: &Vec<(AccountId, V)>, key: AccountId) -> (r: Option<V>)
    ensures
        r == spec_assoc_lookup(entries@, key),
{
    let mut k: usize = 0;
    while k < entries.len()
        invariant
            k <= entries@.len(),
            spec_assoc_lookup(entries@, key) == spec_assoc_lookup_from(entries@, key, k as int),
        decreases entries@.len() - k,
    {
        let pair = entries[k];
        if pair.0 == key {
            return Some(pair.1);
        }
        k = k + 1;
    }
    None
}

/// Stores a value for a key: overwrites the key's first entry, or
/// appends one.
pub fn assoc_set<V: Copy>(entries: &mut Vec<(AccountId, V)>, key: AccountId, value: V)
    ensures
        forall|k2: AccountId| #![auto]
            spec_assoc_lookup(final (entries)@, k2) == (if k2 == key {
                Some(value)
            } else {
                spec_assoc_lookup(old(entries)@, k2)
            }),
{
    let ghost s0 = entries@;
    let mut k: usize = 0;
    while k < entries.len()
        invariant
            entries@ == s0,
            s0 == old(entries)@,
            k <= s0.len(),
            forall|l: int| 0 <= l < k ==> s0[l].0 != key,
        decreases s0.len() - k,
    {
        if entries[k].0 == key {
            let ghost i = k as int;
            entries.set(k, (key, value));
            proof {
                assert(entries@ == s0.update(i, (s0[i].0, value)));
                assert forall|k2: AccountId| #![auto]
                    spec_assoc_lookup(entries@, k2) == (if k2 == key {
                        Some(value)
                    } else {
                        spec_assoc_lookup(s0, k2)
                    }) by {
                    lemma_assoc_update(s0, i, value, k2, 0);
                }
            }
            return;
        }
        k = k + 1;
    }
    entries.push((key, value));
    proof {
        assert forall|k2: AccountId| #![auto]
            spec_assoc_lookup(entries@, k2) == (if k2 == key {
                Some(value)
            } else {
                spec_assoc_lookup(s0, k2)
            }) by {
            lemma_assoc_push(s0, key, value, k2, 0);
        }
    }
}

} // verus!

//! Deterministic addressing for record stores.
//!
//! Every record family is kept in a vector and addressed by a key derived
//! from its parent chain and indices, packed into four words. Lookup is
//! first-match; the ledger's invariants make keys unique within a family,
//! so the first match is the only one.

use vstd::prelude::*;

verus! {

/// A record addressed by a deterministic key derived from its own fields.
pub trait Keyed: Sized {
    /// The derived key; unused trailing words are zero.
    spec fn key(&self) -> (u64, u64, u64, u64);

    /// Recomputes the key from the record's fields.
    fn key_of(&self) -> (k: (u64, u64, u64, u64))
        ensures
            k == self.key(),
    ;
}

/// No two records of the family share a key.
pub open spec fn unique_keys<T: Keyed>(s: Seq<T>) -> bool {
    forall|i: int, j: int|
        0 <= i < j < s.len() ==> (#[trigger] s[i]).key() != (#[trigger] s[j]).key()
}

/// Some record of the family has the key.
pub open spec fn contains_key<T: Keyed>(s: Seq<T>, k: (u64, u64, u64, u64)) -> bool {
    exists|i: int| 0 <= i < s.len() && (#[trigger] s[i]).key() == k
}

/// The index of the first record with the key, if any.
pub open spec fn find_by_key<T: Keyed>(s: Seq<T>, k: (u64, u64, u64, u64)) -> Option<int>
    decreases s.len(),
{
    if s.len() == 0 {
        None
    } else if s[0].key() == k {
        Some(0)
    } else {
        match find_by_key(s.drop_first(), k) {
            Some(i) => Some(i + 1),
            None => None,
        }
    }
}

/// What a successful or failed find means for the records themselves.
pub proof fn lemma_find_by_key_props<T: Keyed>(s: Seq<T>, k: (u64, u64, u64, u64))
    ensures
        match find_by_key(s, k) {
            Some(i) => 0 <= i < s.len() && s[i].key() == k && (forall|j: int|
                0 <= j < i ==> (#[trigger] s[j]).key() != k),
            None => forall|j: int| 0 <= j < s.len() ==> (#[trigger] s[j]).key() != k,
        },
        find_by_key(s, k) is Some <==> contains_key(s, k),
    decreases s.len(),
{
    if s.len() == 0 {
    } else if s[0].key() == k {
        assert(contains_key(s, k));
    } else {
        lemma_find_by_key_props(s.drop_first(), k);
        assert(forall|j: int| 0 <= j < s.len() - 1 ==> s.drop_first()[j] == s[j + 1]);
        match find_by_key(s.drop_first(), k) {
            Some(i0) => {
                assert(s[i0 + 1].key() == k);
                assert(contains_key(s, k));
                assert forall|j: int| 0 <= j < i0 + 1 implies (#[trigger] s[j]).key() != k by {
                    if j > 0 {
                        assert(s.drop_first()[j - 1].key() != k);
                    }
                }
            },
            None => {
                assert forall|j: int| 0 <= j < s.len() implies (#[trigger] s[j]).key() != k by {
                    if j > 0 {
                        assert(s.drop_first()[j - 1].key() != k);
                    }
                }
                assert(!contains_key(s, k)) by {
                    if contains_key(s, k) {
                        let w = choose|w: int|
                            0 <= w < s.len() && (#[trigger] s[w]).key() == k;
                        assert(s[w].key() != k);
                    }
                }
            },
        }
    }
}

/// A record with the key at `i`, and none before it, is the one found.
pub proof fn lemma_find_by_key_at<T: Keyed>(s: Seq<T>, k: (u64, u64, u64, u64), i: int)
    requires
        0 <= i < s.len(),
        s[i].key() == k,
        forall|j: int| 0 <= j < i ==> (#[trigger] s[j]).key() != k,
    ensures
        find_by_key(s, k) == Some(i),
    decreases i,
{
    if i > 0 {
        assert(forall|j: int| 0 <= j < s.len() - 1 ==> s.drop_first()[j] == s[j + 1]);
        lemma_find_by_key_at(s.drop_first(), k, i - 1);
    }
}

/// Scans a record store for the key; returns the index of the first match.
pub fn find_in<T: Keyed>(v: &Vec<T>, k: (u64, u64, u64, u64)) -> (r: Option<usize>)
    ensures
        match r {
            Some(i) => find_by_key(v@, k) == Some(i as int),
            None => find_by_key(v@, k) is None,
        },
{
    let mut i: usize = 0;
    while i < v.len()
        invariant
            0 <= i <= v.len(),
            forall|j: int| 0 <= j < i ==> (#[trigger] v@[j]).key() != k,
        decreases v.len() - i,
    {
        let ki = v[i].key_of();
        if ki.0 == k.0 && ki.1 == k.1 && ki.2 == k.2 && ki.3 == k.3 {
            proof {
                lemma_find_by_key_at(v@, k, i as int);
            }
            return Some(i);
        }
        i += 1;
    }
    proof {
        lemma_find_by_key_props(v@, k);
    }
    None
}

/// A mutable borrow of one record in a store; the store ends up updated at
/// that index with whatever the caller leaves behind.
pub fn elem_mut<T>(v: &mut Vec<T>, i: usize) -> (e: &mut T)
    requires
        i < old(v).len(),
    ensures
        *e == old(v)@[i as int],
        final(v)@ == old(v)@.update(i as int, *final(e)),
{
    &mut v[i]
}

/// No value occurs twice in the sequence.
pub open spec fn distinct_u64s(s: Seq<u64>) -> bool {
    forall|i: int, j: int| 0 <= i < j < s.len() ==> s[i] != s[j]
}

/// Whether the list holds the value.
pub fn contains_u64(v: &Vec<u64>, x: u64) -> (r: bool)
    ensures
        r == v@.contains(x),
{
    let mut i: usize = 0;
    while i < v.len()
        invariant
            0 <= i <= v.len(),
            forall|j: int| 0 <= j < i ==> v@[j] != x,
        decreases v.len() - i,
    {
        if v[i] == x {
            return true;
        }
        i += 1;
    }
    false
}

/// The first position of the value in the list, if present.
pub fn index_of_u64(v: &Vec<u64>, x: u64) -> (r: Option<usize>)
    ensures
        match r {
            Some(i) => i < v@.len() && v@[i as int] == x && (forall|j: int|
                0 <= j < i ==> v@[j] != x),
            None => !v@.contains(x),
        },
{
    let mut i: usize = 0;
    while i < v.len()
        invariant
            0 <= i <= v.len(),
            forall|j: int| 0 <= j < i ==> v@[j] != x,
        decreases v.len() - i,
    {
        if v[i] == x {
            return Some(i);
        }
        i += 1;
    }
    None
}

/// Whether any value occurs twice in the list.
pub fn has_duplicate_u64(v: &Vec<u64>) -> (r: bool)
    ensures
        r == !distinct_u64s(v@),
{
    let mut i: usize = 0;
    while i < v.len()
        invariant
            0 <= i <= v.len(),
            forall|p: int, q: int| 0 <= p < q < v.len() && p < i ==> v@[p] != v@[q],
        decreases v.len() - i,
    {
        let mut j: usize = i + 1;
        while j < v.len()
            invariant
                0 <= i < j <= v.len(),
                forall|q: int| i < q < j ==> v@[i as int] != v@[q],
            decreases v.len() - j,
        {
            if v[i] == v[j] {
                return true;
            }
            j += 1;
        }
        i += 1;
    }
    false
}

} // verus!

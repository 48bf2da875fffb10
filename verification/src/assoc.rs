//! String-keyed association lists: the in-memory tables that the manager
//! and the gateway keep, with uniqueness of keys as their invariant.
use vstd::prelude::*;

use crate::text::str_eq;

verus! {

/// No two entries share a key.
pub open spec fn keys_unique<T>(s: Seq<(String, T)>) -> bool {
    forall|i: int, j: int|
        0 <= i < j < s.len() ==> (#[trigger] s[i]).0@ != (#[trigger] s[j]).0@
}

/// Some entry has the key `k`.
pub open spec fn has_key<T>(s: Seq<(String, T)>, k: Seq<char>) -> bool {
    exists|i: int| 0 <= i < s.len() && (#[trigger] s[i]).0@ == k
}

/// The index of the entry with key `k` (meaningful when `has_key` holds).
pub open spec fn index_of_key<T>(s: Seq<(String, T)>, k: Seq<char>) -> int {
    choose|i: int| 0 <= i < s.len() && (#[trigger] s[i]).0@ == k
}

/// The value stored under key `k` (meaningful when `has_key` holds).
pub open spec fn value_of_key<T>(s: Seq<(String, T)>, k: Seq<char>) -> T {
    s[index_of_key(s, k)].1
}

/// Under unique keys, the index of `k` is the one and only index holding it.
pub proof fn lemma_index_of_key<T>(s: Seq<(String, T)>, k: Seq<char>)
    requires
        has_key(s, k),
    ensures
        0 <= index_of_key(s, k) < s.len(),
        s[index_of_key(s, k)].0@ == k,
        keys_unique(s) ==> forall|j: int|
            0 <= j < s.len() && (#[trigger] s[j]).0@ == k ==> j == index_of_key(s, k),
{
    let i = index_of_key(s, k);
    assert(0 <= i < s.len() && s[i].0@ == k);
}

/// Find the index of the entry with the given key.
pub fn find_index<T>(v: &Vec<(String, T)>, k: &str) -> (r: Option<usize>)
    ensures
        match r {
            Some(i) => i < v@.len() && v@[i as int].0@ == k@,
            None => !has_key(v@, k@),
        },
{
    let n = v.len();
    let mut i: usize = 0;
    while i < n
        invariant
            n == v@.len(),
            i <= n,
            forall|j: int| 0 <= j < i ==> (#[trigger] v@[j]).0@ != k@,
        decreases n - i,
    {
        if str_eq(v[i].0.as_str(), k) {
            return Some(i);
        }
        i = i + 1;
    }
    None
}

} // verus!

//! The entries of ordered maps and sets, collected in iteration order.
use vstd::prelude::*;

use std::collections::{BTreeMap, BTreeSet};
use vstd::std_specs::btree::{spec_btree_keys_iter, spec_btree_map_iter};
use vstd::std_specs::iter::IteratorSpec;

use crate::map_lattice::lawful_key;

verus! {

broadcast use vstd::std_specs::btree::group_btree_axioms;

/// Advances an iterator by one item.
fn advance<I: Iterator>(it: &mut I) -> (r: Option<I::Item>)
    ensures
        (*old(it)).obeys_prophetic_iter_laws() ==> if (*old(it)).remaining().len() > 0 {
            &&& (*final(it)).remaining() == (*old(it)).remaining().drop_first()
            &&& r == Some((*old(it)).remaining()[0])
        } else {
            (*final(it)).remaining() === (*old(it)).remaining() && r === None
        },
{
    it.next()
}

/// The entries of `m`, in increasing key order.
pub(crate) fn map_entries<K: Ord, V>(m: &BTreeMap<K, V>) -> (r: Vec<(&K, &V)>)
    ensures
        lawful_key::<K>() ==> r@ == spec_btree_map_iter(m).remaining(),
        lawful_key::<K>() ==> r@.no_duplicates(),
{
    let n = m.len();
    let it0 = m.iter();
    let mut it = it0;
    let ghost s = it.remaining();
    let mut r: Vec<(&K, &V)> = Vec::new();
    let mut i: usize = 0;
    while i < n
        invariant
            i <= n,
            lawful_key::<K>() ==> s == spec_btree_map_iter(m).remaining(),
            lawful_key::<K>() ==> s.no_duplicates(),
            lawful_key::<K>() ==> it.remaining() == s.skip(i as int),
            lawful_key::<K>() ==> r@ == s.take(i as int),
            lawful_key::<K>() ==> s.len() == n,
        ensures
            lawful_key::<K>() ==> i == n,
            lawful_key::<K>() ==> r@ == s.take(i as int),
            lawful_key::<K>() ==> s == spec_btree_map_iter(m).remaining(),
            lawful_key::<K>() ==> s.no_duplicates(),
            lawful_key::<K>() ==> s.len() == n,
        decreases n - i,
    {
        match advance(&mut it) {
            Some(kv) => {
                proof {
                    if lawful_key::<K>() {
                        assert(s.take(i + 1) =~= s.take(i as int).push(kv));
                        assert(s.skip(i as int).drop_first() =~= s.skip(i + 1));
                    }
                }
                r.push(kv);
            },
            None => {
                assert(!lawful_key::<K>());
                break;
            },
        }
        i = i + 1;
    }
    proof {
        if lawful_key::<K>() {
            assert(s.take(n as int) =~= s);
        }
    }
    r
}

/// The elements of `m`, in increasing order.
pub(crate) fn set_items<T: Ord>(m: &BTreeSet<T>) -> (r: Vec<&T>)
    ensures
        lawful_key::<T>() ==> r@ == spec_btree_keys_iter(m).remaining(),
{
    let n = m.len();
    let it0 = m.iter();
    let mut it = it0;
    let ghost s = it.remaining();
    let mut r: Vec<&T> = Vec::new();
    let mut i: usize = 0;
    while i < n
        invariant
            i <= n,
            lawful_key::<T>() ==> s == spec_btree_keys_iter(m).remaining(),
            lawful_key::<T>() ==> it.remaining() == s.skip(i as int),
            lawful_key::<T>() ==> r@ == s.take(i as int),
            lawful_key::<T>() ==> s.len() == n,
        ensures
            lawful_key::<T>() ==> i == n,
            lawful_key::<T>() ==> r@ == s.take(i as int),
            lawful_key::<T>() ==> s == spec_btree_keys_iter(m).remaining(),
            lawful_key::<T>() ==> s.len() == n,
        decreases n - i,
    {
        match advance(&mut it) {
            Some(x) => {
                proof {
                    if lawful_key::<T>() {
                        assert(s.take(i + 1) =~= s.take(i as int).push(x));
                        assert(s.skip(i as int).drop_first() =~= s.skip(i + 1));
                    }
                }
                r.push(x);
            },
            None => {
                assert(!lawful_key::<T>());
                break;
            },
        }
        i = i + 1;
    }
    proof {
        if lawful_key::<T>() {
            assert(s.take(n as int) =~= s);
        }
    }
    r
}

} // verus!

//! The point-wise lattice of maps.
use vstd::prelude::*;

use std::collections::btree_map::{Keys, Values};
use std::collections::BTreeMap;
use vstd::laws_cmp::obeys_cmp;
use vstd::pervasive::strictly_cloned;
use vstd::std_specs::btree::{increasing_seq, spec_btree_map_iter};
use vstd::std_specs::cmp::PartialEqSpecImpl;
use vstd::std_specs::iter::IteratorSpec;

use crate::btree_iter::map_entries;
use crate::lattice::Lattice;
use crate::order::PartialOrder;

verus! {

broadcast use vstd::std_specs::btree::group_btree_axioms;

/// The standard library's `Ord` of `K` obeys its laws (vstd's `obeys_cmp`),
/// so that ordered maps and sets keyed by `K` behave as maps and sets.
pub open spec fn lawful_key<K: Ord>() -> bool {
    obeys_cmp::<K>()
}

/// Cloning a `K` gives back an equal value, as it does for `Copy` types and
/// for `String`.
pub open spec fn faithful_clone<K: Clone>() -> bool {
    forall|a: K, b: K| #[trigger] strictly_cloned(a, b) ==> a == b
}

/// `a <= b` point-wise: every key of `a` is in `b`, with a value below.
pub open spec fn map_le<K, V: PartialOrder>(a: Map<K, V::V>, b: Map<K, V::V>) -> bool {
    forall|k: K| #[trigger] a.contains_key(k) ==> b.contains_key(k) && V::leq(a[k], b[k])
}

/// Key-intersection with value-meet on the common keys.
pub open spec fn map_meet<K, V: Lattice>(a: Map<K, V::V>, b: Map<K, V::V>) -> Map<K, V::V> {
    Map::new(|k: K| a.contains_key(k) && b.contains_key(k), |k: K| V::meet_spec(a[k], b[k]))
}

/// Key-union with value-join on the common keys.
pub open spec fn map_join<K, V: Lattice>(a: Map<K, V::V>, b: Map<K, V::V>) -> Map<K, V::V> {
    Map::new(
        |k: K| a.contains_key(k) || b.contains_key(k),
        |k: K|
            if a.contains_key(k) && b.contains_key(k) {
                V::join_spec(a[k], b[k])
            } else if a.contains_key(k) {
                a[k]
            } else {
                b[k]
            },
    )
}

/// A point-wise lattice over a `BTreeMap<K, V>`.
///
/// **Partial order:** `M1 <= M2` iff every key `k` of `M1` is present in `M2`
/// with `M1[k] <= M2[k]`. Missing keys are implicitly the bottom element; the
/// empty map is the bottom of the lattice.
///
/// **Lattice operations:** `join` is key-union with value-join on the common
/// keys (the empty map is the identity); `meet` is key-intersection with
/// value-meet on the common keys (the empty map is absorbing).
#[derive(Debug)]
pub struct MapLattice<K, V> {
    map: BTreeMap<K, V>,
}

impl<K, V: View> View for MapLattice<K, V> {
    type V = Map<K, V::V>;

    /// The map of keys to the abstract values of the stored values.
    closed spec fn view(&self) -> Map<K, V::V> {
        self.map@.map_values(|v: V| v@)
    }
}

impl<K: Ord, V: View> MapLattice<K, V> {
    /// Creates an empty `MapLattice` (the bottom element of the lattice).
    pub fn new() -> (r: Self)
        ensures
            r@ == Map::<K, V::V>::empty(),
            r@.dom().finite(),
    {
        let r = MapLattice { map: BTreeMap::new() };
        assert(r@ =~= Map::<K, V::V>::empty());
        r
    }

    /// Inserts or replaces the value for `key`, returning the previous value
    /// if any.
    pub fn insert(&mut self, key: K, value: V) -> (r: Option<V>)
        requires
            lawful_key::<K>(),
        ensures
            final(self)@ == old(self)@.insert(key, value@),
            final(self)@.dom().finite(),
            match r {
                Some(v) => old(self)@.contains_key(key) && v@ == old(self)@[key],
                None => !old(self)@.contains_key(key),
            },
    {
        let r = self.map.insert(key, value);
        assert(self@ =~= old(self)@.insert(key, value@));
        assert(self.map@.dom().finite());
        assert(self@.dom() =~= self.map@.dom());
        r
    }

    /// Returns a reference to the value for `key`, or `None` if absent.
    pub fn get(&self, key: &K) -> (r: Option<&V>)
        requires
            lawful_key::<K>(),
        ensures
            match r {
                Some(v) => self@.contains_key(*key) && v@ == self@[*key],
                None => !self@.contains_key(*key),
            },
    {
        self.map.get(key)
    }

    /// Returns an iterator over the keys in sorted order.
    pub fn keys(&self) -> (r: Keys<'_, K, V>)
        requires
            lawful_key::<K>(),
        ensures
            IteratorSpec::remaining(&r).map_values(|k: &K| *k).to_set() == self@.dom(),
            IteratorSpec::remaining(&r).no_duplicates(),
            increasing_seq(IteratorSpec::remaining(&r)),
    {
        let r = self.map.keys();
        proof {
            let s = IteratorSpec::remaining(&r);
            assert(s.map_values(|k: &K| *k) =~= s.unref());
        }
        r
    }

    /// Returns an iterator over the values, in the order of their keys.
    pub fn values(&self) -> (r: Values<'_, K, V>)
        requires
            lawful_key::<K>(),
        ensures
            exists|key_seq: Seq<K>|
                {
                    &&& increasing_seq(key_seq)
                    &&& key_seq.to_set() == self@.dom()
                    &&& key_seq.no_duplicates()
                    &&& IteratorSpec::remaining(&r).map_values(|v: &V| v@) == key_seq.map_values(|k: K| self@[k])
                },
    {
        let r = self.map.values();
        proof {
            let key_seq = choose|key_seq: Seq<K>|
                {
                    &&& increasing_seq(key_seq)
                    &&& key_seq.to_set() == self.map@.dom()
                    &&& key_seq.no_duplicates()
                    &&& IteratorSpec::remaining(&r) == key_seq.map(|i: int, k| &self.map@[k])
                };
            assert(IteratorSpec::remaining(&r).map_values(|v: &V| v@) =~= key_seq.map_values(|k: K| self@[k]));
        }
        r
    }

    /// Returns the number of key-value pairs.
    pub fn len(&self) -> (r: usize)
        requires
            lawful_key::<K>(),
        ensures
            r == self@.len(),
            self@.dom().finite(),
    {
        assert(self@.dom() =~= self.map@.dom());
        self.map.len()
    }

    /// Returns `true` if the map has no entries (the bottom element).
    pub fn is_empty(&self) -> (r: bool)
        ensures
            r == (self@ == Map::<K, V::V>::empty()),
    {
        let r = self.map.is_empty();
        proof {
            if !r {
                let k = choose|k: K| self.map@.contains_key(k);
                assert(self@.contains_key(k));
                assert(!Map::<K, V::V>::empty().contains_key(k));
            } else {
                assert(self@ =~= Map::<K, V::V>::empty());
            }
        }
        r
    }
}

impl<K: Ord, V: View> Default for MapLattice<K, V> {
    fn default() -> (r: Self)
        ensures
            r@ == Map::<K, V::V>::empty(),
    {
        Self::new()
    }
}

impl<K: Ord + Clone, V: PartialOrder + Clone> PartialOrder for MapLattice<K, V> {
    open spec fn obeys_order() -> bool {
        lawful_key::<K>() && faithful_clone::<K>() && V::obeys_order()
    }

    open spec fn leq(a: Map<K, V::V>, b: Map<K, V::V>) -> bool {
        map_le::<K, V>(a, b)
    }

    proof fn lemma_le_reflexive(a: Map<K, V::V>) {
        assert forall|k: K| #[trigger] a.contains_key(k) implies a.contains_key(k) && V::leq(a[k], a[k]) by {
            V::lemma_le_reflexive(a[k]);
        }
    }

    proof fn lemma_le_transitive(a: Map<K, V::V>, b: Map<K, V::V>, c: Map<K, V::V>) {
        assert forall|k: K| #[trigger] a.contains_key(k) implies c.contains_key(k) && V::leq(a[k], c[k]) by {
            assert(b.contains_key(k));
            V::lemma_le_transitive(a[k], b[k], c[k]);
        }
    }

    fn less_equal(&self, other: &Self) -> (r: bool) {
        let es = map_entries(&self.map);
        let ghost obeys = Self::obeys_order();
        proof {
            if obeys {
                lemma_entries_cover(&self.map, es@);
            }
        }
        for i in 0..es.len()
            invariant
                obeys == Self::obeys_order(),
                obeys ==> es@ == spec_btree_map_iter(&self.map).remaining(),
                obeys ==> forall|j: int|
                    0 <= j < i ==> other@.contains_key(*#[trigger] es@[j].0)
                        && V::leq(self@[*es@[j].0], other@[*es@[j].0]),
        {
            let (k, v) = es[i];
            match other.map.get(k) {
                Some(ov) => {
                    if !v.less_equal(ov) {
                        proof {
                            if obeys {
                                assert(self.map@[*es@[i as int].0] == *es@[i as int].1);
                                assert(self@[*k] == v@);
                                assert(other@[*k] == ov@);
                                assert(self@.contains_key(*k));
                            }
                        }
                        return false;
                    }
                },
                None => {
                    proof {
                        if obeys {
                            assert(self.map@.contains_key(*es@[i as int].0));
                            assert(self@.contains_key(*k));
                            assert(!other@.contains_key(*k));
                        }
                    }
                    return false;
                },
            }
            proof {
                if obeys {
                    assert(self.map@[*es@[i as int].0] == *es@[i as int].1);
                }
            }
        }
        proof {
            if obeys {
                assert forall|k: K| #[trigger] self@.contains_key(k) implies other@.contains_key(k) && V::leq(
                    self@[k],
                    other@[k],
                ) by {
                    let j = choose|j: int| 0 <= j < es@.len() && *es@[j].0 == k;
                }
            }
        }
        true
    }

    fn equals(&self, other: &Self) -> (r: bool) {
        let n = self.map.len();
        let m = other.map.len();
        let ghost obeys = Self::obeys_order();
        if n != m {
            proof {
                if obeys {
                    assert(self@.dom() =~= self.map@.dom());
                    assert(other@.dom() =~= other.map@.dom());
                }
            }
            return false;
        }
        let es = map_entries(&self.map);
        proof {
            if obeys {
                lemma_entries_cover(&self.map, es@);
            }
        }
        for i in 0..es.len()
            invariant
                obeys == Self::obeys_order(),
                obeys ==> es@ == spec_btree_map_iter(&self.map).remaining(),
                obeys ==> forall|j: int|
                    0 <= j < i ==> other@.contains_key(*#[trigger] es@[j].0)
                        && self@[*es@[j].0] == other@[*es@[j].0],
        {
            let (k, v) = es[i];
            match other.map.get(k) {
                Some(ov) => {
                    if !v.equals(ov) {
                        proof {
                            if obeys {
                                assert(self.map@[*es@[i as int].0] == *es@[i as int].1);
                                assert(self@[*k] == v@);
                                assert(other@[*k] == ov@);
                            }
                        }
                        return false;
                    }
                },
                None => {
                    proof {
                        if obeys {
                            assert(self.map@.contains_key(*es@[i as int].0));
                            assert(self@.contains_key(*k));
                            assert(!other@.contains_key(*k));
                        }
                    }
                    return false;
                },
            }
            proof {
                if obeys {
                    assert(self.map@[*es@[i as int].0] == *es@[i as int].1);
                }
            }
        }
        proof {
            if obeys {
                assert forall|k: K| #[trigger] self@.contains_key(k) implies other@.contains_key(k) && self@[k]
                    == other@[k] by {
                    let j = choose|j: int| 0 <= j < es@.len() && *es@[j].0 == k;
                }
                assert(self@.dom().subset_of(other@.dom()));
                assert(self@.dom() =~= self.map@.dom());
                assert(other@.dom() =~= other.map@.dom());
                vstd::set_lib::lemma_subset_equality(self@.dom(), other@.dom());
                assert(self@ =~= other@);
            }
        }
        true
    }

    fn duplicate(&self) -> (r: Self) {
        MapLattice { map: self.map.clone() }
    }
}

impl<K: Ord + Clone, V: Lattice + Clone> Lattice for MapLattice<K, V> {
    open spec fn meet_spec(a: Map<K, V::V>, b: Map<K, V::V>) -> Map<K, V::V> {
        map_meet::<K, V>(a, b)
    }

    open spec fn join_spec(a: Map<K, V::V>, b: Map<K, V::V>) -> Map<K, V::V> {
        map_join::<K, V>(a, b)
    }

    /// Key-intersection with value-meet on the common keys. The empty map is
    /// absorbing.
    fn meet(&self, other: &Self) -> (r: Self) {
        let mut result: BTreeMap<K, V> = BTreeMap::new();
        let es = map_entries(&self.map);
        let ghost obeys = Self::obeys_order();
        proof {
            if obeys {
                lemma_entries_cover(&self.map, es@);
            }
        }
        for i in 0..es.len()
            invariant
                obeys == Self::obeys_order(),
                obeys ==> es@ == spec_btree_map_iter(&self.map).remaining(),
                obeys ==> forall|k: K|
                    #[trigger] result@.contains_key(k) <==> (other@.contains_key(k) && exists|j: int|
                        0 <= j < i && *es@[j].0 == k),
                obeys ==> forall|k: K|
                    #[trigger] result@.contains_key(k) ==> result@[k]@ == V::meet_spec(self@[k], other@[k]),
        {
            let (k, v) = es[i];
            proof {
                if obeys {
                    assert(self.map@[*es@[i as int].0] == *es@[i as int].1);
                }
            }
            match other.map.get(k) {
                Some(ov) => {
                    let mv = v.meet(ov);
                    let kc = k.clone();
                    proof {
                        if obeys {
                            assert(strictly_cloned(*k, kc));
                        }
                    }
                    result.insert(kc, mv);
                },
                None => {},
            }
            proof {
                if obeys {
                    assert forall|k2: K| #[trigger] result@.contains_key(k2) <==> (other@.contains_key(k2) && exists|j: int|
                        0 <= j < i + 1 && *es@[j].0 == k2) by {
                        if other@.contains_key(k2) && *es@[i as int].0 == k2 {
                            assert(result@.contains_key(k2));
                        }
                    }
                }
            }
        }
        let r = MapLattice { map: result };
        proof {
            if obeys {
                assert forall|k: K| #[trigger] r@.contains_key(k) <==> map_meet::<K, V>(self@, other@).contains_key(k) by {
                    if result@.contains_key(k) {
                        let j = choose|j: int| 0 <= j < es@.len() && *es@[j].0 == k;
                        assert(self.map@.contains_key(*es@[j].0));
                    }
                }
                assert(r@ =~= map_meet::<K, V>(self@, other@));
            }
        }
        r
    }

    /// Key-union with value-join on the common keys. The empty map is the
    /// identity.
    fn join(&self, other: &Self) -> (r: Self) {
        let mut result = self.map.clone();
        let es = map_entries(&other.map);
        let ghost obeys = Self::obeys_order();
        proof {
            if obeys {
                lemma_entries_cover(&other.map, es@);
            }
        }
        for i in 0..es.len()
            invariant
                obeys == Self::obeys_order(),
                obeys ==> es@ == spec_btree_map_iter(&other.map).remaining(),
                obeys ==> es@.no_duplicates(),
                obeys ==> forall|k: K|
                    #[trigger] result@.contains_key(k) <==> (self@.contains_key(k) || exists|j: int|
                        0 <= j < i && *es@[j].0 == k),
                obeys ==> forall|k: K|
                    #[trigger] result@.contains_key(k) ==> result@[k]@ == (if exists|j: int|
                        0 <= j < i && *es@[j].0 == k {
                        map_join::<K, V>(self@, other@)[k]
                    } else {
                        self@[k]
                    }),
        {
            let (k, v) = es[i];
            let ghost before = result@;
            proof {
                if obeys {
                    assert(other.map@[*es@[i as int].0] == *es@[i as int].1);
                    assert(!exists|j: int| 0 <= j < i && *es@[j].0 == *k) by {
                        if exists|j: int| 0 <= j < i && *es@[j].0 == *k {
                            let j = choose|j: int| 0 <= j < i && *es@[j].0 == *k;
                            assert(other.map@[*es@[j].0] == *es@[j].1);
                            assert(es@[j] == es@[i as int]);
                        }
                    }
                }
            }
            let nv = match result.get(k) {
                Some(existing) => existing.join(v),
                None => v.duplicate(),
            };
            let kc = k.clone();
            proof {
                if obeys {
                    assert(strictly_cloned(*k, kc));
                }
            }
            result.insert(kc, nv);
            proof {
                if obeys {
                    assert forall|k2: K| #[trigger] result@.contains_key(k2) <==> (self@.contains_key(k2) || exists|j: int|
                        0 <= j < i + 1 && *es@[j].0 == k2) by {
                        if *es@[i as int].0 == k2 {
                            assert(result@.contains_key(k2));
                        }
                        if before.contains_key(k2) && k2 != *k {
                            assert(result@.contains_key(k2));
                        }
                    }
                    assert forall|k2: K| #[trigger] result@.contains_key(k2) implies result@[k2]@ == (if exists|j: int|
                        0 <= j < i + 1 && *es@[j].0 == k2 {
                        map_join::<K, V>(self@, other@)[k2]
                    } else {
                        self@[k2]
                    }) by {
                        if k2 == *k {
                            assert(exists|j: int| 0 <= j < i + 1 && *es@[j].0 == k2) by {
                                assert(*es@[i as int].0 == k2);
                            }
                        } else {
                            assert(before.contains_key(k2));
                            if exists|j: int| 0 <= j < i + 1 && *es@[j].0 == k2 {
                                let j = choose|j: int| 0 <= j < i + 1 && *es@[j].0 == k2;
                                assert(j != i);
                            }
                        }
                    }
                }
            }
        }
        let r = MapLattice { map: result };
        proof {
            if obeys {
                assert forall|k: K| (exists|j: int| 0 <= j < es@.len() && *es@[j].0 == k) implies other@.contains_key(k) by {
                    let j = choose|j: int| 0 <= j < es@.len() && *es@[j].0 == k;
                    assert(other.map@.contains_key(*es@[j].0));
                }
                assert(r@ =~= map_join::<K, V>(self@, other@));
            }
        }
        r
    }
}

/// Every key of `m` is the key of an entry in its iteration order.
proof fn lemma_entries_cover<K: Ord, V>(m: &BTreeMap<K, V>, es: Seq<(&K, &V)>)
    requires
        lawful_key::<K>(),
        es == spec_btree_map_iter(m).remaining(),
    ensures
        forall|k: K| #[trigger] m@.contains_key(k) ==> exists|j: int| 0 <= j < es.len() && *es[j].0 == k,
        forall|j: int| 0 <= j < es.len() ==> #[trigger] m@.contains_key(*es[j].0) && m@[*es[j].0] == *es[j].1,
{
    assert forall|k: K| #[trigger] m@.contains_key(k) implies exists|j: int| 0 <= j < es.len() && *es[j].0 == k by {
        assert(es.contains((&k, &m@[k])));
        let j = choose|j: int| 0 <= j < es.len() && es[j] == (&k, &m@[k]);
        assert(*es[j].0 == k);
    }
}

impl<K: Ord + Clone, V: PartialOrder + Clone> Clone for MapLattice<K, V> {
    fn clone(&self) -> (r: Self)
        ensures
            r@ == self@,
    {
        MapLattice { map: self.map.clone() }
    }
}

impl<K: Ord + Clone, V: PartialOrder + Clone> PartialEq for MapLattice<K, V> {
    /// Two maps are equal when they hold the same keys with equal values.
    fn eq(&self, other: &Self) -> (r: bool) {
        self.equals(other)
    }
}

impl<K: Ord + Clone, V: PartialOrder + Clone> PartialEqSpecImpl for MapLattice<K, V> {
    open spec fn obeys_eq_spec() -> bool {
        Self::obeys_order()
    }

    open spec fn eq_spec(&self, other: &Self) -> bool {
        self@ == other@
    }
}

impl<K: Ord + Clone, V: PartialOrder + Clone> Eq for MapLattice<K, V> {}


/// The integer key types and `String` clone faithfully.
pub proof fn lemma_faithful_clone_keys()
    ensures
        faithful_clone::<u8>(),
        faithful_clone::<u16>(),
        faithful_clone::<u32>(),
        faithful_clone::<u64>(),
        faithful_clone::<u128>(),
        faithful_clone::<usize>(),
        faithful_clone::<i8>(),
        faithful_clone::<i16>(),
        faithful_clone::<i32>(),
        faithful_clone::<i64>(),
        faithful_clone::<i128>(),
        faithful_clone::<isize>(),
        faithful_clone::<String>(),
{
}

} // verus!

//! The powerset lattice.
use vstd::prelude::*;

use std::collections::btree_set::Iter;
use std::collections::BTreeSet;
use vstd::std_specs::btree::{increasing_seq, spec_btree_keys_iter};
use vstd::pervasive::strictly_cloned;
use vstd::std_specs::cmp::PartialEqSpecImpl;
use vstd::std_specs::iter::IteratorSpec;

use crate::btree_iter::set_items;
use crate::lattice::Lattice;
use crate::map_lattice::{faithful_clone, lawful_key};
use crate::order::PartialOrder;

verus! {

broadcast use vstd::std_specs::btree::group_btree_axioms;

/// A powerset lattice over a `BTreeSet<T>`.
///
/// The partial order is set inclusion: `A <= B` iff `A` is a subset of `B`.
/// Meet is intersection; join is union. The empty set is the bottom element
/// (identity for join, absorbing for meet).
#[derive(Debug)]
pub struct SetLattice<T> {
    set: BTreeSet<T>,
}

impl<T> View for SetLattice<T> {
    type V = Set<T>;

    closed spec fn view(&self) -> Set<T> {
        self.set@
    }
}

/// Every element of `m` appears in its iteration order, which holds only
/// elements of `m`.
proof fn lemma_items_cover<T: Ord>(m: &BTreeSet<T>, xs: Seq<&T>)
    requires
        lawful_key::<T>(),
        xs == spec_btree_keys_iter(m).remaining(),
    ensures
        forall|x: T| #[trigger] m@.contains(x) ==> exists|j: int| 0 <= j < xs.len() && *xs[j] == x,
        forall|j: int| 0 <= j < xs.len() ==> #[trigger] m@.contains(*xs[j]),
        xs.len() == m@.len(),
{
    assert forall|x: T| #[trigger] m@.contains(x) implies exists|j: int| 0 <= j < xs.len() && *xs[j] == x by {
        assert(xs.unref().to_set().contains(x));
        let j = choose|j: int| 0 <= j < xs.unref().len() && xs.unref()[j] == x;
        assert(*xs[j] == x);
    }
    assert forall|j: int| 0 <= j < xs.len() implies #[trigger] m@.contains(*xs[j]) by {
        assert(xs.unref()[j] == *xs[j]);
        assert(xs.unref().to_set().contains(*xs[j]));
    }
}

/// A set held by a `BTreeSet` whose keys obey `Ord`'s laws is finite.
proof fn lemma_set_finite<T: Ord>(m: &BTreeSet<T>)
    requires
        lawful_key::<T>(),
    ensures
        m@.finite(),
{
    let xs = spec_btree_keys_iter(m).remaining();
    lemma_items_cover(m, xs);
    assert(m@ =~= xs.unref().to_set());
}

impl<T: Ord> SetLattice<T> {
    /// Creates an empty `SetLattice` (the bottom element of the lattice).
    pub fn new() -> (r: Self)
        ensures
            r@ == Set::<T>::empty(),
            r@.finite(),
    {
        SetLattice { set: BTreeSet::new() }
    }

    /// Inserts `value` into the set. Returns `true` if the value was not
    /// already present.
    pub fn insert(&mut self, value: T) -> (r: bool)
        requires
            lawful_key::<T>(),
        ensures
            final(self)@ == old(self)@.insert(value),
            final(self)@.finite(),
            r == !old(self)@.contains(value),
    {
        let r = self.set.insert(value);
        proof {
            lemma_set_finite(&self.set);
        }
        r
    }

    /// Returns `true` if `value` is a member of the set.
    pub fn contains(&self, value: &T) -> (r: bool)
        requires
            lawful_key::<T>(),
        ensures
            r == self@.contains(*value),
    {
        self.set.contains(value)
    }

    /// Returns the number of elements in the set.
    pub fn len(&self) -> (r: usize)
        requires
            lawful_key::<T>(),
        ensures
            r == self@.len(),
            self@.finite(),
    {
        proof {
            lemma_set_finite(&self.set);
        }
        self.set.len()
    }

    /// Returns `true` if the set is empty (the bottom element).
    pub fn is_empty(&self) -> (r: bool)
        ensures
            r == (self@ == Set::<T>::empty()),
    {
        let r = self.set.is_empty();
        proof {
            if r {
                assert(self@ =~= Set::<T>::empty());
            }
        }
        r
    }

    /// Returns an iterator over the elements in sorted order.
    pub fn iter(&self) -> (r: Iter<'_, T>)
        requires
            lawful_key::<T>(),
        ensures
            IteratorSpec::remaining(&r).map_values(|x: &T| *x).to_set() == self@,
            IteratorSpec::remaining(&r).no_duplicates(),
            increasing_seq(IteratorSpec::remaining(&r)),
    {
        let r = self.set.iter();
        proof {
            let s = IteratorSpec::remaining(&r);
            assert(s.map_values(|x: &T| *x) =~= s.unref());
        }
        r
    }
}

impl<T: Ord> Default for SetLattice<T> {
    fn default() -> (r: Self)
        ensures
            r@ == Set::<T>::empty(),
    {
        Self::new()
    }
}

impl<T: Ord + Clone> PartialOrder for SetLattice<T> {
    open spec fn obeys_order() -> bool {
        lawful_key::<T>() && faithful_clone::<T>()
    }

    /// Set inclusion.
    open spec fn leq(a: Set<T>, b: Set<T>) -> bool {
        a.subset_of(b)
    }

    proof fn lemma_le_reflexive(a: Set<T>) {
    }

    proof fn lemma_le_transitive(a: Set<T>, b: Set<T>, c: Set<T>) {
    }

    fn less_equal(&self, other: &Self) -> (r: bool) {
        let xs = set_items(&self.set);
        let ghost obeys = Self::obeys_order();
        proof {
            if obeys {
                lemma_items_cover(&self.set, xs@);
            }
        }
        for i in 0..xs.len()
            invariant
                obeys == Self::obeys_order(),
                obeys ==> xs@ == spec_btree_keys_iter(&self.set).remaining(),
                obeys ==> forall|j: int| 0 <= j < i ==> other@.contains(*#[trigger] xs@[j]),
                obeys ==> forall|j: int| 0 <= j < xs@.len() ==> self@.contains(*#[trigger] xs@[j]),
        {
            if !other.set.contains(xs[i]) {
                proof {
                    if obeys {
                        assert(self@.contains(*xs@[i as int]));
                    }
                }
                return false;
            }
        }
        proof {
            if obeys {
                assert forall|x: T| #[trigger] self@.contains(x) implies other@.contains(x) by {
                    let j = choose|j: int| 0 <= j < xs@.len() && *xs@[j] == x;
                }
            }
        }
        true
    }

    fn equals(&self, other: &Self) -> (r: bool) {
        if self.set.len() != other.set.len() {
            return false;
        }
        let r = self.less_equal(other);
        proof {
            if Self::obeys_order() && r {
                assert(self@.finite() && other@.finite()) by {
                    lemma_items_cover(&self.set, spec_btree_keys_iter(&self.set).remaining());
                    assert(self@ =~= spec_btree_keys_iter(&self.set).remaining().unref().to_set());
                    assert(other@ =~= spec_btree_keys_iter(&other.set).remaining().unref().to_set());
                }
                vstd::set_lib::lemma_subset_equality(self@, other@);
            }
        }
        r
    }

    fn duplicate(&self) -> (r: Self) {
        SetLattice { set: self.set.clone() }
    }
}

impl<T: Ord + Clone> Lattice for SetLattice<T> {
    /// Intersection.
    open spec fn meet_spec(a: Set<T>, b: Set<T>) -> Set<T> {
        a.intersect(b)
    }

    /// Union.
    open spec fn join_spec(a: Set<T>, b: Set<T>) -> Set<T> {
        a.union(b)
    }

    /// Intersection: the greatest lower bound under set inclusion.
    fn meet(&self, other: &Self) -> (r: Self) {
        let mut result: BTreeSet<T> = BTreeSet::new();
        let xs = set_items(&self.set);
        let ghost obeys = Self::obeys_order();
        proof {
            if obeys {
                lemma_items_cover(&self.set, xs@);
            }
        }
        for i in 0..xs.len()
            invariant
                obeys == Self::obeys_order(),
                obeys ==> xs@ == spec_btree_keys_iter(&self.set).remaining(),
                obeys ==> forall|x: T|
                    #[trigger] result@.contains(x) <==> (other@.contains(x) && exists|j: int|
                        0 <= j < i && *xs@[j] == x),
        {
            let x = xs[i];
            if other.set.contains(x) {
                let xc = x.clone();
                proof {
                    if obeys {
                        assert(strictly_cloned(*x, xc));
                    }
                }
                result.insert(xc);
            }
            proof {
                if obeys {
                    assert forall|y: T| #[trigger] result@.contains(y) <==> (other@.contains(y) && exists|j: int|
                        0 <= j < i + 1 && *xs@[j] == y) by {
                        if other@.contains(y) && *xs@[i as int] == y {
                            assert(result@.contains(y));
                        }
                    }
                }
            }
        }
        let r = SetLattice { set: result };
        proof {
            if obeys {
                assert(r@ =~= self@.intersect(other@));
            }
        }
        r
    }

    /// Union: the least upper bound under set inclusion.
    fn join(&self, other: &Self) -> (r: Self) {
        let mut result = self.set.clone();
        let xs = set_items(&other.set);
        let ghost obeys = Self::obeys_order();
        proof {
            if obeys {
                lemma_items_cover(&other.set, xs@);
            }
        }
        for i in 0..xs.len()
            invariant
                obeys == Self::obeys_order(),
                obeys ==> xs@ == spec_btree_keys_iter(&other.set).remaining(),
                obeys ==> forall|x: T|
                    #[trigger] result@.contains(x) <==> (self@.contains(x) || exists|j: int|
                        0 <= j < i && *xs@[j] == x),
        {
            let x = xs[i];
            let xc = x.clone();
            proof {
                if obeys {
                    assert(strictly_cloned(*x, xc));
                }
            }
            result.insert(xc);
            proof {
                if obeys {
                    assert forall|y: T| #[trigger] result@.contains(y) <==> (self@.contains(y) || exists|j: int|
                        0 <= j < i + 1 && *xs@[j] == y) by {
                        if *xs@[i as int] == y {
                            assert(result@.contains(y));
                        }
                    }
                }
            }
        }
        let r = SetLattice { set: result };
        proof {
            if obeys {
                assert(r@ =~= self@.union(other@));
            }
        }
        r
    }
}

impl<T: Ord + Clone> Clone for SetLattice<T> {
    fn clone(&self) -> (r: Self)
        ensures
            r@ == self@,
    {
        SetLattice { set: self.set.clone() }
    }
}

impl<T: Ord + Clone> PartialEq for SetLattice<T> {
    /// Two sets are equal when they hold the same elements.
    fn eq(&self, other: &Self) -> (r: bool) {
        self.equals(other)
    }
}

impl<T: Ord + Clone> PartialEqSpecImpl for SetLattice<T> {
    open spec fn obeys_eq_spec() -> bool {
        Self::obeys_order()
    }

    open spec fn eq_spec(&self, other: &Self) -> bool {
        self@ == other@
    }
}

impl<T: Ord + Clone> Eq for SetLattice<T> {}

} // verus!

//! The standard library's `PartialOrd` for the timestamp and lattice types:
//! `partial_cmp` reports the order of [`PartialOrder`].
use vstd::prelude::*;

use core::cmp::Ordering;
use vstd::std_specs::cmp::PartialOrdSpecImpl;

use crate::lifted::{WithBottom, WithTop};
use crate::map_lattice::MapLattice;
use crate::order::PartialOrder;
use crate::product::{Lexicographic, ProductTimestamp};
use crate::set_lattice::SetLattice;
use crate::wrappers::{Bounded, Max, Min};

verus! {

/// How `a` compares with `b` in `T`'s order: `Equal` when each is below the
/// other, `Less` or `Greater` when exactly one is, `None` when neither is.
pub open spec fn compare_spec<T: PartialOrder>(a: T::V, b: T::V) -> Option<Ordering> {
    if T::leq(a, b) && T::leq(b, a) {
        Some(Ordering::Equal)
    } else if T::leq(a, b) {
        Some(Ordering::Less)
    } else if T::leq(b, a) {
        Some(Ordering::Greater)
    } else {
        None
    }
}

/// Compares `a` with `b` in `T`'s order.
fn compare<T: PartialOrder>(a: &T, b: &T) -> (r: Option<Ordering>)
    ensures
        T::obeys_order() ==> r == compare_spec::<T>(a@, b@),
{
    let le = a.less_equal(b);
    let ge = b.less_equal(a);
    if le && ge {
        Some(Ordering::Equal)
    } else if le {
        Some(Ordering::Less)
    } else if ge {
        Some(Ordering::Greater)
    } else {
        None
    }
}

impl<T1: PartialOrder + PartialEq, T2: PartialOrder + PartialEq> PartialOrd for ProductTimestamp<T1, T2> {
    /// Product order: `Less` or `Equal` iff both components are.
    fn partial_cmp(&self, other: &Self) -> (r: Option<Ordering>) {
        compare(self, other)
    }
}

impl<T1: PartialOrder + PartialEq, T2: PartialOrder + PartialEq> PartialOrdSpecImpl for ProductTimestamp<T1, T2> {
    open spec fn obeys_partial_cmp_spec() -> bool {
        Self::obeys_order()
    }

    open spec fn partial_cmp_spec(&self, other: &Self) -> Option<Ordering> {
        compare_spec::<Self>(self@, other@)
    }
}

impl<A: PartialOrder + PartialEq, B: PartialOrder + PartialEq> PartialOrd for Lexicographic<A, B> {
    /// The outer dimension decides; the inner one breaks ties.
    fn partial_cmp(&self, other: &Self) -> (r: Option<Ordering>) {
        compare(self, other)
    }
}

impl<A: PartialOrder + PartialEq, B: PartialOrder + PartialEq> PartialOrdSpecImpl for Lexicographic<A, B> {
    open spec fn obeys_partial_cmp_spec() -> bool {
        Self::obeys_order()
    }

    open spec fn partial_cmp_spec(&self, other: &Self) -> Option<Ordering> {
        compare_spec::<Self>(self@, other@)
    }
}

impl<T: PartialOrder + PartialEq> PartialOrd for Max<T> {
    /// Inverted ordering: `Max(a) <= Max(b)` iff `b <= a`.
    fn partial_cmp(&self, other: &Self) -> (r: Option<Ordering>) {
        compare(self, other)
    }
}

impl<T: PartialOrder + PartialEq> PartialOrdSpecImpl for Max<T> {
    open spec fn obeys_partial_cmp_spec() -> bool {
        Self::obeys_order()
    }

    open spec fn partial_cmp_spec(&self, other: &Self) -> Option<Ordering> {
        compare_spec::<Self>(self@, other@)
    }
}

impl<T: PartialOrder + PartialEq> PartialOrd for Min<T> {
    /// The order of `T`.
    fn partial_cmp(&self, other: &Self) -> (r: Option<Ordering>) {
        compare(self, other)
    }
}

impl<T: PartialOrder + PartialEq> PartialOrdSpecImpl for Min<T> {
    open spec fn obeys_partial_cmp_spec() -> bool {
        Self::obeys_order()
    }

    open spec fn partial_cmp_spec(&self, other: &Self) -> Option<Ordering> {
        compare_spec::<Self>(self@, other@)
    }
}

impl<T: PartialOrder + PartialEq> PartialOrd for Bounded<T> {
    /// Ordered by value.
    fn partial_cmp(&self, other: &Self) -> (r: Option<Ordering>) {
        compare(self, other)
    }
}

impl<T: PartialOrder + PartialEq> PartialOrdSpecImpl for Bounded<T> {
    open spec fn obeys_partial_cmp_spec() -> bool {
        Self::obeys_order()
    }

    open spec fn partial_cmp_spec(&self, other: &Self) -> Option<Ordering> {
        compare_spec::<Self>(self@, other@)
    }
}

impl<T: PartialOrder + PartialEq> PartialOrd for WithTop<T> {
    /// `Top` above every value; values compare in `T`.
    fn partial_cmp(&self, other: &Self) -> (r: Option<Ordering>) {
        compare(self, other)
    }
}

impl<T: PartialOrder + PartialEq> PartialOrdSpecImpl for WithTop<T> {
    open spec fn obeys_partial_cmp_spec() -> bool {
        Self::obeys_order()
    }

    open spec fn partial_cmp_spec(&self, other: &Self) -> Option<Ordering> {
        compare_spec::<Self>(self@, other@)
    }
}

impl<T: PartialOrder + PartialEq> PartialOrd for WithBottom<T> {
    /// `Bottom` below every value; values compare in `T`.
    fn partial_cmp(&self, other: &Self) -> (r: Option<Ordering>) {
        compare(self, other)
    }
}

impl<T: PartialOrder + PartialEq> PartialOrdSpecImpl for WithBottom<T> {
    open spec fn obeys_partial_cmp_spec() -> bool {
        Self::obeys_order()
    }

    open spec fn partial_cmp_spec(&self, other: &Self) -> Option<Ordering> {
        compare_spec::<Self>(self@, other@)
    }
}

impl<K: Ord + Clone, V: PartialOrder + Clone> PartialOrd for MapLattice<K, V> {
    /// `M1 <= M2` iff every key of `M1` is in `M2` with a value below.
    fn partial_cmp(&self, other: &Self) -> (r: Option<Ordering>) {
        compare(self, other)
    }
}

impl<K: Ord + Clone, V: PartialOrder + Clone> PartialOrdSpecImpl for MapLattice<K, V> {
    open spec fn obeys_partial_cmp_spec() -> bool {
        Self::obeys_order()
    }

    open spec fn partial_cmp_spec(&self, other: &Self) -> Option<Ordering> {
        compare_spec::<Self>(self@, other@)
    }
}

impl<T: Ord + Clone> PartialOrd for SetLattice<T> {
    /// `A <= B` iff `A` is a subset of `B`.
    fn partial_cmp(&self, other: &Self) -> (r: Option<Ordering>) {
        compare(self, other)
    }
}

impl<T: Ord + Clone> PartialOrdSpecImpl for SetLattice<T> {
    open spec fn obeys_partial_cmp_spec() -> bool {
        Self::obeys_order()
    }

    open spec fn partial_cmp_spec(&self, other: &Self) -> Option<Ordering> {
        compare_spec::<Self>(self@, other@)
    }
}

} // verus!

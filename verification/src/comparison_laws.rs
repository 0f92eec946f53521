//! The standard library's comparison of each timestamp type reports the
//! type's order: `partial_cmp` gives `Less`, `Equal`, `Greater` or `None`
//! exactly as `<=` holds one way, both ways, the other way, or neither.
use vstd::prelude::*;

use core::cmp::Ordering;
use vstd::std_specs::cmp::PartialOrdSpec;

use crate::lifted::{WithBottom, WithTop};
use crate::map_lattice::MapLattice;
use crate::order::PartialOrder;
use crate::product::{Lexicographic, ProductTimestamp};
use crate::set_lattice::SetLattice;
use crate::wrappers::{Bounded, Max, Min};

verus! {

/// `c` reports how `a` compares with `b` in `T`'s order: `Less` exactly when
/// only `a <= b`, `Equal` exactly when both hold, `Greater` exactly when only
/// `b <= a`, and `None` exactly when neither does.
pub open spec fn reports_order<T: PartialOrder>(c: Option<Ordering>, a: T::V, b: T::V) -> bool {
    &&& (c == Some(Ordering::Less)) <==> (T::leq(a, b) && !T::leq(b, a))
    &&& (c == Some(Ordering::Equal)) <==> (T::leq(a, b) && T::leq(b, a))
    &&& (c == Some(Ordering::Greater)) <==> (!T::leq(a, b) && T::leq(b, a))
    &&& (c == None::<Ordering>) <==> (!T::leq(a, b) && !T::leq(b, a))
}

/// The standard comparison of `ProductTimestamp` reports its order, and obeys its
/// specification whenever the order's operations do.
pub proof fn lemma_product_partial_cmp<T1: PartialOrder + PartialEq, T2: PartialOrder + PartialEq>(a: ProductTimestamp<T1, T2>, b: ProductTimestamp<T1, T2>)
    ensures
        ProductTimestamp::<T1, T2>::obeys_partial_cmp_spec() == ProductTimestamp::<T1, T2>::obeys_order(),
        reports_order::<ProductTimestamp<T1, T2>>(a.partial_cmp_spec(&b), a@, b@),
{
}

/// The standard comparison of `Lexicographic` reports its order, and obeys its
/// specification whenever the order's operations do.
pub proof fn lemma_lexicographic_partial_cmp<A: PartialOrder + PartialEq, B: PartialOrder + PartialEq>(a: Lexicographic<A, B>, b: Lexicographic<A, B>)
    ensures
        Lexicographic::<A, B>::obeys_partial_cmp_spec() == Lexicographic::<A, B>::obeys_order(),
        reports_order::<Lexicographic<A, B>>(a.partial_cmp_spec(&b), a@, b@),
{
}

/// The standard comparison of `Max` reports its order, and obeys its
/// specification whenever the order's operations do.
pub proof fn lemma_max_partial_cmp<T: PartialOrder + PartialEq>(a: Max<T>, b: Max<T>)
    ensures
        Max::<T>::obeys_partial_cmp_spec() == Max::<T>::obeys_order(),
        reports_order::<Max<T>>(a.partial_cmp_spec(&b), a@, b@),
{
}

/// The standard comparison of `Min` reports its order, and obeys its
/// specification whenever the order's operations do.
pub proof fn lemma_min_partial_cmp<T: PartialOrder + PartialEq>(a: Min<T>, b: Min<T>)
    ensures
        Min::<T>::obeys_partial_cmp_spec() == Min::<T>::obeys_order(),
        reports_order::<Min<T>>(a.partial_cmp_spec(&b), a@, b@),
{
}

/// The standard comparison of `Bounded` reports its order, and obeys its
/// specification whenever the order's operations do.
pub proof fn lemma_bounded_partial_cmp<T: PartialOrder + PartialEq>(a: Bounded<T>, b: Bounded<T>)
    ensures
        Bounded::<T>::obeys_partial_cmp_spec() == Bounded::<T>::obeys_order(),
        reports_order::<Bounded<T>>(a.partial_cmp_spec(&b), a@, b@),
{
}

/// The standard comparison of `WithTop` reports its order, and obeys its
/// specification whenever the order's operations do.
pub proof fn lemma_with_top_partial_cmp<T: PartialOrder + PartialEq>(a: WithTop<T>, b: WithTop<T>)
    ensures
        WithTop::<T>::obeys_partial_cmp_spec() == WithTop::<T>::obeys_order(),
        reports_order::<WithTop<T>>(a.partial_cmp_spec(&b), a@, b@),
{
}

/// The standard comparison of `WithBottom` reports its order, and obeys its
/// specification whenever the order's operations do.
pub proof fn lemma_with_bottom_partial_cmp<T: PartialOrder + PartialEq>(a: WithBottom<T>, b: WithBottom<T>)
    ensures
        WithBottom::<T>::obeys_partial_cmp_spec() == WithBottom::<T>::obeys_order(),
        reports_order::<WithBottom<T>>(a.partial_cmp_spec(&b), a@, b@),
{
}

/// The standard comparison of `MapLattice` reports its order, and obeys its
/// specification whenever the order's operations do.
pub proof fn lemma_map_partial_cmp<K: Ord + Clone, V: PartialOrder + Clone>(a: MapLattice<K, V>, b: MapLattice<K, V>)
    ensures
        MapLattice::<K, V>::obeys_partial_cmp_spec() == MapLattice::<K, V>::obeys_order(),
        reports_order::<MapLattice<K, V>>(a.partial_cmp_spec(&b), a@, b@),
{
}

/// The standard comparison of `SetLattice` reports its order, and obeys its
/// specification whenever the order's operations do.
pub proof fn lemma_set_partial_cmp<T: Ord + Clone>(a: SetLattice<T>, b: SetLattice<T>)
    ensures
        SetLattice::<T>::obeys_partial_cmp_spec() == SetLattice::<T>::obeys_order(),
        reports_order::<SetLattice<T>>(a.partial_cmp_spec(&b), a@, b@),
{
}


} // verus!

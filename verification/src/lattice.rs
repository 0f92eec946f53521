//! The lattice trait: greatest lower bound (`meet`) and least upper bound (`join`).
use vstd::prelude::*;

use crate::order::PartialOrder;

verus! {

/// Greatest lower bound (`meet`) and least upper bound (`join`).
///
/// `meet_spec` and `join_spec` say what the two operations compute on
/// abstract values. How they relate to the order of the type (lower and upper
/// bounds, commutativity, ...) is stated per type by the laws of
/// [`crate::laws`]; the predicates below name those laws.
pub trait Lattice: PartialOrder {
    /// The meet of two abstract values.
    spec fn meet_spec(a: Self::V, b: Self::V) -> Self::V;

    /// The join of two abstract values.
    spec fn join_spec(a: Self::V, b: Self::V) -> Self::V;

    /// Returns the greatest lower bound of `self` and `other`.
    fn meet(&self, other: &Self) -> (r: Self)
        ensures
            Self::obeys_order() ==> r@ == Self::meet_spec(self@, other@),
    ;

    /// Returns the least upper bound of `self` and `other`.
    fn join(&self, other: &Self) -> (r: Self)
        ensures
            Self::obeys_order() ==> r@ == Self::join_spec(self@, other@),
    ;
}

/// `meet(a, b) <= a` and `meet(a, b) <= b` for all `a`, `b`.
pub open spec fn meet_is_lower_bound<T: Lattice>() -> bool {
    forall|a: T::V, b: T::V|
        #![trigger T::meet_spec(a, b)]
        T::leq(T::meet_spec(a, b), a) && T::leq(T::meet_spec(a, b), b)
}

/// `a <= join(a, b)` and `b <= join(a, b)` for all `a`, `b`.
pub open spec fn join_is_upper_bound<T: Lattice>() -> bool {
    forall|a: T::V, b: T::V|
        #![trigger T::join_spec(a, b)]
        T::leq(a, T::join_spec(a, b)) && T::leq(b, T::join_spec(a, b))
}

/// `meet(a, b) == meet(b, a)` for all `a`, `b`.
pub open spec fn meet_commutative<T: Lattice>() -> bool {
    forall|a: T::V, b: T::V| #[trigger] T::meet_spec(a, b) == T::meet_spec(b, a)
}

/// `join(a, b) == join(b, a)` for all `a`, `b`.
pub open spec fn join_commutative<T: Lattice>() -> bool {
    forall|a: T::V, b: T::V| #[trigger] T::join_spec(a, b) == T::join_spec(b, a)
}

/// `meet(a, meet(b, c)) == meet(meet(a, b), c)` for all `a`, `b`, `c`.
pub open spec fn meet_associative<T: Lattice>() -> bool {
    forall|a: T::V, b: T::V, c: T::V|
        #![trigger T::meet_spec(a, T::meet_spec(b, c))]
        T::meet_spec(a, T::meet_spec(b, c)) == T::meet_spec(T::meet_spec(a, b), c)
}

/// `join(a, join(b, c)) == join(join(a, b), c)` for all `a`, `b`, `c`.
pub open spec fn join_associative<T: Lattice>() -> bool {
    forall|a: T::V, b: T::V, c: T::V|
        #![trigger T::join_spec(a, T::join_spec(b, c))]
        T::join_spec(a, T::join_spec(b, c)) == T::join_spec(T::join_spec(a, b), c)
}

/// `meet(a, a) == a` for all `a`.
pub open spec fn meet_idempotent<T: Lattice>() -> bool {
    forall|a: T::V| #[trigger] T::meet_spec(a, a) == a
}

/// `join(a, a) == a` for all `a`.
pub open spec fn join_idempotent<T: Lattice>() -> bool {
    forall|a: T::V| #[trigger] T::join_spec(a, a) == a
}

/// The order and the lattice operations agree:
/// `a <= b` iff `meet(a, b) == a` iff `join(a, b) == b`.
pub open spec fn order_consistent<T: Lattice>() -> bool {
    forall|a: T::V, b: T::V|
        #![trigger T::meet_spec(a, b)]
        #![trigger T::join_spec(a, b)]
        (T::leq(a, b) <==> T::meet_spec(a, b) == a) && (T::leq(a, b) <==> T::join_spec(a, b) == b)
}

} // verus!

//! Partial orders on timestamps.
//!
//! Every timestamp type of this crate is compared through [`PartialOrder`]: a
//! reflexive and transitive relation on the type's abstract value (its view),
//! together with executable comparison, equality and duplication that agree
//! with that abstract value.
use vstd::prelude::*;

verus! {

/// A type whose values are compared by a partial order (a preorder, at the
/// least), as the antichain and frontier types require of their elements.
///
/// `le` is the order on abstract values; `less_equal`, `equals` and
/// `duplicate` are the executable comparison, equality and copy.
pub trait PartialOrder: View + Sized {
    /// Whether the executable operations of this type agree with its view and
    /// with `le`. It holds for every type of this crate whose map keys and set
    /// elements obey the laws of the standard library's `Ord` (vstd's
    /// `obeys_cmp`) and clone faithfully; the primitive integers always do.
    spec fn obeys_order() -> bool;

    /// `a <= b` in this type's order.
    spec fn leq(a: Self::V, b: Self::V) -> bool;

    /// Every value is below itself.
    proof fn lemma_le_reflexive(a: Self::V)
        ensures
            Self::leq(a, a),
    ;

    /// The order is transitive.
    proof fn lemma_le_transitive(a: Self::V, b: Self::V, c: Self::V)
        requires
            Self::leq(a, b),
            Self::leq(b, c),
        ensures
            Self::leq(a, c),
    ;

    /// Returns `true` iff `self <= other`.
    fn less_equal(&self, other: &Self) -> (r: bool)
        ensures
            Self::obeys_order() ==> r == Self::leq(self@, other@),
    ;

    /// Returns `true` iff the two values are equal.
    fn equals(&self, other: &Self) -> (r: bool)
        ensures
            Self::obeys_order() ==> r == (self@ == other@),
    ;

    /// Returns a copy of `self`.
    fn duplicate(&self) -> (r: Self)
        ensures
            Self::obeys_order() ==> r@ == self@,
    ;
}

/// The order of `T` is antisymmetric: values below each other are equal.
/// Together with the laws of [`PartialOrder`] this makes it a partial order.
pub open spec fn antisymmetric<T: PartialOrder>() -> bool {
    forall|a: T::V, b: T::V| #[trigger] T::leq(a, b) && #[trigger] T::leq(b, a) ==> a == b
}

/// `a < b`: below and not above.
pub open spec fn lt<T: PartialOrder>(a: T::V, b: T::V) -> bool {
    T::leq(a, b) && !T::leq(b, a)
}

/// `a` and `b` are below each other.
pub open spec fn equivalent<T: PartialOrder>(a: T::V, b: T::V) -> bool {
    T::leq(a, b) && T::leq(b, a)
}

/// Neither value is below the other.
pub open spec fn incomparable<T: PartialOrder>(a: T::V, b: T::V) -> bool {
    !T::leq(a, b) && !T::leq(b, a)
}

/// The order of `T` is total: any two values are comparable.
pub open spec fn total<T: PartialOrder>() -> bool {
    forall|a: T::V, b: T::V| #[trigger] T::leq(a, b) || #[trigger] T::leq(b, a)
}

} // verus!

//! Pair timestamps: the product order and the lexicographic order.
use vstd::prelude::*;

use crate::lattice::Lattice;
use crate::order::{equivalent, lt, PartialOrder};

verus! {

/// A pair timestamp with the *product order*: `(a1, b1) <= (a2, b2)` iff
/// `a1 <= a2` **and** `b1 <= b2`.
///
/// This differs from the standard-library tuple order, which is
/// lexicographic. Use this type for component-wise incomparability
/// (independent partition offsets, multi-dimensional clocks). Elements that
/// are neither `<=` nor `>=` each other are incomparable.
#[derive(Clone, Debug, PartialEq, Eq)]
pub struct ProductTimestamp<T1, T2> {
    /// The first (outer) dimension.
    pub outer: T1,
    /// The second (inner) dimension.
    pub inner: T2,
}

impl<T1, T2> ProductTimestamp<T1, T2> {
    /// Creates a new `ProductTimestamp`.
    pub fn new(outer: T1, inner: T2) -> (r: Self)
        ensures
            r.outer == outer,
            r.inner == inner,
    {
        ProductTimestamp { outer, inner }
    }
}

impl<T1: View, T2: View> View for ProductTimestamp<T1, T2> {
    type V = (T1::V, T2::V);

    open spec fn view(&self) -> (T1::V, T2::V) {
        (self.outer@, self.inner@)
    }
}

impl<T1: PartialOrder, T2: PartialOrder> PartialOrder for ProductTimestamp<T1, T2> {
    open spec fn obeys_order() -> bool {
        T1::obeys_order() && T2::obeys_order()
    }

    open spec fn leq(a: (T1::V, T2::V), b: (T1::V, T2::V)) -> bool {
        T1::leq(a.0, b.0) && T2::leq(a.1, b.1)
    }

    proof fn lemma_le_reflexive(a: (T1::V, T2::V)) {
        T1::lemma_le_reflexive(a.0);
        T2::lemma_le_reflexive(a.1);
    }

    proof fn lemma_le_transitive(a: (T1::V, T2::V), b: (T1::V, T2::V), c: (T1::V, T2::V)) {
        T1::lemma_le_transitive(a.0, b.0, c.0);
        T2::lemma_le_transitive(a.1, b.1, c.1);
    }

    fn less_equal(&self, other: &Self) -> (r: bool) {
        self.outer.less_equal(&other.outer) && self.inner.less_equal(&other.inner)
    }

    fn equals(&self, other: &Self) -> (r: bool) {
        self.outer.equals(&other.outer) && self.inner.equals(&other.inner)
    }

    fn duplicate(&self) -> (r: Self) {
        ProductTimestamp { outer: self.outer.duplicate(), inner: self.inner.duplicate() }
    }
}

impl<T1: Lattice, T2: Lattice> Lattice for ProductTimestamp<T1, T2> {
    /// Component-wise meet.
    open spec fn meet_spec(a: (T1::V, T2::V), b: (T1::V, T2::V)) -> (T1::V, T2::V) {
        (T1::meet_spec(a.0, b.0), T2::meet_spec(a.1, b.1))
    }

    /// Component-wise join.
    open spec fn join_spec(a: (T1::V, T2::V), b: (T1::V, T2::V)) -> (T1::V, T2::V) {
        (T1::join_spec(a.0, b.0), T2::join_spec(a.1, b.1))
    }

    fn meet(&self, other: &Self) -> (r: Self) {
        ProductTimestamp { outer: self.outer.meet(&other.outer), inner: self.inner.meet(&other.inner) }
    }

    fn join(&self, other: &Self) -> (r: Self) {
        ProductTimestamp { outer: self.outer.join(&other.outer), inner: self.inner.join(&other.inner) }
    }
}

/// A pair timestamp with *lexicographic* order: the outer dimension decides;
/// the inner dimension breaks ties.
///
/// The outer dimension is meant to be totally ordered (an epoch), so that
/// outer comparisons are always decisive; the inner one provides sub-epoch
/// ordering. Under that condition the lattice operations compute the true
/// greatest lower bound and least upper bound of this order.
#[derive(Clone, Debug, PartialEq, Eq)]
pub struct Lexicographic<A, B> {
    /// The outer dimension, which dominates the ordering.
    pub outer: A,
    /// The inner dimension, which breaks ties when outer values are equal.
    pub inner: B,
}

impl<A, B> Lexicographic<A, B> {
    /// Creates a new `Lexicographic` timestamp.
    pub fn new(outer: A, inner: B) -> (r: Self)
        ensures
            r.outer == outer,
            r.inner == inner,
    {
        Lexicographic { outer, inner }
    }
}

impl<A: View, B: View> View for Lexicographic<A, B> {
    type V = (A::V, B::V);

    open spec fn view(&self) -> (A::V, B::V) {
        (self.outer@, self.inner@)
    }
}

impl<A: PartialOrder, B: PartialOrder> PartialOrder for Lexicographic<A, B> {
    open spec fn obeys_order() -> bool {
        A::obeys_order() && B::obeys_order()
    }

    open spec fn leq(a: (A::V, B::V), b: (A::V, B::V)) -> bool {
        ||| lt::<A>(a.0, b.0)
        ||| (equivalent::<A>(a.0, b.0) && B::leq(a.1, b.1))
    }

    proof fn lemma_le_reflexive(a: (A::V, B::V)) {
        A::lemma_le_reflexive(a.0);
        B::lemma_le_reflexive(a.1);
    }

    proof fn lemma_le_transitive(a: (A::V, B::V), b: (A::V, B::V), c: (A::V, B::V)) {
        A::lemma_le_transitive(a.0, b.0, c.0);
        if A::leq(c.0, a.0) {
            A::lemma_le_transitive(b.0, c.0, a.0);
            A::lemma_le_transitive(c.0, a.0, b.0);
        }
        if equivalent::<A>(a.0, b.0) && equivalent::<A>(b.0, c.0) {
            A::lemma_le_transitive(c.0, b.0, a.0);
            B::lemma_le_transitive(a.1, b.1, c.1);
        }
    }

    fn less_equal(&self, other: &Self) -> (r: bool) {
        let le = self.outer.less_equal(&other.outer);
        let ge = other.outer.less_equal(&self.outer);
        if le && ge {
            self.inner.less_equal(&other.inner)
        } else {
            le && !ge
        }
    }

    fn equals(&self, other: &Self) -> (r: bool) {
        self.outer.equals(&other.outer) && self.inner.equals(&other.inner)
    }

    fn duplicate(&self) -> (r: Self) {
        Lexicographic { outer: self.outer.duplicate(), inner: self.inner.duplicate() }
    }
}

impl<A: PartialOrder, B: Lattice> Lattice for Lexicographic<A, B> {
    /// The lesser timestamp; when the outer values tie, the outer value with
    /// the meet of the inner ones.
    open spec fn meet_spec(a: (A::V, B::V), b: (A::V, B::V)) -> (A::V, B::V) {
        if equivalent::<A>(a.0, b.0) {
            (a.0, B::meet_spec(a.1, b.1))
        } else if A::leq(a.0, b.0) {
            a
        } else {
            b
        }
    }

    /// The greater timestamp; when the outer values tie, the outer value with
    /// the join of the inner ones.
    open spec fn join_spec(a: (A::V, B::V), b: (A::V, B::V)) -> (A::V, B::V) {
        if equivalent::<A>(a.0, b.0) {
            (a.0, B::join_spec(a.1, b.1))
        } else if A::leq(a.0, b.0) {
            b
        } else {
            a
        }
    }

    fn meet(&self, other: &Self) -> (r: Self) {
        let le = self.outer.less_equal(&other.outer);
        let ge = other.outer.less_equal(&self.outer);
        if le && ge {
            Lexicographic { outer: self.outer.duplicate(), inner: self.inner.meet(&other.inner) }
        } else if le {
            self.duplicate()
        } else {
            other.duplicate()
        }
    }

    fn join(&self, other: &Self) -> (r: Self) {
        let le = self.outer.less_equal(&other.outer);
        let ge = other.outer.less_equal(&self.outer);
        if le && ge {
            Lexicographic { outer: self.outer.duplicate(), inner: self.inner.join(&other.inner) }
        } else if le {
            other.duplicate()
        } else {
            self.duplicate()
        }
    }
}

} // verus!

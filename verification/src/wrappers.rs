//! Order-modifier wrappers: `Max` inverts an order, `Min` keeps it, `Bounded`
//! clamps values to an interval.
use vstd::prelude::*;

use crate::lattice::Lattice;
use crate::order::{lt, PartialOrder};

verus! {

/// Wraps `T` and **inverts** its partial order: `Max(a) <= Max(b)` iff
/// `b <= a` in `T`.
///
/// Tracks "at least X" lower bounds in a [`crate::Frontier`]: because the
/// order is inverted, the conservative merge computes the `max` of the
/// underlying values, preserving the highest guaranteed lower bound.
#[derive(Clone, Debug, PartialEq, Eq)]
pub struct Max<T>(pub T);

impl<T: View> View for Max<T> {
    type V = T::V;

    open spec fn view(&self) -> T::V {
        self.0@
    }
}

impl<T: PartialOrder> PartialOrder for Max<T> {
    open spec fn obeys_order() -> bool {
        T::obeys_order()
    }

    /// Inverted ordering: `Max(a) <= Max(b)` iff `b <= a`.
    open spec fn leq(a: T::V, b: T::V) -> bool {
        T::leq(b, a)
    }

    proof fn lemma_le_reflexive(a: T::V) {
        T::lemma_le_reflexive(a);
    }

    proof fn lemma_le_transitive(a: T::V, b: T::V, c: T::V) {
        T::lemma_le_transitive(c, b, a);
    }

    fn less_equal(&self, other: &Self) -> (r: bool) {
        other.0.less_equal(&self.0)
    }

    fn equals(&self, other: &Self) -> (r: bool) {
        self.0.equals(&other.0)
    }

    fn duplicate(&self) -> (r: Self) {
        Max(self.0.duplicate())
    }
}

impl<T: Lattice> Lattice for Max<T> {
    /// Greatest lower bound in the inverted order: the join of the values.
    open spec fn meet_spec(a: T::V, b: T::V) -> T::V {
        T::join_spec(a, b)
    }

    /// Least upper bound in the inverted order: the meet of the values.
    open spec fn join_spec(a: T::V, b: T::V) -> T::V {
        T::meet_spec(a, b)
    }

    fn meet(&self, other: &Self) -> (r: Self) {
        Max(self.0.join(&other.0))
    }

    fn join(&self, other: &Self) -> (r: Self) {
        Max(self.0.meet(&other.0))
    }
}

/// Wraps `T` preserving its natural partial order: `Min(a) <= Min(b)` iff
/// `a <= b`.
///
/// Tracks "at most Y" upper bounds alongside [`Max`] lower bounds, as in the
/// composite `(Max<T>, Min<T>)`. The lattice delegates to `T`.
#[derive(Clone, Debug, PartialEq, Eq)]
pub struct Min<T>(pub T);

impl<T: View> View for Min<T> {
    type V = T::V;

    open spec fn view(&self) -> T::V {
        self.0@
    }
}

impl<T: PartialOrder> PartialOrder for Min<T> {
    open spec fn obeys_order() -> bool {
        T::obeys_order()
    }

    open spec fn leq(a: T::V, b: T::V) -> bool {
        T::leq(a, b)
    }

    proof fn lemma_le_reflexive(a: T::V) {
        T::lemma_le_reflexive(a);
    }

    proof fn lemma_le_transitive(a: T::V, b: T::V, c: T::V) {
        T::lemma_le_transitive(a, b, c);
    }

    fn less_equal(&self, other: &Self) -> (r: bool) {
        self.0.less_equal(&other.0)
    }

    fn equals(&self, other: &Self) -> (r: bool) {
        self.0.equals(&other.0)
    }

    fn duplicate(&self) -> (r: Self) {
        Min(self.0.duplicate())
    }
}

impl<T: Lattice> Lattice for Min<T> {
    open spec fn meet_spec(a: T::V, b: T::V) -> T::V {
        T::meet_spec(a, b)
    }

    open spec fn join_spec(a: T::V, b: T::V) -> T::V {
        T::join_spec(a, b)
    }

    fn meet(&self, other: &Self) -> (r: Self) {
        Min(self.0.meet(&other.0))
    }

    fn join(&self, other: &Self) -> (r: Self) {
        Min(self.0.join(&other.0))
    }
}

/// `v` clamped to `[lo, hi]`: `lo` if `v < lo`, `hi` if `v > hi`, else `v`
/// (also when `v` is incomparable with a bound).
pub open spec fn clamp<T: PartialOrder>(v: T::V, lo: T::V, hi: T::V) -> T::V {
    if lt::<T>(v, lo) {
        lo
    } else if lt::<T>(hi, v) {
        hi
    } else {
        v
    }
}

/// A timestamp wrapper that restricts values to the interval `[min, max]`.
///
/// Values are clamped to `[min, max]` at construction; the lattice operations
/// clamp their result to the bounds of `self`. Two `Bounded<T>` values compare
/// by their value only. A value incomparable with the bounds is stored as it
/// is, without clamping.
#[derive(Clone, Debug, PartialEq, Eq)]
pub struct Bounded<T> {
    /// The current value.
    pub value: T,
    /// The inclusive lower bound of the range.
    pub min: T,
    /// The inclusive upper bound of the range.
    pub max: T,
}

impl<T: View> View for Bounded<T> {
    /// `(value, min, max)`.
    type V = (T::V, T::V, T::V);

    open spec fn view(&self) -> (T::V, T::V, T::V) {
        (self.value@, self.min@, self.max@)
    }
}

impl<T: PartialOrder> Bounded<T> {
    /// Returns `v` clamped to `[lo, hi]`.
    fn clamped(v: T, lo: &T, hi: &T) -> (r: T)
        ensures
            T::obeys_order() ==> r@ == clamp::<T>(v@, lo@, hi@),
    {
        if v.less_equal(lo) && !lo.less_equal(&v) {
            lo.duplicate()
        } else if hi.less_equal(&v) && !v.less_equal(hi) {
            hi.duplicate()
        } else {
            v
        }
    }

    /// Creates a `Bounded<T>`, clamping `value` to `[min, max]`.
    ///
    /// `min <= max` is required; incomparable bounds do not meet it.
    pub fn new(value: T, min: T, max: T) -> (r: Self)
        requires
            T::obeys_order(),
            T::leq(min@, max@),
        ensures
            r@ == (clamp::<T>(value@, min@, max@), min@, max@),
    {
        let value = Self::clamped(value, &min, &max);
        Bounded { value, min, max }
    }

    /// Returns a reference to the current value.
    pub fn value(&self) -> (r: &T)
        ensures
            r == &self.value,
    {
        &self.value
    }
}

impl<T: PartialOrder> PartialOrder for Bounded<T> {
    open spec fn obeys_order() -> bool {
        T::obeys_order()
    }

    /// Ordered by value.
    open spec fn leq(a: (T::V, T::V, T::V), b: (T::V, T::V, T::V)) -> bool {
        T::leq(a.0, b.0)
    }

    proof fn lemma_le_reflexive(a: (T::V, T::V, T::V)) {
        T::lemma_le_reflexive(a.0);
    }

    proof fn lemma_le_transitive(a: (T::V, T::V, T::V), b: (T::V, T::V, T::V), c: (T::V, T::V, T::V)) {
        T::lemma_le_transitive(a.0, b.0, c.0);
    }

    fn less_equal(&self, other: &Self) -> (r: bool) {
        self.value.less_equal(&other.value)
    }

    fn equals(&self, other: &Self) -> (r: bool) {
        self.value.equals(&other.value) && self.min.equals(&other.min) && self.max.equals(&other.max)
    }

    fn duplicate(&self) -> (r: Self) {
        Bounded { value: self.value.duplicate(), min: self.min.duplicate(), max: self.max.duplicate() }
    }
}

impl<T: Lattice> Lattice for Bounded<T> {
    /// The meet of the values, clamped to the bounds of `a`.
    open spec fn meet_spec(a: (T::V, T::V, T::V), b: (T::V, T::V, T::V)) -> (T::V, T::V, T::V) {
        (clamp::<T>(T::meet_spec(a.0, b.0), a.1, a.2), a.1, a.2)
    }

    /// The join of the values, clamped to the bounds of `a`.
    open spec fn join_spec(a: (T::V, T::V, T::V), b: (T::V, T::V, T::V)) -> (T::V, T::V, T::V) {
        (clamp::<T>(T::join_spec(a.0, b.0), a.1, a.2), a.1, a.2)
    }

    fn meet(&self, other: &Self) -> (r: Self) {
        let v = self.value.meet(&other.value);
        let v = Self::clamped(v, &self.min, &self.max);
        Bounded { value: v, min: self.min.duplicate(), max: self.max.duplicate() }
    }

    fn join(&self, other: &Self) -> (r: Self) {
        let v = self.value.join(&other.value);
        let v = Self::clamped(v, &self.min, &self.max);
        Bounded { value: v, min: self.min.duplicate(), max: self.max.duplicate() }
    }
}

} // verus!

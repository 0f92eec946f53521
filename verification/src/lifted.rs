//! Lifted lattices: a `Top` above all values, or a `Bottom` below them.
use vstd::prelude::*;

use crate::lattice::Lattice;
use crate::order::PartialOrder;

verus! {

/// Lifts `T` by adding a single `Top` element above all `Value(t)`.
///
/// - `Top` absorbs [`Lattice::join`]: `join(Top, x) = Top`.
/// - `Top` is the identity of [`Lattice::meet`]: `meet(Top, x) = x`.
///
/// Compose with [`WithBottom`] (`WithTop<WithBottom<T>>`) for the closed
/// lattice `Bottom < Value(t) < Top`.
#[derive(Clone, Debug, PartialEq, Eq)]
pub enum WithTop<T> {
    /// A wrapped value, below `Top`.
    Value(T),
    /// The top element, above all `Value(t)`.
    Top,
}

impl<T: View> View for WithTop<T> {
    /// `Some(t@)` for `Value(t)`, `None` for `Top`.
    type V = Option<T::V>;

    open spec fn view(&self) -> Option<T::V> {
        match self {
            WithTop::Value(t) => Some(t@),
            WithTop::Top => None,
        }
    }
}

impl<T: PartialOrder> PartialOrder for WithTop<T> {
    open spec fn obeys_order() -> bool {
        T::obeys_order()
    }

    open spec fn leq(a: Option<T::V>, b: Option<T::V>) -> bool {
        match (a, b) {
            (_, None) => true,
            (None, Some(_)) => false,
            (Some(x), Some(y)) => T::leq(x, y),
        }
    }

    proof fn lemma_le_reflexive(a: Option<T::V>) {
        if let Some(x) = a {
            T::lemma_le_reflexive(x);
        }
    }

    proof fn lemma_le_transitive(a: Option<T::V>, b: Option<T::V>, c: Option<T::V>) {
        if let (Some(x), Some(y), Some(z)) = (a, b, c) {
            T::lemma_le_transitive(x, y, z);
        }
    }

    fn less_equal(&self, other: &Self) -> (r: bool) {
        match (self, other) {
            (_, WithTop::Top) => true,
            (WithTop::Top, WithTop::Value(_)) => false,
            (WithTop::Value(a), WithTop::Value(b)) => a.less_equal(b),
        }
    }

    fn equals(&self, other: &Self) -> (r: bool) {
        match (self, other) {
            (WithTop::Top, WithTop::Top) => true,
            (WithTop::Value(a), WithTop::Value(b)) => a.equals(b),
            _ => false,
        }
    }

    fn duplicate(&self) -> (r: Self) {
        match self {
            WithTop::Top => WithTop::Top,
            WithTop::Value(a) => WithTop::Value(a.duplicate()),
        }
    }
}

impl<T: Lattice> Lattice for WithTop<T> {
    /// `Top` is the identity; two values meet inside `T`.
    open spec fn meet_spec(a: Option<T::V>, b: Option<T::V>) -> Option<T::V> {
        match (a, b) {
            (None, _) => b,
            (_, None) => a,
            (Some(x), Some(y)) => Some(T::meet_spec(x, y)),
        }
    }

    /// `Top` absorbs; two values join inside `T`.
    open spec fn join_spec(a: Option<T::V>, b: Option<T::V>) -> Option<T::V> {
        match (a, b) {
            (Some(x), Some(y)) => Some(T::join_spec(x, y)),
            _ => None,
        }
    }

    fn meet(&self, other: &Self) -> (r: Self) {
        match (self, other) {
            (WithTop::Top, x) => x.duplicate(),
            (x, WithTop::Top) => x.duplicate(),
            (WithTop::Value(a), WithTop::Value(b)) => WithTop::Value(a.meet(b)),
        }
    }

    fn join(&self, other: &Self) -> (r: Self) {
        match (self, other) {
            (WithTop::Value(a), WithTop::Value(b)) => WithTop::Value(a.join(b)),
            _ => WithTop::Top,
        }
    }
}

/// Lifts `T` by adding a single `Bottom` element below all `Value(t)`.
///
/// - `Bottom` absorbs [`Lattice::meet`]: `meet(Bottom, x) = Bottom`.
/// - `Bottom` is the identity of [`Lattice::join`]: `join(Bottom, x) = x`.
#[derive(Clone, Debug, PartialEq, Eq)]
pub enum WithBottom<T> {
    /// The bottom element, below all `Value(t)`.
    Bottom,
    /// A wrapped value, above `Bottom`.
    Value(T),
}

impl<T: View> View for WithBottom<T> {
    /// `Some(t@)` for `Value(t)`, `None` for `Bottom`.
    type V = Option<T::V>;

    open spec fn view(&self) -> Option<T::V> {
        match self {
            WithBottom::Value(t) => Some(t@),
            WithBottom::Bottom => None,
        }
    }
}

impl<T: PartialOrder> PartialOrder for WithBottom<T> {
    open spec fn obeys_order() -> bool {
        T::obeys_order()
    }

    open spec fn leq(a: Option<T::V>, b: Option<T::V>) -> bool {
        match (a, b) {
            (None, _) => true,
            (Some(_), None) => false,
            (Some(x), Some(y)) => T::leq(x, y),
        }
    }

    proof fn lemma_le_reflexive(a: Option<T::V>) {
        if let Some(x) = a {
            T::lemma_le_reflexive(x);
        }
    }

    proof fn lemma_le_transitive(a: Option<T::V>, b: Option<T::V>, c: Option<T::V>) {
        if let (Some(x), Some(y), Some(z)) = (a, b, c) {
            T::lemma_le_transitive(x, y, z);
        }
    }

    fn less_equal(&self, other: &Self) -> (r: bool) {
        match (self, other) {
            (WithBottom::Bottom, _) => true,
            (WithBottom::Value(_), WithBottom::Bottom) => false,
            (WithBottom::Value(a), WithBottom::Value(b)) => a.less_equal(b),
        }
    }

    fn equals(&self, other: &Self) -> (r: bool) {
        match (self, other) {
            (WithBottom::Bottom, WithBottom::Bottom) => true,
            (WithBottom::Value(a), WithBottom::Value(b)) => a.equals(b),
            _ => false,
        }
    }

    fn duplicate(&self) -> (r: Self) {
        match self {
            WithBottom::Bottom => WithBottom::Bottom,
            WithBottom::Value(a) => WithBottom::Value(a.duplicate()),
        }
    }
}

impl<T: Lattice> Lattice for WithBottom<T> {
    /// `Bottom` absorbs; two values meet inside `T`.
    open spec fn meet_spec(a: Option<T::V>, b: Option<T::V>) -> Option<T::V> {
        match (a, b) {
            (Some(x), Some(y)) => Some(T::meet_spec(x, y)),
            _ => None,
        }
    }

    /// `Bottom` is the identity; two values join inside `T`.
    open spec fn join_spec(a: Option<T::V>, b: Option<T::V>) -> Option<T::V> {
        match (a, b) {
            (None, _) => b,
            (_, None) => a,
            (Some(x), Some(y)) => Some(T::join_spec(x, y)),
        }
    }

    fn meet(&self, other: &Self) -> (r: Self) {
        match (self, other) {
            (WithBottom::Value(a), WithBottom::Value(b)) => WithBottom::Value(a.meet(b)),
            _ => WithBottom::Bottom,
        }
    }

    fn join(&self, other: &Self) -> (r: Self) {
        match (self, other) {
            (WithBottom::Bottom, x) => x.duplicate(),
            (x, WithBottom::Bottom) => x.duplicate(),
            (WithBottom::Value(a), WithBottom::Value(b)) => WithBottom::Value(a.join(b)),
        }
    }
}

} // verus!

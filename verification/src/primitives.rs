//! The lattice of the primitive integers (meet is `min`, join is `max`) and
//! the component-wise lattice of pairs.
use vstd::prelude::*;

use crate::lattice::Lattice;
use crate::order::{equivalent, lt, PartialOrder};

verus! {

impl PartialOrder for u8 {
    open spec fn obeys_order() -> bool {
        true
    }

    open spec fn leq(a: u8, b: u8) -> bool {
        a <= b
    }

    proof fn lemma_le_reflexive(a: u8) {
    }

    proof fn lemma_le_transitive(a: u8, b: u8, c: u8) {
    }

    fn less_equal(&self, other: &u8) -> (r: bool) {
        *self <= *other
    }

    fn equals(&self, other: &u8) -> (r: bool) {
        *self == *other
    }

    fn duplicate(&self) -> (r: u8) {
        *self
    }
}

impl Lattice for u8 {
    open spec fn meet_spec(a: u8, b: u8) -> u8 {
        if a <= b { a } else { b }
    }

    open spec fn join_spec(a: u8, b: u8) -> u8 {
        if a <= b { b } else { a }
    }

    fn meet(&self, other: &u8) -> (r: u8) {
        if *self <= *other { *self } else { *other }
    }

    fn join(&self, other: &u8) -> (r: u8) {
        if *self <= *other { *other } else { *self }
    }
}

impl PartialOrder for u16 {
    open spec fn obeys_order() -> bool {
        true
    }

    open spec fn leq(a: u16, b: u16) -> bool {
        a <= b
    }

    proof fn lemma_le_reflexive(a: u16) {
    }

    proof fn lemma_le_transitive(a: u16, b: u16, c: u16) {
    }

    fn less_equal(&self, other: &u16) -> (r: bool) {
        *self <= *other
    }

    fn equals(&self, other: &u16) -> (r: bool) {
        *self == *other
    }

    fn duplicate(&self) -> (r: u16) {
        *self
    }
}

impl Lattice for u16 {
    open spec fn meet_spec(a: u16, b: u16) -> u16 {
        if a <= b { a } else { b }
    }

    open spec fn join_spec(a: u16, b: u16) -> u16 {
        if a <= b { b } else { a }
    }

    fn meet(&self, other: &u16) -> (r: u16) {
        if *self <= *other { *self } else { *other }
    }

    fn join(&self, other: &u16) -> (r: u16) {
        if *self <= *other { *other } else { *self }
    }
}

impl PartialOrder for u32 {
    open spec fn obeys_order() -> bool {
        true
    }

    open spec fn leq(a: u32, b: u32) -> bool {
        a <= b
    }

    proof fn lemma_le_reflexive(a: u32) {
    }

    proof fn lemma_le_transitive(a: u32, b: u32, c: u32) {
    }

    fn less_equal(&self, other: &u32) -> (r: bool) {
        *self <= *other
    }

    fn equals(&self, other: &u32) -> (r: bool) {
        *self == *other
    }

    fn duplicate(&self) -> (r: u32) {
        *self
    }
}

impl Lattice for u32 {
    open spec fn meet_spec(a: u32, b: u32) -> u32 {
        if a <= b { a } else { b }
    }

    open spec fn join_spec(a: u32, b: u32) -> u32 {
        if a <= b { b } else { a }
    }

    fn meet(&self, other: &u32) -> (r: u32) {
        if *self <= *other { *self } else { *other }
    }

    fn join(&self, other: &u32) -> (r: u32) {
        if *self <= *other { *other } else { *self }
    }
}

impl PartialOrder for u64 {
    open spec fn obeys_order() -> bool {
        true
    }

    open spec fn leq(a: u64, b: u64) -> bool {
        a <= b
    }

    proof fn lemma_le_reflexive(a: u64) {
    }

    proof fn lemma_le_transitive(a: u64, b: u64, c: u64) {
    }

    fn less_equal(&self, other: &u64) -> (r: bool) {
        *self <= *other
    }

    fn equals(&self, other: &u64) -> (r: bool) {
        *self == *other
    }

    fn duplicate(&self) -> (r: u64) {
        *self
    }
}

impl Lattice for u64 {
    open spec fn meet_spec(a: u64, b: u64) -> u64 {
        if a <= b { a } else { b }
    }

    open spec fn join_spec(a: u64, b: u64) -> u64 {
        if a <= b { b } else { a }
    }

    fn meet(&self, other: &u64) -> (r: u64) {
        if *self <= *other { *self } else { *other }
    }

    fn join(&self, other: &u64) -> (r: u64) {
        if *self <= *other { *other } else { *self }
    }
}

impl PartialOrder for u128 {
    open spec fn obeys_order() -> bool {
        true
    }

    open spec fn leq(a: u128, b: u128) -> bool {
        a <= b
    }

    proof fn lemma_le_reflexive(a: u128) {
    }

    proof fn lemma_le_transitive(a: u128, b: u128, c: u128) {
    }

    fn less_equal(&self, other: &u128) -> (r: bool) {
        *self <= *other
    }

    fn equals(&self, other: &u128) -> (r: bool) {
        *self == *other
    }

    fn duplicate(&self) -> (r: u128) {
        *self
    }
}

impl Lattice for u128 {
    open spec fn meet_spec(a: u128, b: u128) -> u128 {
        if a <= b { a } else { b }
    }

    open spec fn join_spec(a: u128, b: u128) -> u128 {
        if a <= b { b } else { a }
    }

    fn meet(&self, other: &u128) -> (r: u128) {
        if *self <= *other { *self } else { *other }
    }

    fn join(&self, other: &u128) -> (r: u128) {
        if *self <= *other { *other } else { *self }
    }
}

impl PartialOrder for usize {
    open spec fn obeys_order() -> bool {
        true
    }

    open spec fn leq(a: usize, b: usize) -> bool {
        a <= b
    }

    proof fn lemma_le_reflexive(a: usize) {
    }

    proof fn lemma_le_transitive(a: usize, b: usize, c: usize) {
    }

    fn less_equal(&self, other: &usize) -> (r: bool) {
        *self <= *other
    }

    fn equals(&self, other: &usize) -> (r: bool) {
        *self == *other
    }

    fn duplicate(&self) -> (r: usize) {
        *self
    }
}

impl Lattice for usize {
    open spec fn meet_spec(a: usize, b: usize) -> usize {
        if a <= b { a } else { b }
    }

    open spec fn join_spec(a: usize, b: usize) -> usize {
        if a <= b { b } else { a }
    }

    fn meet(&self, other: &usize) -> (r: usize) {
        if *self <= *other { *self } else { *other }
    }

    fn join(&self, other: &usize) -> (r: usize) {
        if *self <= *other { *other } else { *self }
    }
}

impl PartialOrder for i8 {
    open spec fn obeys_order() -> bool {
        true
    }

    open spec fn leq(a: i8, b: i8) -> bool {
        a <= b
    }

    proof fn lemma_le_reflexive(a: i8) {
    }

    proof fn lemma_le_transitive(a: i8, b: i8, c: i8) {
    }

    fn less_equal(&self, other: &i8) -> (r: bool) {
        *self <= *other
    }

    fn equals(&self, other: &i8) -> (r: bool) {
        *self == *other
    }

    fn duplicate(&self) -> (r: i8) {
        *self
    }
}

impl Lattice for i8 {
    open spec fn meet_spec(a: i8, b: i8) -> i8 {
        if a <= b { a } else { b }
    }

    open spec fn join_spec(a: i8, b: i8) -> i8 {
        if a <= b { b } else { a }
    }

    fn meet(&self, other: &i8) -> (r: i8) {
        if *self <= *other { *self } else { *other }
    }

    fn join(&self, other: &i8) -> (r: i8) {
        if *self <= *other { *other } else { *self }
    }
}

impl PartialOrder for i16 {
    open spec fn obeys_order() -> bool {
        true
    }

    open spec fn leq(a: i16, b: i16) -> bool {
        a <= b
    }

    proof fn lemma_le_reflexive(a: i16) {
    }

    proof fn lemma_le_transitive(a: i16, b: i16, c: i16) {
    }

    fn less_equal(&self, other: &i16) -> (r: bool) {
        *self <= *other
    }

    fn equals(&self, other: &i16) -> (r: bool) {
        *self == *other
    }

    fn duplicate(&self) -> (r: i16) {
        *self
    }
}

impl Lattice for i16 {
    open spec fn meet_spec(a: i16, b: i16) -> i16 {
        if a <= b { a } else { b }
    }

    open spec fn join_spec(a: i16, b: i16) -> i16 {
        if a <= b { b } else { a }
    }

    fn meet(&self, other: &i16) -> (r: i16) {
        if *self <= *other { *self } else { *other }
    }

    fn join(&self, other: &i16) -> (r: i16) {
        if *self <= *other { *other } else { *self }
    }
}

impl PartialOrder for i32 {
    open spec fn obeys_order() -> bool {
        true
    }

    open spec fn leq(a: i32, b: i32) -> bool {
        a <= b
    }

    proof fn lemma_le_reflexive(a: i32) {
    }

    proof fn lemma_le_transitive(a: i32, b: i32, c: i32) {
    }

    fn less_equal(&self, other: &i32) -> (r: bool) {
        *self <= *other
    }

    fn equals(&self, other: &i32) -> (r: bool) {
        *self == *other
    }

    fn duplicate(&self) -> (r: i32) {
        *self
    }
}

impl Lattice for i32 {
    open spec fn meet_spec(a: i32, b: i32) -> i32 {
        if a <= b { a } else { b }
    }

    open spec fn join_spec(a: i32, b: i32) -> i32 {
        if a <= b { b } else { a }
    }

    fn meet(&self, other: &i32) -> (r: i32) {
        if *self <= *other { *self } else { *other }
    }

    fn join(&self, other: &i32) -> (r: i32) {
        if *self <= *other { *other } else { *self }
    }
}

impl PartialOrder for i64 {
    open spec fn obeys_order() -> bool {
        true
    }

    open spec fn leq(a: i64, b: i64) -> bool {
        a <= b
    }

    proof fn lemma_le_reflexive(a: i64) {
    }

    proof fn lemma_le_transitive(a: i64, b: i64, c: i64) {
    }

    fn less_equal(&self, other: &i64) -> (r: bool) {
        *self <= *other
    }

    fn equals(&self, other: &i64) -> (r: bool) {
        *self == *other
    }

    fn duplicate(&self) -> (r: i64) {
        *self
    }
}

impl Lattice for i64 {
    open spec fn meet_spec(a: i64, b: i64) -> i64 {
        if a <= b { a } else { b }
    }

    open spec fn join_spec(a: i64, b: i64) -> i64 {
        if a <= b { b } else { a }
    }

    fn meet(&self, other: &i64) -> (r: i64) {
        if *self <= *other { *self } else { *other }
    }

    fn join(&self, other: &i64) -> (r: i64) {
        if *self <= *other { *other } else { *self }
    }
}

impl PartialOrder for i128 {
    open spec fn obeys_order() -> bool {
        true
    }

    open spec fn leq(a: i128, b: i128) -> bool {
        a <= b
    }

    proof fn lemma_le_reflexive(a: i128) {
    }

    proof fn lemma_le_transitive(a: i128, b: i128, c: i128) {
    }

    fn less_equal(&self, other: &i128) -> (r: bool) {
        *self <= *other
    }

    fn equals(&self, other: &i128) -> (r: bool) {
        *self == *other
    }

    fn duplicate(&self) -> (r: i128) {
        *self
    }
}

impl Lattice for i128 {
    open spec fn meet_spec(a: i128, b: i128) -> i128 {
        if a <= b { a } else { b }
    }

    open spec fn join_spec(a: i128, b: i128) -> i128 {
        if a <= b { b } else { a }
    }

    fn meet(&self, other: &i128) -> (r: i128) {
        if *self <= *other { *self } else { *other }
    }

    fn join(&self, other: &i128) -> (r: i128) {
        if *self <= *other { *other } else { *self }
    }
}

impl PartialOrder for isize {
    open spec fn obeys_order() -> bool {
        true
    }

    open spec fn leq(a: isize, b: isize) -> bool {
        a <= b
    }

    proof fn lemma_le_reflexive(a: isize) {
    }

    proof fn lemma_le_transitive(a: isize, b: isize, c: isize) {
    }

    fn less_equal(&self, other: &isize) -> (r: bool) {
        *self <= *other
    }

    fn equals(&self, other: &isize) -> (r: bool) {
        *self == *other
    }

    fn duplicate(&self) -> (r: isize) {
        *self
    }
}

impl Lattice for isize {
    open spec fn meet_spec(a: isize, b: isize) -> isize {
        if a <= b { a } else { b }
    }

    open spec fn join_spec(a: isize, b: isize) -> isize {
        if a <= b { b } else { a }
    }

    fn meet(&self, other: &isize) -> (r: isize) {
        if *self <= *other { *self } else { *other }
    }

    fn join(&self, other: &isize) -> (r: isize) {
        if *self <= *other { *other } else { *self }
    }
}

/// Pairs are ordered lexicographically, as the standard library orders
/// tuples: the first components decide unless they are equivalent, in which
/// case the second components do.
impl<A: PartialOrder, B: PartialOrder> PartialOrder for (A, B) {
    open spec fn obeys_order() -> bool {
        A::obeys_order() && B::obeys_order()
    }

    open spec fn leq(a: (A::V, B::V), b: (A::V, B::V)) -> bool {
        ||| lt::<A>(a.0, b.0)
        ||| (equivalent::<A>(a.0, b.0) && B::leq(a.1, b.1))
    }

    proof fn lemma_le_reflexive(a: (A::V, B::V)) {
        A::lemma_le_reflexive(a.0);
        B::lemma_le_reflexive(a.1);
    }

    proof fn lemma_le_transitive(a: (A::V, B::V), b: (A::V, B::V), c: (A::V, B::V)) {
        A::lemma_le_transitive(a.0, b.0, c.0);
        if A::leq(c.0, a.0) {
            A::lemma_le_transitive(b.0, c.0, a.0);
            A::lemma_le_transitive(c.0, a.0, b.0);
        }
        if equivalent::<A>(a.0, b.0) && equivalent::<A>(b.0, c.0) {
            A::lemma_le_transitive(c.0, b.0, a.0);
            B::lemma_le_transitive(a.1, b.1, c.1);
        }
    }

    fn less_equal(&self, other: &(A, B)) -> (r: bool) {
        let le0 = self.0.less_equal(&other.0);
        let ge0 = other.0.less_equal(&self.0);
        if le0 && ge0 {
            self.1.less_equal(&other.1)
        } else {
            le0 && !ge0
        }
    }

    fn equals(&self, other: &(A, B)) -> (r: bool) {
        self.0.equals(&other.0) && self.1.equals(&other.1)
    }

    fn duplicate(&self) -> (r: (A, B)) {
        (self.0.duplicate(), self.1.duplicate())
    }
}

/// Component-wise lattice for pairs.
///
/// Pairs are ordered lexicographically (see above), so these component-wise
/// operations are not the greatest lower bound / least upper bound of that
/// order; use [`crate::ProductTimestamp`] for the product order.
impl<A: Lattice, B: Lattice> Lattice for (A, B) {
    open spec fn meet_spec(a: (A::V, B::V), b: (A::V, B::V)) -> (A::V, B::V) {
        (A::meet_spec(a.0, b.0), B::meet_spec(a.1, b.1))
    }

    open spec fn join_spec(a: (A::V, B::V), b: (A::V, B::V)) -> (A::V, B::V) {
        (A::join_spec(a.0, b.0), B::join_spec(a.1, b.1))
    }

    fn meet(&self, other: &(A, B)) -> (r: (A, B)) {
        (self.0.meet(&other.0), self.1.meet(&other.1))
    }

    fn join(&self, other: &(A, B)) -> (r: (A, B)) {
        (self.0.join(&other.0), self.1.join(&other.1))
    }
}

} // verus!

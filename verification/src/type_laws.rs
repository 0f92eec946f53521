//! What the order, `meet` and `join` of each timestamp type are, stated over
//! the components of its values: the numeric order with `min` and `max` for
//! the integers, the lexicographic order with component-wise operations for
//! pairs, the product order for `ProductTimestamp`, the epoch-first order for
//! `Lexicographic`, the inverted order for `Max`, inclusion for maps and sets,
//! and so on; and that the standard library's `partial_cmp` of each type
//! reports its order (see [`crate::std_cmp`]).
use vstd::prelude::*;

use crate::lattice::Lattice;
use crate::lifted::{WithBottom, WithTop};
use crate::map_lattice::{faithful_clone, MapLattice};
use vstd::laws_cmp::obeys_cmp;
use crate::order::PartialOrder;
use crate::product::{Lexicographic, ProductTimestamp};
use crate::set_lattice::SetLattice;
use crate::wrappers::{clamp, Bounded, Max, Min};

verus! {

/// `u8` is ordered numerically: `a <= b` as integers; `meet` is the
/// minimum and `join` the maximum, and its operations always obey the order.
pub proof fn lemma_u8_numeric(a: u8, b: u8)
    ensures
        <u8 as PartialOrder>::obeys_order(),
        <u8 as PartialOrder>::leq(a, b) <==> a <= b,
        <u8 as Lattice>::meet_spec(a, b) <= a,
        <u8 as Lattice>::meet_spec(a, b) <= b,
        <u8 as Lattice>::meet_spec(a, b) == a || <u8 as Lattice>::meet_spec(a, b) == b,
        a <= <u8 as Lattice>::join_spec(a, b),
        b <= <u8 as Lattice>::join_spec(a, b),
        <u8 as Lattice>::join_spec(a, b) == a || <u8 as Lattice>::join_spec(a, b) == b,
{
}

/// `u16` is ordered numerically: `a <= b` as integers; `meet` is the
/// minimum and `join` the maximum, and its operations always obey the order.
pub proof fn lemma_u16_numeric(a: u16, b: u16)
    ensures
        <u16 as PartialOrder>::obeys_order(),
        <u16 as PartialOrder>::leq(a, b) <==> a <= b,
        <u16 as Lattice>::meet_spec(a, b) <= a,
        <u16 as Lattice>::meet_spec(a, b) <= b,
        <u16 as Lattice>::meet_spec(a, b) == a || <u16 as Lattice>::meet_spec(a, b) == b,
        a <= <u16 as Lattice>::join_spec(a, b),
        b <= <u16 as Lattice>::join_spec(a, b),
        <u16 as Lattice>::join_spec(a, b) == a || <u16 as Lattice>::join_spec(a, b) == b,
{
}

/// `u32` is ordered numerically: `a <= b` as integers; `meet` is the
/// minimum and `join` the maximum, and its operations always obey the order.
pub proof fn lemma_u32_numeric(a: u32, b: u32)
    ensures
        <u32 as PartialOrder>::obeys_order(),
        <u32 as PartialOrder>::leq(a, b) <==> a <= b,
        <u32 as Lattice>::meet_spec(a, b) <= a,
        <u32 as Lattice>::meet_spec(a, b) <= b,
        <u32 as Lattice>::meet_spec(a, b) == a || <u32 as Lattice>::meet_spec(a, b) == b,
        a <= <u32 as Lattice>::join_spec(a, b),
        b <= <u32 as Lattice>::join_spec(a, b),
        <u32 as Lattice>::join_spec(a, b) == a || <u32 as Lattice>::join_spec(a, b) == b,
{
}

/// `u64` is ordered numerically: `a <= b` as integers; `meet` is the
/// minimum and `join` the maximum, and its operations always obey the order.
pub proof fn lemma_u64_numeric(a: u64, b: u64)
    ensures
        <u64 as PartialOrder>::obeys_order(),
        <u64 as PartialOrder>::leq(a, b) <==> a <= b,
        <u64 as Lattice>::meet_spec(a, b) <= a,
        <u64 as Lattice>::meet_spec(a, b) <= b,
        <u64 as Lattice>::meet_spec(a, b) == a || <u64 as Lattice>::meet_spec(a, b) == b,
        a <= <u64 as Lattice>::join_spec(a, b),
        b <= <u64 as Lattice>::join_spec(a, b),
        <u64 as Lattice>::join_spec(a, b) == a || <u64 as Lattice>::join_spec(a, b) == b,
{
}

/// `u128` is ordered numerically: `a <= b` as integers; `meet` is the
/// minimum and `join` the maximum, and its operations always obey the order.
pub proof fn lemma_u128_numeric(a: u128, b: u128)
    ensures
        <u128 as PartialOrder>::obeys_order(),
        <u128 as PartialOrder>::leq(a, b) <==> a <= b,
        <u128 as Lattice>::meet_spec(a, b) <= a,
        <u128 as Lattice>::meet_spec(a, b) <= b,
        <u128 as Lattice>::meet_spec(a, b) == a || <u128 as Lattice>::meet_spec(a, b) == b,
        a <= <u128 as Lattice>::join_spec(a, b),
        b <= <u128 as Lattice>::join_spec(a, b),
        <u128 as Lattice>::join_spec(a, b) == a || <u128 as Lattice>::join_spec(a, b) == b,
{
}

/// `usize` is ordered numerically: `a <= b` as integers; `meet` is the
/// minimum and `join` the maximum, and its operations always obey the order.
pub proof fn lemma_usize_numeric(a: usize, b: usize)
    ensures
        <usize as PartialOrder>::obeys_order(),
        <usize as PartialOrder>::leq(a, b) <==> a <= b,
        <usize as Lattice>::meet_spec(a, b) <= a,
        <usize as Lattice>::meet_spec(a, b) <= b,
        <usize as Lattice>::meet_spec(a, b) == a || <usize as Lattice>::meet_spec(a, b) == b,
        a <= <usize as Lattice>::join_spec(a, b),
        b <= <usize as Lattice>::join_spec(a, b),
        <usize as Lattice>::join_spec(a, b) == a || <usize as Lattice>::join_spec(a, b) == b,
{
}

/// `i8` is ordered numerically: `a <= b` as integers; `meet` is the
/// minimum and `join` the maximum, and its operations always obey the order.
pub proof fn lemma_i8_numeric(a: i8, b: i8)
    ensures
        <i8 as PartialOrder>::obeys_order(),
        <i8 as PartialOrder>::leq(a, b) <==> a <= b,
        <i8 as Lattice>::meet_spec(a, b) <= a,
        <i8 as Lattice>::meet_spec(a, b) <= b,
        <i8 as Lattice>::meet_spec(a, b) == a || <i8 as Lattice>::meet_spec(a, b) == b,
        a <= <i8 as Lattice>::join_spec(a, b),
        b <= <i8 as Lattice>::join_spec(a, b),
        <i8 as Lattice>::join_spec(a, b) == a || <i8 as Lattice>::join_spec(a, b) == b,
{
}

/// `i16` is ordered numerically: `a <= b` as integers; `meet` is the
/// minimum and `join` the maximum, and its operations always obey the order.
pub proof fn lemma_i16_numeric(a: i16, b: i16)
    ensures
        <i16 as PartialOrder>::obeys_order(),
        <i16 as PartialOrder>::leq(a, b) <==> a <= b,
        <i16 as Lattice>::meet_spec(a, b) <= a,
        <i16 as Lattice>::meet_spec(a, b) <= b,
        <i16 as Lattice>::meet_spec(a, b) == a || <i16 as Lattice>::meet_spec(a, b) == b,
        a <= <i16 as Lattice>::join_spec(a, b),
        b <= <i16 as Lattice>::join_spec(a, b),
        <i16 as Lattice>::join_spec(a, b) == a || <i16 as Lattice>::join_spec(a, b) == b,
{
}

/// `i32` is ordered numerically: `a <= b` as integers; `meet` is the
/// minimum and `join` the maximum, and its operations always obey the order.
pub proof fn lemma_i32_numeric(a: i32, b: i32)
    ensures
        <i32 as PartialOrder>::obeys_order(),
        <i32 as PartialOrder>::leq(a, b) <==> a <= b,
        <i32 as Lattice>::meet_spec(a, b) <= a,
        <i32 as Lattice>::meet_spec(a, b) <= b,
        <i32 as Lattice>::meet_spec(a, b) == a || <i32 as Lattice>::meet_spec(a, b) == b,
        a <= <i32 as Lattice>::join_spec(a, b),
        b <= <i32 as Lattice>::join_spec(a, b),
        <i32 as Lattice>::join_spec(a, b) == a || <i32 as Lattice>::join_spec(a, b) == b,
{
}

/// `i64` is ordered numerically: `a <= b` as integers; `meet` is the
/// minimum and `join` the maximum, and its operations always obey the order.
pub proof fn lemma_i64_numeric(a: i64, b: i64)
    ensures
        <i64 as PartialOrder>::obeys_order(),
        <i64 as PartialOrder>::leq(a, b) <==> a <= b,
        <i64 as Lattice>::meet_spec(a, b) <= a,
        <i64 as Lattice>::meet_spec(a, b) <= b,
        <i64 as Lattice>::meet_spec(a, b) == a || <i64 as Lattice>::meet_spec(a, b) == b,
        a <= <i64 as Lattice>::join_spec(a, b),
        b <= <i64 as Lattice>::join_spec(a, b),
        <i64 as Lattice>::join_spec(a, b) == a || <i64 as Lattice>::join_spec(a, b) == b,
{
}

/// `i128` is ordered numerically: `a <= b` as integers; `meet` is the
/// minimum and `join` the maximum, and its operations always obey the order.
pub proof fn lemma_i128_numeric(a: i128, b: i128)
    ensures
        <i128 as PartialOrder>::obeys_order(),
        <i128 as PartialOrder>::leq(a, b) <==> a <= b,
        <i128 as Lattice>::meet_spec(a, b) <= a,
        <i128 as Lattice>::meet_spec(a, b) <= b,
        <i128 as Lattice>::meet_spec(a, b) == a || <i128 as Lattice>::meet_spec(a, b) == b,
        a <= <i128 as Lattice>::join_spec(a, b),
        b <= <i128 as Lattice>::join_spec(a, b),
        <i128 as Lattice>::join_spec(a, b) == a || <i128 as Lattice>::join_spec(a, b) == b,
{
}

/// `isize` is ordered numerically: `a <= b` as integers; `meet` is the
/// minimum and `join` the maximum, and its operations always obey the order.
pub proof fn lemma_isize_numeric(a: isize, b: isize)
    ensures
        <isize as PartialOrder>::obeys_order(),
        <isize as PartialOrder>::leq(a, b) <==> a <= b,
        <isize as Lattice>::meet_spec(a, b) <= a,
        <isize as Lattice>::meet_spec(a, b) <= b,
        <isize as Lattice>::meet_spec(a, b) == a || <isize as Lattice>::meet_spec(a, b) == b,
        a <= <isize as Lattice>::join_spec(a, b),
        b <= <isize as Lattice>::join_spec(a, b),
        <isize as Lattice>::join_spec(a, b) == a || <isize as Lattice>::join_spec(a, b) == b,
{
}

/// Pairs are ordered lexicographically, as the standard library orders
/// tuples: `(a0, a1) <= (b0, b1)` iff `a0 < b0`, or `a0` and `b0` are below
/// each other and `a1 <= b1`. Their `meet` and `join` are component-wise.
pub proof fn lemma_pair_definition<A: Lattice, B: Lattice>(a: (A::V, B::V), b: (A::V, B::V))
    ensures
        <(A, B) as PartialOrder>::obeys_order() == (A::obeys_order() && B::obeys_order()),
        <(A, B) as PartialOrder>::leq(a, b) <==> ((A::leq(a.0, b.0) && !A::leq(b.0, a.0)) || (A::leq(
            a.0,
            b.0,
        ) && A::leq(b.0, a.0) && B::leq(a.1, b.1))),
        <(A, B) as Lattice>::meet_spec(a, b) == (A::meet_spec(a.0, b.0), B::meet_spec(a.1, b.1)),
        <(A, B) as Lattice>::join_spec(a, b) == (A::join_spec(a.0, b.0), B::join_spec(a.1, b.1)),
{
}

/// `ProductTimestamp` has the product order: below iff both components are;
/// `meet` and `join` are component-wise.
pub proof fn lemma_product_definition<T1: Lattice, T2: Lattice>(a: (T1::V, T2::V), b: (T1::V, T2::V))
    ensures
        ProductTimestamp::<T1, T2>::obeys_order() == (T1::obeys_order() && T2::obeys_order()),
        ProductTimestamp::<T1, T2>::leq(a, b) <==> (T1::leq(a.0, b.0) && T2::leq(a.1, b.1)),
        ProductTimestamp::<T1, T2>::meet_spec(a, b) == (T1::meet_spec(a.0, b.0), T2::meet_spec(a.1, b.1)),
        ProductTimestamp::<T1, T2>::join_spec(a, b) == (T1::join_spec(a.0, b.0), T2::join_spec(a.1, b.1)),
{
}

/// `Lexicographic` is ordered epoch first: a strictly smaller outer value
/// decides; equivalent outer values leave it to the inner ones. `meet` keeps
/// the timestamp with the smaller epoch and `join` the one with the greater,
/// combining the inner values when the epochs tie.
pub proof fn lemma_lexicographic_definition<A: PartialOrder, B: Lattice>(a: (A::V, B::V), b: (A::V, B::V))
    ensures
        Lexicographic::<A, B>::obeys_order() == (A::obeys_order() && B::obeys_order()),
        Lexicographic::<A, B>::leq(a, b) <==> ((A::leq(a.0, b.0) && !A::leq(b.0, a.0)) || (A::leq(
            a.0,
            b.0,
        ) && A::leq(b.0, a.0) && B::leq(a.1, b.1))),
        A::leq(a.0, b.0) && !A::leq(b.0, a.0) ==> Lexicographic::<A, B>::meet_spec(a, b) == a
            && Lexicographic::<A, B>::join_spec(a, b) == b,
        A::leq(b.0, a.0) && !A::leq(a.0, b.0) ==> Lexicographic::<A, B>::meet_spec(a, b) == b
            && Lexicographic::<A, B>::join_spec(a, b) == a,
        A::leq(a.0, b.0) && A::leq(b.0, a.0) ==> Lexicographic::<A, B>::meet_spec(a, b) == (
            a.0,
            B::meet_spec(a.1, b.1),
        ) && Lexicographic::<A, B>::join_spec(a, b) == (a.0, B::join_spec(a.1, b.1)),
{
}

/// `Max` inverts the order of its value: `Max(a) <= Max(b)` iff `b <= a`; so
/// its `meet` is the `join` of the values (the higher one) and its `join` the
/// `meet`.
pub proof fn lemma_max_definition<T: Lattice>(a: T::V, b: T::V)
    ensures
        Max::<T>::obeys_order() == T::obeys_order(),
        Max::<T>::leq(a, b) <==> T::leq(b, a),
        Max::<T>::meet_spec(a, b) == T::join_spec(a, b),
        Max::<T>::join_spec(a, b) == T::meet_spec(a, b),
{
}

/// `Min` keeps the order and the operations of its value.
pub proof fn lemma_min_definition<T: Lattice>(a: T::V, b: T::V)
    ensures
        Min::<T>::obeys_order() == T::obeys_order(),
        Min::<T>::leq(a, b) <==> T::leq(a, b),
        Min::<T>::meet_spec(a, b) == T::meet_spec(a, b),
        Min::<T>::join_spec(a, b) == T::join_spec(a, b),
{
}

/// `Bounded` values are ordered by their value alone. `meet` and `join`
/// combine the values and clamp the result to the bounds of the first
/// operand, which they keep: below `min` gives `min`, above `max` gives `max`,
/// anything else stays.
pub proof fn lemma_bounded_definition<T: Lattice>(a: (T::V, T::V, T::V), b: (T::V, T::V, T::V))
    ensures
        Bounded::<T>::obeys_order() == T::obeys_order(),
        Bounded::<T>::leq(a, b) <==> T::leq(a.0, b.0),
        Bounded::<T>::meet_spec(a, b).1 == a.1 && Bounded::<T>::meet_spec(a, b).2 == a.2,
        Bounded::<T>::join_spec(a, b).1 == a.1 && Bounded::<T>::join_spec(a, b).2 == a.2,
        ({
            let v = T::meet_spec(a.0, b.0);
            let r = Bounded::<T>::meet_spec(a, b).0;
            &&& T::leq(v, a.1) && !T::leq(a.1, v) ==> r == a.1
            &&& !(T::leq(v, a.1) && !T::leq(a.1, v)) && T::leq(a.2, v) && !T::leq(v, a.2) ==> r == a.2
            &&& !(T::leq(v, a.1) && !T::leq(a.1, v)) && !(T::leq(a.2, v) && !T::leq(v, a.2)) ==> r == v
        }),
        ({
            let v = T::join_spec(a.0, b.0);
            let r = Bounded::<T>::join_spec(a, b).0;
            &&& T::leq(v, a.1) && !T::leq(a.1, v) ==> r == a.1
            &&& !(T::leq(v, a.1) && !T::leq(a.1, v)) && T::leq(a.2, v) && !T::leq(v, a.2) ==> r == a.2
            &&& !(T::leq(v, a.1) && !T::leq(a.1, v)) && !(T::leq(a.2, v) && !T::leq(v, a.2)) ==> r == v
        }),
{
}

/// Clamping, as `Bounded::new` does: a value strictly below `lo` becomes
/// `lo`, one strictly above `hi` becomes `hi`, and any other value stays.
pub proof fn lemma_clamp_definition<T: PartialOrder>(v: T::V, lo: T::V, hi: T::V)
    ensures
        T::leq(v, lo) && !T::leq(lo, v) ==> clamp::<T>(v, lo, hi) == lo,
        !(T::leq(v, lo) && !T::leq(lo, v)) && T::leq(hi, v) && !T::leq(v, hi) ==> clamp::<T>(v, lo, hi) == hi,
        !(T::leq(v, lo) && !T::leq(lo, v)) && !(T::leq(hi, v) && !T::leq(v, hi)) ==> clamp::<T>(v, lo, hi)
            == v,
{
}

/// `Top` (the view `None`) lies above every value; two values compare as
/// in `T`. `Top` is the identity of `meet` and absorbs `join`; two values
/// meet and join inside `T`.
pub proof fn lemma_with_top_definition<T: Lattice>(x: T::V, y: T::V, a: Option<T::V>)
    ensures
        WithTop::<T>::obeys_order() == T::obeys_order(),
        WithTop::<T>::leq(a, None),
        !WithTop::<T>::leq(None, Some(y)),
        WithTop::<T>::leq(Some(x), Some(y)) <==> T::leq(x, y),
        WithTop::<T>::meet_spec(None, a) == a && WithTop::<T>::meet_spec(a, None) == a,
        WithTop::<T>::meet_spec(Some(x), Some(y)) == Some(T::meet_spec(x, y)),
        WithTop::<T>::join_spec(None, a) == None::<T::V> && WithTop::<T>::join_spec(a, None) == None::<T::V>,
        WithTop::<T>::join_spec(Some(x), Some(y)) == Some(T::join_spec(x, y)),
{
}

/// `Bottom` (the view `None`) lies below every value; two values compare as
/// in `T`. `Bottom` absorbs `meet` and is the identity of `join`; two values
/// meet and join inside `T`.
pub proof fn lemma_with_bottom_definition<T: Lattice>(x: T::V, y: T::V, a: Option<T::V>)
    ensures
        WithBottom::<T>::obeys_order() == T::obeys_order(),
        WithBottom::<T>::leq(None, a),
        !WithBottom::<T>::leq(Some(x), None),
        WithBottom::<T>::leq(Some(x), Some(y)) <==> T::leq(x, y),
        WithBottom::<T>::meet_spec(None, a) == None::<T::V> && WithBottom::<T>::meet_spec(a, None) == None::<T::V>,
        WithBottom::<T>::meet_spec(Some(x), Some(y)) == Some(T::meet_spec(x, y)),
        WithBottom::<T>::join_spec(None, a) == a && WithBottom::<T>::join_spec(a, None) == a,
        WithBottom::<T>::join_spec(Some(x), Some(y)) == Some(T::join_spec(x, y)),
{
}

/// Maps are ordered point-wise: `a <= b` iff every key of `a` is a key of
/// `b` with a value below. `meet` keeps the common keys with the meet of
/// their values; `join` keeps all keys, joining the values of common ones.
pub proof fn lemma_map_definition<K: Ord + Clone, V: Lattice + Clone>(a: Map<K, V::V>, b: Map<K, V::V>)
    ensures
        MapLattice::<K, V>::obeys_order() == (obeys_cmp::<K>() && faithful_clone::<K>() && V::obeys_order()),
        MapLattice::<K, V>::leq(a, b) <==> (forall|k: K|
            #[trigger] a.contains_key(k) ==> b.contains_key(k) && V::leq(a[k], b[k])),
        MapLattice::<K, V>::meet_spec(a, b).dom() == a.dom().intersect(b.dom()),
        forall|k: K|
            a.contains_key(k) && b.contains_key(k) ==> #[trigger] MapLattice::<K, V>::meet_spec(a, b)[k]
                == V::meet_spec(a[k], b[k]),
        MapLattice::<K, V>::join_spec(a, b).dom() == a.dom().union(b.dom()),
        forall|k: K|
            a.contains_key(k) && b.contains_key(k) ==> #[trigger] MapLattice::<K, V>::join_spec(a, b)[k]
                == V::join_spec(a[k], b[k]),
        forall|k: K|
            a.contains_key(k) && !b.contains_key(k) ==> #[trigger] MapLattice::<K, V>::join_spec(a, b)[k]
                == a[k],
        forall|k: K|
            !a.contains_key(k) && b.contains_key(k) ==> #[trigger] MapLattice::<K, V>::join_spec(a, b)[k]
                == b[k],
{
    assert(MapLattice::<K, V>::meet_spec(a, b).dom() =~= a.dom().intersect(b.dom()));
    assert(MapLattice::<K, V>::join_spec(a, b).dom() =~= a.dom().union(b.dom()));
}

/// Sets are ordered by inclusion; `meet` is the intersection and `join` the
/// union.
pub proof fn lemma_set_definition<T: Ord + Clone>(a: Set<T>, b: Set<T>)
    ensures
        SetLattice::<T>::obeys_order() == (obeys_cmp::<T>() && faithful_clone::<T>()),
        SetLattice::<T>::leq(a, b) <==> a.subset_of(b),
        SetLattice::<T>::meet_spec(a, b) == a.intersect(b),
        SetLattice::<T>::join_spec(a, b) == a.union(b),
{
}

} // verus!

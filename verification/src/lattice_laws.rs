//! The lattice laws of the timestamp types: commutativity, associativity and
//! idempotence of `meet` and `join`, and their agreement with the order
//! (`a <= b` iff `meet(a, b) == a` iff `join(a, b) == b`).
use vstd::prelude::*;

use crate::lattice::{
    join_associative, join_commutative, join_idempotent, join_is_upper_bound, meet_associative,
    meet_commutative, meet_idempotent, meet_is_lower_bound, order_consistent, Lattice,
};
use crate::lifted::{WithBottom, WithTop};
use crate::minimal::is_antichain;
use crate::map_lattice::{map_join, map_meet, MapLattice};
use crate::order::{antisymmetric, equivalent, lt, total, PartialOrder};
use crate::product::{Lexicographic, ProductTimestamp};
use crate::set_lattice::SetLattice;
use crate::wrappers::{clamp, Bounded, Max, Min};

verus! {

/// `T` is a lattice: its order is antisymmetric, `meet` and `join` are
/// commutative, associative and idempotent, and they agree with the order.
pub open spec fn is_lattice<T: Lattice>() -> bool {
    &&& antisymmetric::<T>()
    &&& meet_commutative::<T>()
    &&& join_commutative::<T>()
    &&& meet_associative::<T>()
    &&& join_associative::<T>()
    &&& meet_idempotent::<T>()
    &&& join_idempotent::<T>()
    &&& order_consistent::<T>()
}

/// In a lattice, `meet(a, b)` lies below `a` and below `b`.
pub proof fn lemma_meet_lower_bound<T: Lattice>(a: T::V, b: T::V)
    requires
        is_lattice::<T>(),
    ensures
        T::leq(T::meet_spec(a, b), a),
        T::leq(T::meet_spec(a, b), b),
{
    let m = T::meet_spec(a, b);
    assert(T::meet_spec(m, a) == T::meet_spec(a, T::meet_spec(a, b)));
    assert(T::meet_spec(a, T::meet_spec(a, b)) == T::meet_spec(T::meet_spec(a, a), b));
    assert(T::meet_spec(m, b) == T::meet_spec(a, T::meet_spec(b, b)));
}

/// In a lattice, `join(a, b)` lies above `a` and above `b`.
pub proof fn lemma_join_upper_bound<T: Lattice>(a: T::V, b: T::V)
    requires
        is_lattice::<T>(),
    ensures
        T::leq(a, T::join_spec(a, b)),
        T::leq(b, T::join_spec(a, b)),
{
    let j = T::join_spec(a, b);
    assert(T::join_spec(a, j) == T::join_spec(T::join_spec(a, a), b));
    assert(T::join_spec(b, j) == T::join_spec(b, T::join_spec(b, a)));
    assert(T::join_spec(b, T::join_spec(b, a)) == T::join_spec(T::join_spec(b, b), a));
}

/// In a lattice, `y <= x` gives `join(x, y) == x`.
pub proof fn lemma_le_join<T: Lattice>(y: T::V, x: T::V)
    requires
        is_lattice::<T>(),
        T::leq(y, x),
    ensures
        T::join_spec(x, y) == x,
{
    assert(T::join_spec(y, x) == x);
}

/// A lattice has lower and upper bounds: the predicates of
/// [`crate::lattice`] hold.
pub proof fn lemma_lattice_bounds<T: Lattice>()
    requires
        is_lattice::<T>(),
    ensures
        meet_is_lower_bound::<T>(),
        join_is_upper_bound::<T>(),
{
    assert forall|a: T::V, b: T::V| #[trigger] T::meet_spec(a, b) == T::meet_spec(a, b) implies T::leq(
        T::meet_spec(a, b),
        a,
    ) && T::leq(T::meet_spec(a, b), b) by {
        lemma_meet_lower_bound::<T>(a, b);
    }
    assert forall|a: T::V, b: T::V| #[trigger] T::join_spec(a, b) == T::join_spec(a, b) implies T::leq(
        a,
        T::join_spec(a, b),
    ) && T::leq(b, T::join_spec(a, b)) by {
        lemma_join_upper_bound::<T>(a, b);
    }
}

/// `u8` is a lattice, totally ordered, with `meet = min` and `join = max`.
pub proof fn lemma_u8_is_lattice()
    ensures
        is_lattice::<u8>(),
        total::<u8>(),
{
}

/// `u16` is a lattice, totally ordered, with `meet = min` and `join = max`.
pub proof fn lemma_u16_is_lattice()
    ensures
        is_lattice::<u16>(),
        total::<u16>(),
{
}

/// `u32` is a lattice, totally ordered, with `meet = min` and `join = max`.
pub proof fn lemma_u32_is_lattice()
    ensures
        is_lattice::<u32>(),
        total::<u32>(),
{
}

/// `u64` is a lattice, totally ordered, with `meet = min` and `join = max`.
pub proof fn lemma_u64_is_lattice()
    ensures
        is_lattice::<u64>(),
        total::<u64>(),
{
}

/// `u128` is a lattice, totally ordered, with `meet = min` and `join = max`.
pub proof fn lemma_u128_is_lattice()
    ensures
        is_lattice::<u128>(),
        total::<u128>(),
{
}

/// `usize` is a lattice, totally ordered, with `meet = min` and `join = max`.
pub proof fn lemma_usize_is_lattice()
    ensures
        is_lattice::<usize>(),
        total::<usize>(),
{
}

/// `i8` is a lattice, totally ordered, with `meet = min` and `join = max`.
pub proof fn lemma_i8_is_lattice()
    ensures
        is_lattice::<i8>(),
        total::<i8>(),
{
}

/// `i16` is a lattice, totally ordered, with `meet = min` and `join = max`.
pub proof fn lemma_i16_is_lattice()
    ensures
        is_lattice::<i16>(),
        total::<i16>(),
{
}

/// `i32` is a lattice, totally ordered, with `meet = min` and `join = max`.
pub proof fn lemma_i32_is_lattice()
    ensures
        is_lattice::<i32>(),
        total::<i32>(),
{
}

/// `i64` is a lattice, totally ordered, with `meet = min` and `join = max`.
pub proof fn lemma_i64_is_lattice()
    ensures
        is_lattice::<i64>(),
        total::<i64>(),
{
}

/// `i128` is a lattice, totally ordered, with `meet = min` and `join = max`.
pub proof fn lemma_i128_is_lattice()
    ensures
        is_lattice::<i128>(),
        total::<i128>(),
{
}

/// `isize` is a lattice, totally ordered, with `meet = min` and `join = max`.
pub proof fn lemma_isize_is_lattice()
    ensures
        is_lattice::<isize>(),
        total::<isize>(),
{
}


/// The product of two lattices is a lattice.
pub proof fn lemma_product_is_lattice<T1: Lattice, T2: Lattice>()
    requires
        is_lattice::<T1>(),
        is_lattice::<T2>(),
    ensures
        is_lattice::<ProductTimestamp<T1, T2>>(),
{
}

/// Inverting the order of a lattice gives a lattice, with `meet` and `join`
/// exchanged.
pub proof fn lemma_max_is_lattice<T: Lattice>()
    requires
        is_lattice::<T>(),
    ensures
        is_lattice::<Max<T>>(),
{
    assert forall|a: T::V, b: T::V|
        (Max::<T>::leq(a, b) <==> Max::<T>::meet_spec(a, b) == a) && (Max::<T>::leq(a, b) <==> Max::<T>::join_spec(a, b) == b) by {
        assert(T::join_spec(a, b) == T::join_spec(b, a));
        assert(T::meet_spec(a, b) == T::meet_spec(b, a));
    }
}

/// `Min` of a lattice is the same lattice.
pub proof fn lemma_min_is_lattice<T: Lattice>()
    requires
        is_lattice::<T>(),
    ensures
        is_lattice::<Min<T>>(),
{
}

proof fn lemma_with_top_meet_associative<T: Lattice>()
    requires
        meet_associative::<T>(),
    ensures
        meet_associative::<WithTop<T>>(),
{
    assert forall|a: Option<T::V>, b: Option<T::V>, c: Option<T::V>|
        #![trigger WithTop::<T>::meet_spec(a, WithTop::<T>::meet_spec(b, c))]
        WithTop::<T>::meet_spec(a, WithTop::<T>::meet_spec(b, c)) == WithTop::<T>::meet_spec(
            WithTop::<T>::meet_spec(a, b),
            c,
        ) by {
        match (a, b, c) {
            (Some(x), Some(y), Some(z)) => {
                assert(T::meet_spec(x, T::meet_spec(y, z)) == T::meet_spec(T::meet_spec(x, y), z));
            },
            _ => {},
        }
    }
}

proof fn lemma_with_top_join_associative<T: Lattice>()
    requires
        join_associative::<T>(),
    ensures
        join_associative::<WithTop<T>>(),
{
    assert forall|a: Option<T::V>, b: Option<T::V>, c: Option<T::V>|
        #![trigger WithTop::<T>::join_spec(a, WithTop::<T>::join_spec(b, c))]
        WithTop::<T>::join_spec(a, WithTop::<T>::join_spec(b, c)) == WithTop::<T>::join_spec(
            WithTop::<T>::join_spec(a, b),
            c,
        ) by {
        match (a, b, c) {
            (Some(x), Some(y), Some(z)) => {
                assert(T::join_spec(x, T::join_spec(y, z)) == T::join_spec(T::join_spec(x, y), z));
            },
            _ => {},
        }
    }
}

proof fn lemma_with_top_order_consistent<T: Lattice>()
    requires
        order_consistent::<T>(),
    ensures
        order_consistent::<WithTop<T>>(),
{
    assert forall|a: Option<T::V>, b: Option<T::V>|
        #![trigger WithTop::<T>::meet_spec(a, b)]
        #![trigger WithTop::<T>::join_spec(a, b)]
        (WithTop::<T>::leq(a, b) <==> WithTop::<T>::meet_spec(a, b) == a) && (WithTop::<T>::leq(a, b)
            <==> WithTop::<T>::join_spec(a, b) == b) by {
        match (a, b) {
            (Some(x), Some(y)) => {
                assert(T::leq(x, y) <==> T::meet_spec(x, y) == x);
                assert(T::leq(x, y) <==> T::join_spec(x, y) == y);
            },
            _ => {},
        }
    }
}

proof fn lemma_with_top_antisymmetric<T: Lattice>()
    requires
        antisymmetric::<T>(),
    ensures
        antisymmetric::<WithTop<T>>(),
{
    assert forall|a: Option<T::V>, b: Option<T::V>|
        #[trigger] WithTop::<T>::leq(a, b) && #[trigger] WithTop::<T>::leq(b, a) implies a == b by {
        match (a, b) {
            (Some(x), Some(y)) => {
                assert(T::leq(x, y) && T::leq(y, x));
            },
            _ => {},
        }
    }
}

/// `Top` is the identity of `meet` and absorbs `join`, lies above every
/// value, and stays once joined in: once closed, always closed.
pub proof fn lemma_top_identity_absorbs<T: Lattice>(x: Option<T::V>)
    ensures
        WithTop::<T>::meet_spec(None, x) == x,
        WithTop::<T>::meet_spec(x, None) == x,
        WithTop::<T>::join_spec(None, x) == None::<T::V>,
        WithTop::<T>::join_spec(x, None) == None::<T::V>,
        WithTop::<T>::leq(x, None),
{
}

/// `Bottom` is the identity of `join` and absorbs `meet`, and lies below
/// every value.
pub proof fn lemma_bottom_identity_absorbs<T: Lattice>(x: Option<T::V>)
    ensures
        WithBottom::<T>::join_spec(None, x) == x,
        WithBottom::<T>::join_spec(x, None) == x,
        WithBottom::<T>::meet_spec(None, x) == None::<T::V>,
        WithBottom::<T>::meet_spec(x, None) == None::<T::V>,
        WithBottom::<T>::leq(None, x),
{
}

/// Adding a top element to a lattice gives a lattice.
pub proof fn lemma_with_top_is_lattice<T: Lattice>()
    requires
        is_lattice::<T>(),
    ensures
        is_lattice::<WithTop<T>>(),
{
    lemma_with_top_meet_associative::<T>();
    lemma_with_top_join_associative::<T>();
    lemma_with_top_order_consistent::<T>();
    lemma_with_top_antisymmetric::<T>();
    lemma_with_top_commutative_idempotent::<T>();
}

proof fn lemma_with_top_commutative_idempotent<T: Lattice>()
    requires
        meet_commutative::<T>(),
        join_commutative::<T>(),
        meet_idempotent::<T>(),
        join_idempotent::<T>(),
    ensures
        meet_commutative::<WithTop<T>>(),
        join_commutative::<WithTop<T>>(),
        meet_idempotent::<WithTop<T>>(),
        join_idempotent::<WithTop<T>>(),
{
}

proof fn lemma_with_bottom_meet_associative<T: Lattice>()
    requires
        meet_associative::<T>(),
    ensures
        meet_associative::<WithBottom<T>>(),
{
    assert forall|a: Option<T::V>, b: Option<T::V>, c: Option<T::V>|
        #![trigger WithBottom::<T>::meet_spec(a, WithBottom::<T>::meet_spec(b, c))]
        WithBottom::<T>::meet_spec(a, WithBottom::<T>::meet_spec(b, c)) == WithBottom::<T>::meet_spec(
            WithBottom::<T>::meet_spec(a, b),
            c,
        ) by {
        match (a, b, c) {
            (Some(x), Some(y), Some(z)) => {
                assert(T::meet_spec(x, T::meet_spec(y, z)) == T::meet_spec(T::meet_spec(x, y), z));
            },
            _ => {},
        }
    }
}

proof fn lemma_with_bottom_join_associative<T: Lattice>()
    requires
        join_associative::<T>(),
    ensures
        join_associative::<WithBottom<T>>(),
{
    assert forall|a: Option<T::V>, b: Option<T::V>, c: Option<T::V>|
        #![trigger WithBottom::<T>::join_spec(a, WithBottom::<T>::join_spec(b, c))]
        WithBottom::<T>::join_spec(a, WithBottom::<T>::join_spec(b, c)) == WithBottom::<T>::join_spec(
            WithBottom::<T>::join_spec(a, b),
            c,
        ) by {
        match (a, b, c) {
            (Some(x), Some(y), Some(z)) => {
                assert(T::join_spec(x, T::join_spec(y, z)) == T::join_spec(T::join_spec(x, y), z));
            },
            _ => {},
        }
    }
}

proof fn lemma_with_bottom_order_consistent<T: Lattice>()
    requires
        order_consistent::<T>(),
    ensures
        order_consistent::<WithBottom<T>>(),
{
    assert forall|a: Option<T::V>, b: Option<T::V>|
        #![trigger WithBottom::<T>::meet_spec(a, b)]
        #![trigger WithBottom::<T>::join_spec(a, b)]
        (WithBottom::<T>::leq(a, b) <==> WithBottom::<T>::meet_spec(a, b) == a) && (WithBottom::<T>::leq(
            a,
            b,
        ) <==> WithBottom::<T>::join_spec(a, b) == b) by {
        match (a, b) {
            (Some(x), Some(y)) => {
                assert(T::leq(x, y) <==> T::meet_spec(x, y) == x);
                assert(T::leq(x, y) <==> T::join_spec(x, y) == y);
            },
            _ => {},
        }
    }
}

proof fn lemma_with_bottom_antisymmetric<T: Lattice>()
    requires
        antisymmetric::<T>(),
    ensures
        antisymmetric::<WithBottom<T>>(),
{
    assert forall|a: Option<T::V>, b: Option<T::V>|
        #[trigger] WithBottom::<T>::leq(a, b) && #[trigger] WithBottom::<T>::leq(b, a) implies a == b by {
        match (a, b) {
            (Some(x), Some(y)) => {
                assert(T::leq(x, y) && T::leq(y, x));
            },
            _ => {},
        }
    }
}

/// Adding a bottom element to a lattice gives a lattice.
pub proof fn lemma_with_bottom_is_lattice<T: Lattice>()
    requires
        is_lattice::<T>(),
    ensures
        is_lattice::<WithBottom<T>>(),
{
    lemma_with_bottom_meet_associative::<T>();
    lemma_with_bottom_join_associative::<T>();
    lemma_with_bottom_order_consistent::<T>();
    lemma_with_bottom_antisymmetric::<T>();
    lemma_with_bottom_commutative_idempotent::<T>();
}

proof fn lemma_with_bottom_commutative_idempotent<T: Lattice>()
    requires
        meet_commutative::<T>(),
        join_commutative::<T>(),
        meet_idempotent::<T>(),
        join_idempotent::<T>(),
    ensures
        meet_commutative::<WithBottom<T>>(),
        join_commutative::<WithBottom<T>>(),
        meet_idempotent::<WithBottom<T>>(),
        join_idempotent::<WithBottom<T>>(),
{
}

proof fn lemma_map_antisymmetric<K: Ord + Clone, V: Lattice + Clone>()
    requires
        antisymmetric::<V>(),
    ensures
        antisymmetric::<MapLattice<K, V>>(),
{
    assert forall|a: Map<K, V::V>, b: Map<K, V::V>|
        #[trigger] MapLattice::<K, V>::leq(a, b) && #[trigger] MapLattice::<K, V>::leq(b, a) implies a == b by {
        assert forall|k: K| #[trigger] a.contains_key(k) implies a[k] == b[k] by {
            assert(V::leq(a[k], b[k]) && V::leq(b[k], a[k]));
        }
        assert(a =~= b);
    }
}

proof fn lemma_map_meet_commutative<K: Ord + Clone, V: Lattice + Clone>()
    requires
        meet_commutative::<V>(),
    ensures
        meet_commutative::<MapLattice<K, V>>(),
{
    assert forall|a: Map<K, V::V>, b: Map<K, V::V>|
        #[trigger] map_meet::<K, V>(a, b) == map_meet::<K, V>(b, a) by {
        assert forall|k: K| #[trigger] map_meet::<K, V>(a, b).contains_key(k) implies map_meet::<K, V>(a, b)[k]
            == map_meet::<K, V>(b, a)[k] by {
            assert(V::meet_spec(a[k], b[k]) == V::meet_spec(b[k], a[k]));
        }
        assert(map_meet::<K, V>(a, b) =~= map_meet::<K, V>(b, a));
    }
}

proof fn lemma_map_join_commutative<K: Ord + Clone, V: Lattice + Clone>()
    requires
        join_commutative::<V>(),
    ensures
        join_commutative::<MapLattice<K, V>>(),
{
    assert forall|a: Map<K, V::V>, b: Map<K, V::V>|
        #[trigger] map_join::<K, V>(a, b) == map_join::<K, V>(b, a) by {
        assert forall|k: K| #[trigger] map_join::<K, V>(a, b).contains_key(k) implies map_join::<K, V>(a, b)[k]
            == map_join::<K, V>(b, a)[k] by {
            assert(V::join_spec(a[k], b[k]) == V::join_spec(b[k], a[k]));
        }
        assert(map_join::<K, V>(a, b) =~= map_join::<K, V>(b, a));
    }
}

proof fn lemma_map_meet_associative<K: Ord + Clone, V: Lattice + Clone>()
    requires
        meet_associative::<V>(),
    ensures
        meet_associative::<MapLattice<K, V>>(),
{
    assert forall|a: Map<K, V::V>, b: Map<K, V::V>, c: Map<K, V::V>|
        #[trigger] map_meet::<K, V>(a, map_meet::<K, V>(b, c)) == map_meet::<K, V>(map_meet::<K, V>(a, b), c) by {
        let l = map_meet::<K, V>(a, map_meet::<K, V>(b, c));
        let r = map_meet::<K, V>(map_meet::<K, V>(a, b), c);
        assert forall|k: K| #[trigger] l.contains_key(k) implies l[k] == r[k] by {
            assert(V::meet_spec(a[k], V::meet_spec(b[k], c[k])) == V::meet_spec(V::meet_spec(a[k], b[k]), c[k]));
        }
        assert(l =~= r);
    }
}

proof fn lemma_map_join_associative<K: Ord + Clone, V: Lattice + Clone>()
    requires
        join_associative::<V>(),
    ensures
        join_associative::<MapLattice<K, V>>(),
{
    assert forall|a: Map<K, V::V>, b: Map<K, V::V>, c: Map<K, V::V>|
        #[trigger] map_join::<K, V>(a, map_join::<K, V>(b, c)) == map_join::<K, V>(map_join::<K, V>(a, b), c) by {
        let l = map_join::<K, V>(a, map_join::<K, V>(b, c));
        let r = map_join::<K, V>(map_join::<K, V>(a, b), c);
        assert forall|k: K| #[trigger] l.contains_key(k) implies l[k] == r[k] by {
            assert(V::join_spec(a[k], V::join_spec(b[k], c[k])) == V::join_spec(V::join_spec(a[k], b[k]), c[k]));
        }
        assert(l =~= r);
    }
}

proof fn lemma_map_meet_idempotent<K: Ord + Clone, V: Lattice + Clone>()
    requires
        meet_idempotent::<V>(),
    ensures
        meet_idempotent::<MapLattice<K, V>>(),
{
    assert forall|a: Map<K, V::V>| #[trigger] map_meet::<K, V>(a, a) == a by {
        assert forall|k: K| #[trigger] a.contains_key(k) implies map_meet::<K, V>(a, a)[k] == a[k] by {
            assert(V::meet_spec(a[k], a[k]) == a[k]);
        }
        assert(map_meet::<K, V>(a, a) =~= a);
    }
}

proof fn lemma_map_join_idempotent<K: Ord + Clone, V: Lattice + Clone>()
    requires
        join_idempotent::<V>(),
    ensures
        join_idempotent::<MapLattice<K, V>>(),
{
    assert forall|a: Map<K, V::V>| #[trigger] map_join::<K, V>(a, a) == a by {
        assert forall|k: K| #[trigger] a.contains_key(k) implies map_join::<K, V>(a, a)[k] == a[k] by {
            assert(V::join_spec(a[k], a[k]) == a[k]);
        }
        assert(map_join::<K, V>(a, a) =~= a);
    }
}

proof fn lemma_map_order_consistent<K: Ord + Clone, V: Lattice + Clone>()
    requires
        order_consistent::<V>(),
    ensures
        order_consistent::<MapLattice<K, V>>(),
{
    assert forall|a: Map<K, V::V>, b: Map<K, V::V>|
        #![trigger map_meet::<K, V>(a, b)]
        #![trigger map_join::<K, V>(a, b)]
        (MapLattice::<K, V>::leq(a, b) <==> map_meet::<K, V>(a, b) == a) && (MapLattice::<K, V>::leq(a, b)
            <==> map_join::<K, V>(a, b) == b) by {
        if MapLattice::<K, V>::leq(a, b) {
            assert forall|k: K| #[trigger] a.contains_key(k) implies map_meet::<K, V>(a, b)[k] == a[k] && map_join::<K, V>(a, b)[k] == b[k] by {
                assert(V::leq(a[k], b[k]));
            }
            assert(map_meet::<K, V>(a, b) =~= a);
            assert(map_join::<K, V>(a, b) =~= b);
        }
        if map_meet::<K, V>(a, b) == a {
            assert forall|k: K| #[trigger] a.contains_key(k) implies b.contains_key(k) && V::leq(a[k], b[k]) by {
                assert(map_meet::<K, V>(a, b).contains_key(k));
                assert(V::meet_spec(a[k], b[k]) == a[k]);
            }
        }
        if map_join::<K, V>(a, b) == b {
            assert forall|k: K| #[trigger] a.contains_key(k) implies b.contains_key(k) && V::leq(a[k], b[k]) by {
                assert(map_join::<K, V>(a, b).contains_key(k));
                assert(V::join_spec(a[k], b[k]) == b[k]);
            }
        }
    }
}

/// The point-wise lattice of maps into a lattice is a lattice.
pub proof fn lemma_map_is_lattice<K: Ord + Clone, V: Lattice + Clone>()
    requires
        is_lattice::<V>(),
    ensures
        is_lattice::<MapLattice<K, V>>(),
{
    lemma_map_antisymmetric::<K, V>();
    lemma_map_meet_commutative::<K, V>();
    lemma_map_join_commutative::<K, V>();
    lemma_map_meet_associative::<K, V>();
    lemma_map_join_associative::<K, V>();
    lemma_map_meet_idempotent::<K, V>();
    lemma_map_join_idempotent::<K, V>();
    lemma_map_order_consistent::<K, V>();
}

proof fn lemma_set_antisymmetric<T: Ord + Clone>()
    ensures
        antisymmetric::<SetLattice<T>>(),
{
    assert forall|a: Set<T>, b: Set<T>|
        #[trigger] SetLattice::<T>::leq(a, b) && #[trigger] SetLattice::<T>::leq(b, a) implies a == b by {
        assert(a =~= b);
    }
}

proof fn lemma_set_meet_commutative<T: Ord + Clone>()
    ensures
        meet_commutative::<SetLattice<T>>(),
{
    assert forall|a: Set<T>, b: Set<T>| #[trigger] a.intersect(b) == b.intersect(a) by {
        assert(a.intersect(b) =~= b.intersect(a));
    }
}

proof fn lemma_set_join_commutative<T: Ord + Clone>()
    ensures
        join_commutative::<SetLattice<T>>(),
{
    assert forall|a: Set<T>, b: Set<T>| #[trigger] a.union(b) == b.union(a) by {
        assert(a.union(b) =~= b.union(a));
    }
}

proof fn lemma_set_meet_associative<T: Ord + Clone>()
    ensures
        meet_associative::<SetLattice<T>>(),
{
    assert forall|a: Set<T>, b: Set<T>, c: Set<T>|
        #[trigger] a.intersect(b.intersect(c)) == a.intersect(b).intersect(c) by {
        assert(a.intersect(b.intersect(c)) =~= a.intersect(b).intersect(c));
    }
}

proof fn lemma_set_join_associative<T: Ord + Clone>()
    ensures
        join_associative::<SetLattice<T>>(),
{
    assert forall|a: Set<T>, b: Set<T>, c: Set<T>| #[trigger] a.union(b.union(c)) == a.union(b).union(c) by {
        assert(a.union(b.union(c)) =~= a.union(b).union(c));
    }
}

proof fn lemma_set_meet_idempotent<T: Ord + Clone>()
    ensures
        meet_idempotent::<SetLattice<T>>(),
{
    assert forall|a: Set<T>| #[trigger] a.intersect(a) == a by {
        assert(a.intersect(a) =~= a);
    }
}

proof fn lemma_set_join_idempotent<T: Ord + Clone>()
    ensures
        join_idempotent::<SetLattice<T>>(),
{
    assert forall|a: Set<T>| #[trigger] a.union(a) == a by {
        assert(a.union(a) =~= a);
    }
}

proof fn lemma_set_order_consistent<T: Ord + Clone>()
    ensures
        order_consistent::<SetLattice<T>>(),
{
    assert forall|a: Set<T>, b: Set<T>|
        #![trigger a.intersect(b)]
        #![trigger a.union(b)]
        (a.subset_of(b) <==> a.intersect(b) == a) && (a.subset_of(b) <==> a.union(b) == b) by {
        if a.subset_of(b) {
            assert(a.intersect(b) =~= a);
            assert(a.union(b) =~= b);
        }
        if a.intersect(b) == a {
            assert forall|x: T| a.contains(x) implies b.contains(x) by {
                assert(a.intersect(b).contains(x));
            }
        }
        if a.union(b) == b {
            assert forall|x: T| a.contains(x) implies b.contains(x) by {
                assert(a.union(b).contains(x));
            }
        }
    }
}

/// The powerset lattice is a lattice.
pub proof fn lemma_set_is_lattice<T: Ord + Clone>()
    ensures
        is_lattice::<SetLattice<T>>(),
{
    lemma_set_antisymmetric::<T>();
    lemma_set_meet_commutative::<T>();
    lemma_set_join_commutative::<T>();
    lemma_set_meet_associative::<T>();
    lemma_set_join_associative::<T>();
    lemma_set_meet_idempotent::<T>();
    lemma_set_join_idempotent::<T>();
    lemma_set_order_consistent::<T>();
}

proof fn lemma_lexicographic_antisymmetric<A: PartialOrder, B: Lattice>()
    requires
        total::<A>(),
        antisymmetric::<A>(),
        antisymmetric::<B>(),
    ensures
        antisymmetric::<Lexicographic<A, B>>(),
{
    assert forall|x: A::V, y: A::V| #[trigger] A::leq(x, y) && A::leq(y, x) ==> x == y by {}
    assert forall|a: (A::V, B::V), b: (A::V, B::V)|
        #[trigger] Lexicographic::<A, B>::leq(a, b) && #[trigger] Lexicographic::<A, B>::leq(b, a) implies a == b by {
        if equivalent::<A>(a.0, b.0) {
            assert(a.0 == b.0);
            assert(B::leq(a.1, b.1) && B::leq(b.1, a.1));
        }
    }
}

proof fn lemma_lexicographic_meet_associative<A: PartialOrder, B: Lattice>()
    requires
        total::<A>(),
        antisymmetric::<A>(),
        meet_associative::<B>(),
    ensures
        meet_associative::<Lexicographic<A, B>>(),
{
    assert forall|a: (A::V, B::V), b: (A::V, B::V), c: (A::V, B::V)|
        #![trigger Lexicographic::<A, B>::meet_spec(a, Lexicographic::<A, B>::meet_spec(b, c))]
        Lexicographic::<A, B>::meet_spec(a, Lexicographic::<A, B>::meet_spec(b, c))
            == Lexicographic::<A, B>::meet_spec(Lexicographic::<A, B>::meet_spec(a, b), c) by {
        assert(A::leq(a.0, b.0) || A::leq(b.0, a.0));
        assert(A::leq(b.0, c.0) || A::leq(c.0, b.0));
        assert(A::leq(a.0, c.0) || A::leq(c.0, a.0));
        if A::leq(a.0, b.0) && A::leq(b.0, c.0) {
            A::lemma_le_transitive(a.0, b.0, c.0);
        }
        if A::leq(c.0, b.0) && A::leq(b.0, a.0) {
            A::lemma_le_transitive(c.0, b.0, a.0);
        }
        if A::leq(a.0, c.0) && A::leq(c.0, b.0) {
            A::lemma_le_transitive(a.0, c.0, b.0);
        }
        if A::leq(b.0, a.0) && A::leq(a.0, c.0) {
            A::lemma_le_transitive(b.0, a.0, c.0);
        }
        if A::leq(b.0, c.0) && A::leq(c.0, a.0) {
            A::lemma_le_transitive(b.0, c.0, a.0);
        }
        if A::leq(c.0, a.0) && A::leq(a.0, b.0) {
            A::lemma_le_transitive(c.0, a.0, b.0);
        }
        assert(B::meet_spec(a.1, B::meet_spec(b.1, c.1)) == B::meet_spec(B::meet_spec(a.1, b.1), c.1));
    }
}

proof fn lemma_lexicographic_join_associative<A: PartialOrder, B: Lattice>()
    requires
        total::<A>(),
        antisymmetric::<A>(),
        join_associative::<B>(),
    ensures
        join_associative::<Lexicographic<A, B>>(),
{
    assert forall|a: (A::V, B::V), b: (A::V, B::V), c: (A::V, B::V)|
        #![trigger Lexicographic::<A, B>::join_spec(a, Lexicographic::<A, B>::join_spec(b, c))]
        Lexicographic::<A, B>::join_spec(a, Lexicographic::<A, B>::join_spec(b, c))
            == Lexicographic::<A, B>::join_spec(Lexicographic::<A, B>::join_spec(a, b), c) by {
        assert(A::leq(a.0, b.0) || A::leq(b.0, a.0));
        assert(A::leq(b.0, c.0) || A::leq(c.0, b.0));
        assert(A::leq(a.0, c.0) || A::leq(c.0, a.0));
        if A::leq(a.0, b.0) && A::leq(b.0, c.0) {
            A::lemma_le_transitive(a.0, b.0, c.0);
        }
        if A::leq(c.0, b.0) && A::leq(b.0, a.0) {
            A::lemma_le_transitive(c.0, b.0, a.0);
        }
        if A::leq(a.0, c.0) && A::leq(c.0, b.0) {
            A::lemma_le_transitive(a.0, c.0, b.0);
        }
        if A::leq(b.0, a.0) && A::leq(a.0, c.0) {
            A::lemma_le_transitive(b.0, a.0, c.0);
        }
        if A::leq(b.0, c.0) && A::leq(c.0, a.0) {
            A::lemma_le_transitive(b.0, c.0, a.0);
        }
        if A::leq(c.0, a.0) && A::leq(a.0, b.0) {
            A::lemma_le_transitive(c.0, a.0, b.0);
        }
        assert(B::join_spec(a.1, B::join_spec(b.1, c.1)) == B::join_spec(B::join_spec(a.1, b.1), c.1));
    }
}

proof fn lemma_lexicographic_order_consistent<A: PartialOrder, B: Lattice>()
    requires
        total::<A>(),
        antisymmetric::<A>(),
        order_consistent::<B>(),
    ensures
        order_consistent::<Lexicographic<A, B>>(),
{
    assert forall|a: (A::V, B::V), b: (A::V, B::V)|
        #![trigger Lexicographic::<A, B>::meet_spec(a, b)]
        #![trigger Lexicographic::<A, B>::join_spec(a, b)]
        (Lexicographic::<A, B>::leq(a, b) <==> Lexicographic::<A, B>::meet_spec(a, b) == a)
            && (Lexicographic::<A, B>::leq(a, b) <==> Lexicographic::<A, B>::join_spec(a, b) == b) by {
        assert(A::leq(a.0, b.0) || A::leq(b.0, a.0));
        assert(B::leq(a.1, b.1) <==> B::meet_spec(a.1, b.1) == a.1);
        assert(B::leq(a.1, b.1) <==> B::join_spec(a.1, b.1) == b.1);
    }
}

proof fn lemma_lexicographic_commutative<A: PartialOrder, B: Lattice>()
    requires
        total::<A>(),
        antisymmetric::<A>(),
        meet_commutative::<B>(),
        join_commutative::<B>(),
    ensures
        meet_commutative::<Lexicographic<A, B>>(),
        join_commutative::<Lexicographic<A, B>>(),
{
    assert forall|a: (A::V, B::V), b: (A::V, B::V)|
        #[trigger] Lexicographic::<A, B>::meet_spec(a, b) == Lexicographic::<A, B>::meet_spec(b, a) by {
        assert(A::leq(a.0, b.0) || A::leq(b.0, a.0));
        assert(B::meet_spec(a.1, b.1) == B::meet_spec(b.1, a.1));
    }
    assert forall|a: (A::V, B::V), b: (A::V, B::V)|
        #[trigger] Lexicographic::<A, B>::join_spec(a, b) == Lexicographic::<A, B>::join_spec(b, a) by {
        assert(A::leq(a.0, b.0) || A::leq(b.0, a.0));
        assert(B::join_spec(a.1, b.1) == B::join_spec(b.1, a.1));
    }
}

proof fn lemma_lexicographic_idempotent<A: PartialOrder, B: Lattice>()
    requires
        total::<A>(),
        antisymmetric::<A>(),
        meet_idempotent::<B>(),
        join_idempotent::<B>(),
    ensures
        meet_idempotent::<Lexicographic<A, B>>(),
        join_idempotent::<Lexicographic<A, B>>(),
{
    assert forall|a: (A::V, B::V)| #[trigger] Lexicographic::<A, B>::meet_spec(a, a) == a by {
        A::lemma_le_reflexive(a.0);
        assert(B::meet_spec(a.1, a.1) == a.1);
    }
    assert forall|a: (A::V, B::V)| #[trigger] Lexicographic::<A, B>::join_spec(a, a) == a by {
        A::lemma_le_reflexive(a.0);
        assert(B::join_spec(a.1, a.1) == a.1);
    }
}

/// The lexicographic order with a totally and antisymmetrically ordered
/// outer dimension over a lattice is a lattice.
pub proof fn lemma_lexicographic_is_lattice<A: PartialOrder, B: Lattice>()
    requires
        total::<A>(),
        antisymmetric::<A>(),
        is_lattice::<B>(),
    ensures
        is_lattice::<Lexicographic<A, B>>(),
{
    lemma_lexicographic_antisymmetric::<A, B>();
    lemma_lexicographic_meet_associative::<A, B>();
    lemma_lexicographic_join_associative::<A, B>();
    lemma_lexicographic_order_consistent::<A, B>();
    lemma_lexicographic_commutative::<A, B>();
    lemma_lexicographic_idempotent::<A, B>();
}



/// Pairs of antisymmetric orders are antisymmetric in the lexicographic order.
pub proof fn lemma_pair_antisymmetric<A: PartialOrder, B: PartialOrder>()
    requires
        antisymmetric::<A>(),
        antisymmetric::<B>(),
    ensures
        antisymmetric::<(A, B)>(),
{
    assert forall|a: (A::V, B::V), b: (A::V, B::V)|
        #[trigger] <(A, B)>::leq(a, b) && #[trigger] <(A, B)>::leq(b, a) implies a == b by {
        if equivalent::<A>(a.0, b.0) {
            assert(A::leq(a.0, b.0) && A::leq(b.0, a.0));
            assert(B::leq(a.1, b.1) && B::leq(b.1, a.1));
        }
    }
}

/// The component-wise operations on pairs are commutative, associative and
/// idempotent when those of the components are.
pub proof fn lemma_pair_operations<A: Lattice, B: Lattice>()
    requires
        is_lattice::<A>(),
        is_lattice::<B>(),
    ensures
        meet_commutative::<(A, B)>(),
        join_commutative::<(A, B)>(),
        meet_associative::<(A, B)>(),
        join_associative::<(A, B)>(),
        meet_idempotent::<(A, B)>(),
        join_idempotent::<(A, B)>(),
{
}

/// The component-wise meet of pairs lies below both pairs, and the join above
/// both, in the lexicographic order of pairs.
pub proof fn lemma_pair_bounds<A: Lattice, B: Lattice>(a: (A::V, B::V), b: (A::V, B::V))
    requires
        is_lattice::<A>(),
        is_lattice::<B>(),
    ensures
        <(A, B)>::leq(<(A, B)>::meet_spec(a, b), a),
        <(A, B)>::leq(<(A, B)>::meet_spec(a, b), b),
        <(A, B)>::leq(a, <(A, B)>::join_spec(a, b)),
        <(A, B)>::leq(b, <(A, B)>::join_spec(a, b)),
{
    lemma_meet_lower_bound::<A>(a.0, b.0);
    lemma_meet_lower_bound::<B>(a.1, b.1);
    lemma_join_upper_bound::<A>(a.0, b.0);
    lemma_join_upper_bound::<B>(a.1, b.1);
}

/// In a lattice, a common lower bound of `x` and `y` lies below `meet(x, y)`,
/// and a common upper bound above `join(x, y)`.
pub proof fn lemma_greatest_lower_least_upper<T: Lattice>(c: T::V, x: T::V, y: T::V)
    requires
        is_lattice::<T>(),
    ensures
        T::leq(c, x) && T::leq(c, y) ==> T::leq(c, T::meet_spec(x, y)),
        T::leq(x, c) && T::leq(y, c) ==> T::leq(T::join_spec(x, y), c),
{
    if T::leq(c, x) && T::leq(c, y) {
        assert(T::meet_spec(c, T::meet_spec(x, y)) == T::meet_spec(T::meet_spec(c, x), y));
    }
    if T::leq(x, c) && T::leq(y, c) {
        assert(T::join_spec(x, c) == c);
        assert(T::join_spec(T::join_spec(x, y), c) == T::join_spec(x, T::join_spec(y, c)));
        assert(T::join_spec(c, T::join_spec(x, y)) == T::join_spec(T::join_spec(x, y), c));
    }
}

/// The value of a `Bounded` lies within its bounds.
pub open spec fn in_range<T: PartialOrder>(b: (T::V, T::V, T::V)) -> bool {
    T::leq(b.1, b.0) && T::leq(b.0, b.2)
}

/// The values of `T` within `[lo, hi]`.
pub open spec fn range_values<T: PartialOrder>(lo: T::V, hi: T::V) -> Set<T::V> {
    Set::new(|v: T::V| T::leq(lo, v) && T::leq(v, hi))
}

/// An antichain of `Bounded` values that share the range `[lo, hi]` and lie
/// within it is no wider than the range has values: bounded ranges keep
/// antichains bounded.
pub proof fn lemma_bounded_width<T: PartialOrder>(s: Seq<(T::V, T::V, T::V)>, lo: T::V, hi: T::V)
    requires
        is_antichain::<Bounded<T>>(s),
        forall|i: int| 0 <= i < s.len() ==> (#[trigger] s[i]).1 == lo && s[i].2 == hi && in_range::<T>(s[i]),
        range_values::<T>(lo, hi).finite(),
    ensures
        s.len() <= range_values::<T>(lo, hi).len(),
{
    let vals = s.map_values(|b: (T::V, T::V, T::V)| b.0);
    assert forall|i: int, j: int| 0 <= i < vals.len() && 0 <= j < vals.len() && i != j implies vals[i] != vals[j] by {
        if vals[i] == vals[j] {
            assert(s[i] == s[j]);
        }
    }
    assert(vals.no_duplicates());
    vals.unique_seq_to_set();
    assert(vals.to_set().subset_of(range_values::<T>(lo, hi))) by {
        assert forall|v: T::V| vals.to_set().contains(v) implies #[trigger] range_values::<T>(lo, hi).contains(v) by {
            let i = choose|i: int| 0 <= i < vals.len() && vals[i] == v;
            assert(in_range::<T>(s[i]));
        }
    }
    vstd::set_lib::lemma_len_subset(vals.to_set(), range_values::<T>(lo, hi));
}

/// For a totally ordered `T`, clamping to `[lo, hi]` (with `lo <= hi`)
/// gives a value within `[lo, hi]`.
pub proof fn lemma_clamp_in_range<T: PartialOrder>(v: T::V, lo: T::V, hi: T::V)
    requires
        total::<T>(),
        T::leq(lo, hi),
    ensures
        in_range::<T>((clamp::<T>(v, lo, hi), lo, hi)),
{
    T::lemma_le_reflexive(lo);
    T::lemma_le_reflexive(hi);
    assert(T::leq(v, lo) || T::leq(lo, v));
    assert(T::leq(v, hi) || T::leq(hi, v));
}

/// `Bounded` values with the same bounds, within them, over a lattice: `meet`
/// and `join` are those of the values, stay within the bounds, are
/// commutative and idempotent, and agree with the order.
pub proof fn lemma_bounded_same_range<T: Lattice>(a: (T::V, T::V, T::V), b: (T::V, T::V, T::V))
    requires
        is_lattice::<T>(),
        in_range::<T>(a),
        in_range::<T>(b),
        a.1 == b.1,
        a.2 == b.2,
    ensures
        Bounded::<T>::meet_spec(a, b) == (T::meet_spec(a.0, b.0), a.1, a.2),
        Bounded::<T>::join_spec(a, b) == (T::join_spec(a.0, b.0), a.1, a.2),
        in_range::<T>(Bounded::<T>::meet_spec(a, b)),
        in_range::<T>(Bounded::<T>::join_spec(a, b)),
        Bounded::<T>::meet_spec(a, b) == Bounded::<T>::meet_spec(b, a),
        Bounded::<T>::join_spec(a, b) == Bounded::<T>::join_spec(b, a),
        Bounded::<T>::meet_spec(a, a) == a,
        Bounded::<T>::join_spec(a, a) == a,
        Bounded::<T>::leq(a, b) <==> Bounded::<T>::meet_spec(a, b) == a,
        Bounded::<T>::leq(a, b) <==> Bounded::<T>::join_spec(a, b) == b,
{
    let (lo, hi) = (a.1, a.2);
    let m = T::meet_spec(a.0, b.0);
    let j = T::join_spec(a.0, b.0);
    lemma_meet_lower_bound::<T>(a.0, b.0);
    lemma_join_upper_bound::<T>(a.0, b.0);
    lemma_greatest_lower_least_upper::<T>(lo, a.0, b.0);
    lemma_greatest_lower_least_upper::<T>(hi, a.0, b.0);
    T::lemma_le_transitive(m, a.0, hi);
    T::lemma_le_transitive(lo, a.0, j);
    assert(T::meet_spec(a.0, b.0) == T::meet_spec(b.0, a.0));
    assert(T::join_spec(a.0, b.0) == T::join_spec(b.0, a.0));
    assert(T::meet_spec(a.0, a.0) == a.0);
    assert(T::join_spec(a.0, a.0) == a.0);
    assert(T::leq(a.0, b.0) <==> T::meet_spec(a.0, b.0) == a.0);
    assert(T::leq(a.0, b.0) <==> T::join_spec(a.0, b.0) == b.0);
}

} // verus!

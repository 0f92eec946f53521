//! The algebraic laws of frontiers: `meet` is commutative, associative and
//! idempotent, so nodes that merge the same updates in any order converge to
//! the same frontier; `join` is commutative, associative and idempotent, the
//! empty frontier is the identity of both, and the two operations absorb each
//! other (except where the empty frontier stands on the left).
//!
//! Frontiers are compared as sets of elements, as their `==` does. The laws
//! are stated over the views that [`Frontier::meet`](crate::Frontier::meet)
//! and [`Frontier::join`](crate::Frontier::join) promise: `meet_view` and
//! `frontier_join`.
use vstd::prelude::*;

use crate::lattice::{join_associative, join_commutative, join_idempotent, join_is_upper_bound, Lattice};
use crate::lattice_laws::is_lattice;
use crate::minimal::{
    covers, frontier_join, is_antichain, join_set, join_view, lemma_covers_transitive, lemma_insert_all_minimal,
    lemma_join_view_minimal, lemma_meet_view_minimal, lemma_minimal_replace, lemma_minimal_unique,
    meet_view, minimal,
};
use crate::order::{antisymmetric, total, PartialOrder};

verus! {

broadcast use vstd::seq_lib::group_seq_properties;

/// An antichain lies below all of itself and is its own set of minimal
/// elements.
proof fn lemma_antichain_minimal<T: PartialOrder>(a: Seq<T::V>)
    requires
        antisymmetric::<T>(),
        is_antichain::<T>(a),
    ensures
        covers::<T>(a.to_set(), a.to_set()),
        minimal::<T>(a.to_set()) == a.to_set(),
{
    assert forall|y: T::V| #[trigger] a.to_set().contains(y) implies exists|x: T::V| a.to_set().contains(x) && T::leq(x, y) by {
        T::lemma_le_reflexive(y);
    }
    lemma_minimal_unique::<T>(a, a.to_set());
}

/// For a totally ordered timestamp type an antichain holds at most one
/// element: a frontier of such timestamps is a single watermark.
pub proof fn lemma_total_order_width<T: PartialOrder>(a: Seq<T::V>)
    requires
        total::<T>(),
        is_antichain::<T>(a),
    ensures
        a.len() <= 1,
{
    if a.len() > 1 {
        assert(a.contains(a[0]) && a.contains(a[1]));
        if T::leq(a[0], a[1]) {
            assert(a[0] == a[1]);
        } else {
            assert(T::leq(a[1], a[0]));
            assert(a[1] == a[0]);
        }
    }
}

/// Merging is commutative: `meet(a, b) == meet(b, a)`.
pub proof fn lemma_meet_commutative<T: PartialOrder>(a: Seq<T::V>, b: Seq<T::V>)
    requires
        antisymmetric::<T>(),
    ensures
        meet_view::<T>(a, b).to_set() == meet_view::<T>(b, a).to_set(),
{
    lemma_meet_view_minimal::<T>(a, b);
    lemma_meet_view_minimal::<T>(b, a);
    assert(a.to_set() + b.to_set() =~= b.to_set() + a.to_set());
}

/// Merging is associative: `meet(a, meet(b, c)) == meet(meet(a, b), c)`.
pub proof fn lemma_meet_associative<T: PartialOrder>(a: Seq<T::V>, b: Seq<T::V>, c: Seq<T::V>)
    requires
        antisymmetric::<T>(),
    ensures
        meet_view::<T>(a, meet_view::<T>(b, c)).to_set() == meet_view::<T>(meet_view::<T>(a, b), c).to_set(),
{
    let bc = meet_view::<T>(b, c);
    let ab = meet_view::<T>(a, b);
    lemma_meet_view_minimal::<T>(b, c);
    lemma_meet_view_minimal::<T>(a, b);
    lemma_meet_view_minimal::<T>(a, bc);
    lemma_meet_view_minimal::<T>(ab, c);
    // meet(a, meet(b, c)) = min(a + bc) = min(a + (b + c))
    lemma_minimal_replace::<T>(a.to_set(), bc.to_set(), b.to_set() + c.to_set());
    // meet(meet(a, b), c) = min(c + ab) = min(c + (a + b))
    lemma_minimal_replace::<T>(c.to_set(), ab.to_set(), a.to_set() + b.to_set());
    assert(ab.to_set() + c.to_set() =~= c.to_set() + ab.to_set());
    assert(a.to_set() + (b.to_set() + c.to_set()) =~= c.to_set() + (a.to_set() + b.to_set()));
}

/// Merging is idempotent: `meet(a, a) == a`.
pub proof fn lemma_meet_idempotent<T: PartialOrder>(a: Seq<T::V>)
    requires
        antisymmetric::<T>(),
        is_antichain::<T>(a),
    ensures
        meet_view::<T>(a, a).to_set() == a.to_set(),
{
    lemma_meet_view_minimal::<T>(a, a);
    assert(a.to_set() + a.to_set() =~= a.to_set());
    lemma_antichain_minimal::<T>(a);
}

/// The empty frontier is the identity of merging:
/// `meet(a, bottom) == a == meet(bottom, a)`.
pub proof fn lemma_meet_bottom_identity<T: PartialOrder>(a: Seq<T::V>)
    requires
        antisymmetric::<T>(),
        is_antichain::<T>(a),
    ensures
        meet_view::<T>(a, Seq::empty()).to_set() == a.to_set(),
        meet_view::<T>(Seq::empty(), a).to_set() == a.to_set(),
{
    let e = Seq::<T::V>::empty();
    lemma_meet_view_minimal::<T>(a, e);
    lemma_meet_view_minimal::<T>(e, a);
    assert(e.to_set() =~= Set::empty());
    assert(a.to_set() + e.to_set() =~= a.to_set());
    assert(e.to_set() + a.to_set() =~= a.to_set());
    lemma_antichain_minimal::<T>(a);
}

/// Once `m = meet(a, b)` is computed, further merges with `a` or `b` leave
/// it unchanged: `meet(m, a) == m` and `meet(m, b) == m`.
pub proof fn lemma_meet_absorbs_inputs<T: PartialOrder>(a: Seq<T::V>, b: Seq<T::V>)
    requires
        antisymmetric::<T>(),
    ensures
        meet_view::<T>(meet_view::<T>(a, b), a).to_set() == meet_view::<T>(a, b).to_set(),
        meet_view::<T>(meet_view::<T>(a, b), b).to_set() == meet_view::<T>(a, b).to_set(),
{
    let m = meet_view::<T>(a, b);
    lemma_meet_view_minimal::<T>(a, b);
    lemma_meet_view_minimal::<T>(m, a);
    lemma_meet_view_minimal::<T>(m, b);
    lemma_minimal_replace::<T>(a.to_set(), m.to_set(), a.to_set() + b.to_set());
    lemma_minimal_replace::<T>(b.to_set(), m.to_set(), a.to_set() + b.to_set());
    assert(m.to_set() + a.to_set() =~= a.to_set() + m.to_set());
    assert(m.to_set() + b.to_set() =~= b.to_set() + m.to_set());
    assert(a.to_set() + (a.to_set() + b.to_set()) =~= a.to_set() + b.to_set());
    assert(b.to_set() + (a.to_set() + b.to_set()) =~= a.to_set() + b.to_set());
}

/// Every element of every frontier of `updates`.
pub open spec fn all_elements<V>(updates: Seq<Seq<V>>) -> Set<V>
    decreases updates.len(),
{
    if updates.len() == 0 {
        Set::empty()
    } else {
        all_elements(updates.drop_last()) + updates.last().to_set()
    }
}

/// Starting from the empty frontier, merge the frontiers of `updates`, first
/// to last.
pub open spec fn meet_all<T: PartialOrder>(updates: Seq<Seq<T::V>>) -> Seq<T::V>
    decreases updates.len(),
{
    if updates.len() == 0 {
        Seq::empty()
    } else {
        meet_view::<T>(meet_all::<T>(updates.drop_last()), updates.last())
    }
}

/// Merging a sequence of updates gives the minimal elements of all updates,
/// an antichain of them that lies below all of them.
pub proof fn lemma_meet_all_minimal<T: PartialOrder>(updates: Seq<Seq<T::V>>)
    requires
        antisymmetric::<T>(),
    ensures
        meet_all::<T>(updates).to_set().subset_of(all_elements(updates)),
        covers::<T>(meet_all::<T>(updates).to_set(), all_elements(updates)),
        meet_all::<T>(updates).to_set() == minimal::<T>(all_elements(updates)),
    decreases updates.len(),
{
    if updates.len() == 0 {
        let e = Seq::<T::V>::empty();
        assert(e.to_set() =~= Set::empty());
        lemma_insert_all_minimal::<T>(e);
        assert(minimal::<T>(Set::empty()) =~= Set::empty());
    } else {
        let rest = updates.drop_last();
        let last = updates.last();
        lemma_meet_all_minimal::<T>(rest);
        let m = meet_all::<T>(rest);
        lemma_meet_view_minimal::<T>(m, last);
        let r = meet_view::<T>(m, last);
        // r covers m + last, and m covers all_elements(rest)
        assert(covers::<T>(m.to_set() + last.to_set(), all_elements(updates))) by {
            assert forall|y: T::V| #[trigger] all_elements(updates).contains(y) implies exists|x: T::V|
                (m.to_set() + last.to_set()).contains(x) && T::leq(x, y) by {
                if last.to_set().contains(y) {
                    T::lemma_le_reflexive(y);
                    assert((m.to_set() + last.to_set()).contains(y));
                } else {
                    assert(all_elements(rest).contains(y));
                    let x = choose|x: T::V| m.to_set().contains(x) && T::leq(x, y);
                    assert((m.to_set() + last.to_set()).contains(x));
                }
            }
        }
        lemma_covers_transitive::<T>(r.to_set(), m.to_set() + last.to_set(), all_elements(updates));
        lemma_minimal_replace::<T>(last.to_set(), m.to_set(), all_elements(rest));
        assert(m.to_set() + last.to_set() =~= last.to_set() + m.to_set());
        assert(all_elements(updates) =~= last.to_set() + all_elements(rest));
    }
}

/// Convergence: two nodes that merge updates holding the same elements, in
/// any order and with any repetition, hold identical frontiers.
pub proof fn lemma_convergence<T: PartialOrder>(u1: Seq<Seq<T::V>>, u2: Seq<Seq<T::V>>)
    requires
        antisymmetric::<T>(),
        all_elements(u1) == all_elements(u2),
    ensures
        meet_all::<T>(u1).to_set() == meet_all::<T>(u2).to_set(),
{
    lemma_meet_all_minimal::<T>(u1);
    lemma_meet_all_minimal::<T>(u2);
}

/// `join` is commutative when the element join is:
/// `join(a, b) == join(b, a)`.
pub proof fn lemma_join_commutative<T: Lattice>(a: Seq<T::V>, b: Seq<T::V>)
    requires
        antisymmetric::<T>(),
        join_commutative::<T>(),
    ensures
        frontier_join::<T>(a, b).to_set() == frontier_join::<T>(b, a).to_set(),
{
    if a.len() > 0 && b.len() > 0 {
        lemma_join_view_minimal::<T>(a, b);
        lemma_join_view_minimal::<T>(b, a);
        lemma_join_set_commutative::<T>(a.to_set(), b.to_set());
    }
}

/// The empty frontier is the identity of `join`:
/// `join(a, bottom) == a == join(bottom, a)`.
pub proof fn lemma_join_bottom_identity<T: Lattice>(a: Seq<T::V>)
    ensures
        frontier_join::<T>(a, Seq::empty()) == a,
        frontier_join::<T>(Seq::empty(), a) == a,
{
}

/// The join of two non-empty frontiers is not empty.
proof fn lemma_join_view_nonempty<T: Lattice>(a: Seq<T::V>, b: Seq<T::V>)
    requires
        antisymmetric::<T>(),
        a.len() > 0,
        b.len() > 0,
    ensures
        join_view::<T>(a, b).len() > 0,
{
    lemma_join_view_minimal::<T>(a, b);
    let z = T::join_spec(a[0], b[0]);
    assert(a.to_set().contains(a[0]) && b.to_set().contains(b[0]));
    assert(join_set::<T>(a.to_set(), b.to_set()).contains(z));
    let x = choose|x: T::V| join_view::<T>(a, b).to_set().contains(x) && T::leq(x, z);
    assert(join_view::<T>(a, b).contains(x));
}

/// The meet of a non-empty frontier with any frontier is not empty.
proof fn lemma_meet_view_nonempty<T: PartialOrder>(a: Seq<T::V>, b: Seq<T::V>)
    requires
        antisymmetric::<T>(),
        a.len() > 0,
    ensures
        meet_view::<T>(a, b).len() > 0,
{
    lemma_meet_view_minimal::<T>(a, b);
    assert((a.to_set() + b.to_set()).contains(a[0]));
    let x = choose|x: T::V| meet_view::<T>(a, b).to_set().contains(x) && T::leq(x, a[0]);
    assert(meet_view::<T>(a, b).contains(x));
}

/// In a lattice, every pairwise join of `a` with `b` lies above an element of `a`.
proof fn lemma_joins_above<T: Lattice>(a: Set<T::V>, b: Set<T::V>)
    requires
        join_is_upper_bound::<T>(),
    ensures
        covers::<T>(a, join_set::<T>(a, b)),
{
    assert forall|z: T::V| #[trigger] join_set::<T>(a, b).contains(z) implies exists|x: T::V| a.contains(x) && T::leq(x, z) by {
        let (x, y) = choose|x: T::V, y: T::V| a.contains(x) && b.contains(y) && z == T::join_spec(x, y);
        assert(T::leq(x, T::join_spec(x, y)));
    }
}

/// `join` is idempotent when the element join is an idempotent upper bound
/// (as a least upper bound is): `join(a, a) == a`.
pub proof fn lemma_join_idempotent<T: Lattice>(a: Seq<T::V>)
    requires
        antisymmetric::<T>(),
        join_idempotent::<T>(),
        join_is_upper_bound::<T>(),
        is_antichain::<T>(a),
    ensures
        frontier_join::<T>(a, a).to_set() == a.to_set(),
{
    if a.len() == 0 {
        return;
    }
    lemma_join_view_minimal::<T>(a, a);
    lemma_joins_above::<T>(a.to_set(), a.to_set());
    assert(a.to_set().subset_of(join_set::<T>(a.to_set(), a.to_set()))) by {
        assert forall|x: T::V| a.to_set().contains(x) implies #[trigger] join_set::<T>(a.to_set(), a.to_set()).contains(x) by {
            assert(T::join_spec(x, x) == x);
        }
    }
    lemma_minimal_unique::<T>(a, join_set::<T>(a.to_set(), a.to_set()));
}

/// In a lattice, joining with a fixed value is monotonic:
/// `r <= s` gives `join(x, r) <= join(x, s)`.
proof fn lemma_join_monotonic<T: Lattice>(x: T::V, r: T::V, s: T::V)
    requires
        is_lattice::<T>(),
        T::leq(r, s),
    ensures
        T::leq(T::join_spec(x, r), T::join_spec(x, s)),
{
    let xr = T::join_spec(x, r);
    let xs = T::join_spec(x, s);
    assert(T::join_spec(r, s) == s);
    // join(xr, xs) = join(x, join(r, join(x, s))) = join(x, join(x, join(r, s))) = join(x, s)
    assert(T::join_spec(xr, xs) == T::join_spec(x, T::join_spec(r, xs)));
    assert(T::join_spec(r, xs) == T::join_spec(T::join_spec(r, x), s));
    assert(T::join_spec(r, x) == T::join_spec(x, r));
    assert(T::join_spec(T::join_spec(x, r), s) == T::join_spec(x, T::join_spec(r, s)));
    assert(T::join_spec(x, xs) == T::join_spec(T::join_spec(x, x), s));
    assert(T::join_spec(xr, xs) == xs);
}

/// The pairwise joins of `x` with `r`, a part of `s` that lies below all of
/// `s`, are a part of the joins of `x` with `s` that lies below all of them.
proof fn lemma_join_set_replace<T: Lattice>(x: Set<T::V>, r: Set<T::V>, s: Set<T::V>)
    requires
        is_lattice::<T>(),
        r.subset_of(s),
        covers::<T>(r, s),
    ensures
        join_set::<T>(x, r).subset_of(join_set::<T>(x, s)),
        covers::<T>(join_set::<T>(x, r), join_set::<T>(x, s)),
{
    assert forall|z: T::V| #[trigger] join_set::<T>(x, r).contains(z) implies join_set::<T>(x, s).contains(z) by {
        let (a, b) = choose|a: T::V, b: T::V| x.contains(a) && r.contains(b) && z == T::join_spec(a, b);
        assert(s.contains(b));
    }
    assert forall|z: T::V| #[trigger] join_set::<T>(x, s).contains(z) implies exists|w: T::V|
        join_set::<T>(x, r).contains(w) && T::leq(w, z) by {
        let (a, b) = choose|a: T::V, b: T::V| x.contains(a) && s.contains(b) && z == T::join_spec(a, b);
        let c = choose|c: T::V| r.contains(c) && T::leq(c, b);
        lemma_join_monotonic::<T>(a, c, b);
        assert(join_set::<T>(x, r).contains(T::join_spec(a, c)));
    }
}

/// The pairwise joins of `a` with `b` are those of `b` with `a`.
proof fn lemma_join_set_commutative<T: Lattice>(a: Set<T::V>, b: Set<T::V>)
    requires
        join_commutative::<T>(),
    ensures
        join_set::<T>(a, b) == join_set::<T>(b, a),
{
    assert forall|z: T::V| #[trigger] join_set::<T>(a, b).contains(z) <==> join_set::<T>(b, a).contains(z) by {
        if join_set::<T>(a, b).contains(z) {
            let (x, y) = choose|x: T::V, y: T::V| a.contains(x) && b.contains(y) && z == T::join_spec(x, y);
            assert(T::join_spec(y, x) == z);
        }
        if join_set::<T>(b, a).contains(z) {
            let (x, y) = choose|x: T::V, y: T::V| b.contains(x) && a.contains(y) && z == T::join_spec(x, y);
            assert(T::join_spec(y, x) == z);
        }
    }
    assert(join_set::<T>(a, b) =~= join_set::<T>(b, a));
}

/// The three-way pairwise joins do not depend on the grouping.
proof fn lemma_join_set_associative<T: Lattice>(a: Set<T::V>, b: Set<T::V>, c: Set<T::V>)
    requires
        join_associative::<T>(),
    ensures
        join_set::<T>(a, join_set::<T>(b, c)) == join_set::<T>(join_set::<T>(a, b), c),
{
    let left = join_set::<T>(a, join_set::<T>(b, c));
    let right = join_set::<T>(join_set::<T>(a, b), c);
    assert forall|z: T::V| #[trigger] left.contains(z) <==> right.contains(z) by {
        if left.contains(z) {
            let (x, w) = choose|x: T::V, w: T::V| a.contains(x) && join_set::<T>(b, c).contains(w) && z == T::join_spec(x, w);
            let (y, v) = choose|y: T::V, v: T::V| b.contains(y) && c.contains(v) && w == T::join_spec(y, v);
            assert(T::join_spec(x, T::join_spec(y, v)) == T::join_spec(T::join_spec(x, y), v));
            assert(join_set::<T>(a, b).contains(T::join_spec(x, y)));
        }
        if right.contains(z) {
            let (w, v) = choose|w: T::V, v: T::V| join_set::<T>(a, b).contains(w) && c.contains(v) && z == T::join_spec(w, v);
            let (x, y) = choose|x: T::V, y: T::V| a.contains(x) && b.contains(y) && w == T::join_spec(x, y);
            assert(T::join_spec(x, T::join_spec(y, v)) == T::join_spec(T::join_spec(x, y), v));
            assert(join_set::<T>(b, c).contains(T::join_spec(y, v)));
        }
    }
    assert(left =~= right);
}

/// The minimal joins of `x` with the minimal elements of `s` are the minimal
/// joins of `x` with all of `s`.
proof fn lemma_join_minimal_operand<T: Lattice>(x: Set<T::V>, r: Set<T::V>, s: Set<T::V>)
    requires
        is_lattice::<T>(),
        r.subset_of(s),
        covers::<T>(r, s),
    ensures
        minimal::<T>(join_set::<T>(x, r)) == minimal::<T>(join_set::<T>(x, s)),
{
    let e = Set::<T::V>::empty();
    lemma_join_set_replace::<T>(x, r, s);
    lemma_minimal_replace::<T>(e, join_set::<T>(x, r), join_set::<T>(x, s));
    assert(e + join_set::<T>(x, r) =~= join_set::<T>(x, r));
    assert(e + join_set::<T>(x, s) =~= join_set::<T>(x, s));
}

/// The pairwise join is associative for a lattice.
proof fn lemma_join_view_associative<T: Lattice>(a: Seq<T::V>, b: Seq<T::V>, c: Seq<T::V>)
    requires
        is_lattice::<T>(),
    ensures
        join_view::<T>(a, join_view::<T>(b, c)).to_set() == join_view::<T>(join_view::<T>(a, b), c).to_set(),
{
    let bc = join_view::<T>(b, c);
    let ab = join_view::<T>(a, b);
    let sa = a.to_set();
    let sb = b.to_set();
    let sc = c.to_set();
    lemma_join_view_minimal::<T>(b, c);
    lemma_join_view_minimal::<T>(a, b);
    lemma_join_view_minimal::<T>(a, bc);
    lemma_join_view_minimal::<T>(ab, c);
    // join(a, join(b, c)) = min(J(a, bc)) = min(J(a, J(b, c)))
    lemma_join_minimal_operand::<T>(sa, bc.to_set(), join_set::<T>(sb, sc));
    // join(join(a, b), c) = min(J(ab, c)) = min(J(c, ab)) = min(J(c, J(a, b))) = min(J(J(a, b), c))
    lemma_join_set_commutative::<T>(ab.to_set(), sc);
    lemma_join_minimal_operand::<T>(sc, ab.to_set(), join_set::<T>(sa, sb));
    lemma_join_set_commutative::<T>(sc, join_set::<T>(sa, sb));
    lemma_join_set_associative::<T>(sa, sb, sc);
}

/// `join` is associative for a lattice:
/// `join(a, join(b, c)) == join(join(a, b), c)`.
pub proof fn lemma_join_associative<T: Lattice>(a: Seq<T::V>, b: Seq<T::V>, c: Seq<T::V>)
    requires
        is_lattice::<T>(),
    ensures
        frontier_join::<T>(a, frontier_join::<T>(b, c)).to_set() == frontier_join::<T>(
            frontier_join::<T>(a, b),
            c,
        ).to_set(),
{
    if b.len() > 0 && c.len() > 0 {
        lemma_join_view_nonempty::<T>(b, c);
    }
    if a.len() > 0 && b.len() > 0 {
        lemma_join_view_nonempty::<T>(a, b);
    }
    if a.len() > 0 && b.len() > 0 && c.len() > 0 {
        lemma_join_view_associative::<T>(a, b, c);
    }
}

/// Absorption for a lattice: `meet(a, join(a, b)) == a`. It fails when `a`
/// is empty and `b` is not, since the empty frontier is the identity of both
/// `meet` and `join`: there `meet(bottom, join(bottom, b)) == b`.
pub proof fn lemma_meet_absorbs_join<T: Lattice>(a: Seq<T::V>, b: Seq<T::V>)
    requires
        is_lattice::<T>(),
        is_antichain::<T>(a),
        a.len() > 0 || b.len() == 0,
    ensures
        meet_view::<T>(a, frontier_join::<T>(a, b)).to_set() == a.to_set(),
{
    if b.len() == 0 {
        lemma_meet_idempotent::<T>(a);
        return;
    }
    crate::lattice_laws::lemma_lattice_bounds::<T>();
    let j = join_view::<T>(a, b);
    let js = join_set::<T>(a.to_set(), b.to_set());
    lemma_join_view_minimal::<T>(a, b);
    lemma_meet_view_minimal::<T>(a, j);
    lemma_minimal_replace::<T>(a.to_set(), j.to_set(), js);
    lemma_joins_above::<T>(a.to_set(), b.to_set());
    assert(covers::<T>(a.to_set(), a.to_set() + js)) by {
        assert forall|y: T::V| #[trigger] (a.to_set() + js).contains(y) implies exists|x: T::V| a.to_set().contains(x) && T::leq(x, y) by {
            if a.to_set().contains(y) {
                T::lemma_le_reflexive(y);
            }
        }
    }
    lemma_minimal_unique::<T>(a, a.to_set() + js);
}

/// Absorption for a lattice: `join(a, meet(a, b)) == a`. It fails when `a`
/// is empty and `b` is not: there `join(bottom, meet(bottom, b))` holds the
/// minimal elements of `b`.
pub proof fn lemma_join_absorbs_meet<T: Lattice>(a: Seq<T::V>, b: Seq<T::V>)
    requires
        is_lattice::<T>(),
        is_antichain::<T>(a),
        a.len() > 0 || b.len() == 0,
    ensures
        frontier_join::<T>(a, meet_view::<T>(a, b)).to_set() == a.to_set(),
{
    if a.len() == 0 {
        assert(meet_view::<T>(a, b) =~= a);
        return;
    }
    crate::lattice_laws::lemma_lattice_bounds::<T>();
    lemma_meet_view_nonempty::<T>(a, b);
    let m = meet_view::<T>(a, b);
    let js = join_set::<T>(a.to_set(), m.to_set());
    lemma_meet_view_minimal::<T>(a, b);
    lemma_join_view_minimal::<T>(a, m);
    lemma_joins_above::<T>(a.to_set(), m.to_set());
    assert(a.to_set().subset_of(js)) by {
        assert forall|x: T::V| a.to_set().contains(x) implies #[trigger] js.contains(x) by {
            assert((a.to_set() + b.to_set()).contains(x));
            let y = choose|y: T::V| m.to_set().contains(y) && T::leq(y, x);
            crate::lattice_laws::lemma_le_join::<T>(y, x);
            assert(T::join_spec(x, y) == x);
        }
    }
    lemma_minimal_unique::<T>(a, js);
}

} // verus!

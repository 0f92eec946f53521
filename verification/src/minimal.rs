//! The mathematics of antichains: what inserting into an antichain gives, and
//! why the result depends only on the set of inserted elements.
//!
//! An antichain built by inserting the elements of `S` one by one is an
//! antichain, holds only elements of `S`, and lies below every element of `S`.
//! When the order is antisymmetric these three facts determine it: it is the
//! set of minimal elements of `S`, whatever the order of insertion.
use vstd::prelude::*;
use vstd::seq_lib::seq_to_set_distributes_over_add;

use crate::lattice::Lattice;
use crate::order::{antisymmetric, PartialOrder};

verus! {

broadcast use vstd::seq_lib::group_seq_properties, vstd::seq_lib::group_filter_ensures, vstd::set_lib::group_set_lib_default;

/// Some element of `s` is below `t`.
pub open spec fn dominated<T: PartialOrder>(s: Seq<T::V>, t: T::V) -> bool {
    exists|i: int| 0 <= i < s.len() && #[trigger] T::leq(s[i], t)
}

/// The antichain `s` after inserting `t`: unchanged if some element is below
/// `t`; otherwise the elements above `t` are dropped (the others keep their
/// order) and `t` is appended.
pub open spec fn insert_spec<T: PartialOrder>(s: Seq<T::V>, t: T::V) -> Seq<T::V> {
    if dominated::<T>(s, t) {
        s
    } else {
        s.filter(|e: T::V| !T::leq(t, e)).push(t)
    }
}

/// The antichain `s` after inserting the elements of `items`, first to last.
pub open spec fn insert_all<T: PartialOrder>(s: Seq<T::V>, items: Seq<T::V>) -> Seq<T::V>
    decreases items.len(),
{
    if items.len() == 0 {
        s
    } else {
        insert_spec::<T>(insert_all::<T>(s, items.drop_last()), items.last())
    }
}

/// `s` holds no value twice, and no value of `s` is below another.
pub open spec fn is_antichain<T: PartialOrder>(s: Seq<T::V>) -> bool {
    &&& s.no_duplicates()
    &&& forall|x: T::V, y: T::V|
        s.contains(x) && s.contains(y) && #[trigger] T::leq(x, y) ==> x == y
}

/// Every element of `s` lies above some element of `r`.
pub open spec fn covers<T: PartialOrder>(r: Set<T::V>, s: Set<T::V>) -> bool {
    forall|y: T::V| #[trigger] s.contains(y) ==> exists|x: T::V| r.contains(x) && T::leq(x, y)
}

/// The minimal elements of `s`: those with nothing of `s` strictly below them.
pub open spec fn minimal<T: PartialOrder>(s: Set<T::V>) -> Set<T::V> {
    Set::new(
        |x: T::V| s.contains(x) && forall|y: T::V| s.contains(y) && #[trigger] T::leq(y, x) ==> T::leq(x, y),
    )
}

proof fn lemma_filter_no_duplicates<A>(s: Seq<A>, p: spec_fn(A) -> bool)
    requires
        s.no_duplicates(),
    ensures
        s.filter(p).no_duplicates(),
    decreases s.len(),
{
    reveal(Seq::filter);
    if s.len() > 0 {
        let rest = s.drop_last();
        assert(rest.no_duplicates());
        lemma_filter_no_duplicates(rest, p);
        if p(s.last()) {
            if rest.filter(p).contains(s.last()) {
                rest.lemma_filter_contains_rev(p, s.last());
                let k = choose|k: int| 0 <= k < rest.len() && rest[k] == s.last();
                assert(s[k] == s[s.len() - 1]);
            }
        }
    }
}

/// Filtering by a predicate that every element meets keeps the sequence.
proof fn lemma_filter_all<A>(s: Seq<A>, p: spec_fn(A) -> bool)
    requires
        forall|i: int| 0 <= i < s.len() ==> p(#[trigger] s[i]),
    ensures
        s.filter(p) == s,
    decreases s.len(),
{
    reveal(Seq::filter);
    if s.len() > 0 {
        let rest = s.drop_last();
        assert forall|i: int| 0 <= i < rest.len() implies p(#[trigger] rest[i]) by {
            assert(rest[i] == s[i]);
        }
        lemma_filter_all(rest, p);
        assert(p(s[s.len() - 1]));
        assert(rest.push(s.last()) =~= s);
    }
}

/// Inserting into an antichain gives an antichain of elements of the old one
/// and the new element, which lies below all of them.
pub proof fn lemma_insert<T: PartialOrder>(s: Seq<T::V>, t: T::V)
    requires
        is_antichain::<T>(s),
    ensures
        is_antichain::<T>(insert_spec::<T>(s, t)),
        insert_spec::<T>(s, t).to_set().subset_of(s.to_set().insert(t)),
        covers::<T>(insert_spec::<T>(s, t).to_set(), s.to_set().insert(t)),
{
    let r = insert_spec::<T>(s, t);
    if dominated::<T>(s, t) {
        let i = choose|i: int| 0 <= i < s.len() && T::leq(s[i], t);
        assert forall|y: T::V| #[trigger] s.to_set().insert(t).contains(y) implies exists|x: T::V|
            r.to_set().contains(x) && T::leq(x, y) by {
            if y == t {
                assert(r.to_set().contains(s[i]));
            } else {
                T::lemma_le_reflexive(y);
            }
        }
    } else {
        let p = |e: T::V| !T::leq(t, e);
        let f = s.filter(p);
        assert(r == f.push(t));
        lemma_filter_no_duplicates(s, p);
        assert forall|x: T::V| f.contains(x) implies s.contains(x) && p(x) by {
            s.lemma_filter_contains_rev(p, x);
        }
        if f.contains(t) {
            T::lemma_le_reflexive(t);
            let k = choose|k: int| 0 <= k < s.len() && s[k] == t;
            assert(T::leq(s[k], t));
        }
        assert forall|x: T::V| r.contains(x) <==> (f.contains(x) || x == t) by {
            if f.contains(x) {
                let k = choose|k: int| 0 <= k < f.len() && f[k] == x;
                assert(r[k] == x);
            }
            if x == t {
                assert(r[r.len() - 1] == t);
            }
        }
        assert(r.no_duplicates());
        assert forall|x: T::V, y: T::V| r.contains(x) && r.contains(y) && #[trigger] T::leq(x, y) implies x == y by {
            if f.contains(x) && y == t {
                let k = choose|k: int| 0 <= k < s.len() && s[k] == x;
                assert(T::leq(s[k], t));
            }
        }
        assert forall|y: T::V| #[trigger] s.to_set().insert(t).contains(y) implies exists|x: T::V|
            r.to_set().contains(x) && T::leq(x, y) by {
            if y == t {
                T::lemma_le_reflexive(t);
                assert(r.to_set().contains(t));
            } else if p(y) {
                let k = choose|k: int| 0 <= k < s.len() && s[k] == y;
                s.lemma_filter_contains(p, k);
                T::lemma_le_reflexive(y);
                assert(r.to_set().contains(y));
            } else {
                assert(r.to_set().contains(t));
            }
        }
    }
}

/// Covering is transitive.
pub proof fn lemma_covers_transitive<T: PartialOrder>(a: Set<T::V>, b: Set<T::V>, c: Set<T::V>)
    requires
        covers::<T>(a, b),
        covers::<T>(b, c),
    ensures
        covers::<T>(a, c),
{
    assert forall|z: T::V| #[trigger] c.contains(z) implies exists|x: T::V| a.contains(x) && T::leq(x, z) by {
        let y = choose|y: T::V| b.contains(y) && T::leq(y, z);
        let x = choose|x: T::V| a.contains(x) && T::leq(x, y);
        T::lemma_le_transitive(x, y, z);
    }
}

/// Inserting a sequence of elements into an antichain gives an antichain of
/// elements of the old one and the inserted ones, which lies below all of them.
pub proof fn lemma_insert_all<T: PartialOrder>(s: Seq<T::V>, items: Seq<T::V>)
    requires
        is_antichain::<T>(s),
    ensures
        is_antichain::<T>(insert_all::<T>(s, items)),
        insert_all::<T>(s, items).to_set().subset_of(s.to_set() + items.to_set()),
        covers::<T>(insert_all::<T>(s, items).to_set(), s.to_set() + items.to_set()),
    decreases items.len(),
{
    if items.len() == 0 {
        assert(items.to_set() =~= Set::empty());
        assert(s.to_set() + items.to_set() =~= s.to_set());
        assert forall|y: T::V| #[trigger] s.to_set().contains(y) implies exists|x: T::V|
            s.to_set().contains(x) && T::leq(x, y) by {
            T::lemma_le_reflexive(y);
        }
    } else {
        let rest = items.drop_last();
        let t = items.last();
        lemma_insert_all::<T>(s, rest);
        let prev = insert_all::<T>(s, rest);
        lemma_insert::<T>(prev, t);
        assert(items =~= rest.push(t));
        assert(items.to_set() =~= rest.to_set().insert(t));
        let r = insert_all::<T>(s, items);
        assert(r == insert_spec::<T>(prev, t));
        // everything of s + rest is above something of prev, hence of r
        assert(covers::<T>(prev.to_set().insert(t), s.to_set() + rest.to_set())) by {
            assert forall|y: T::V| #[trigger] (s.to_set() + rest.to_set()).contains(y) implies exists|x: T::V|
                prev.to_set().insert(t).contains(x) && T::leq(x, y) by {
                let x = choose|x: T::V| prev.to_set().contains(x) && T::leq(x, y);
                assert(prev.to_set().insert(t).contains(x));
            }
        }
        lemma_covers_transitive::<T>(r.to_set(), prev.to_set().insert(t), s.to_set() + rest.to_set());
        assert forall|y: T::V| #[trigger] (s.to_set() + items.to_set()).contains(y) implies exists|x: T::V|
            r.to_set().contains(x) && T::leq(x, y) by {
            if y == t {
                assert(prev.to_set().insert(t).contains(t));
            } else {
                assert((s.to_set() + rest.to_set()).contains(y));
            }
        }
    }
}

/// An antichain inside `s` that lies below all of `s` is the set of minimal
/// elements of `s`, when the order is antisymmetric.
pub proof fn lemma_minimal_unique<T: PartialOrder>(r: Seq<T::V>, s: Set<T::V>)
    requires
        antisymmetric::<T>(),
        is_antichain::<T>(r),
        r.to_set().subset_of(s),
        covers::<T>(r.to_set(), s),
    ensures
        r.to_set() == minimal::<T>(s),
{
    assert forall|x: T::V| r.to_set().contains(x) <==> #[trigger] minimal::<T>(s).contains(x) by {
        if r.to_set().contains(x) {
            assert forall|y: T::V| s.contains(y) && #[trigger] T::leq(y, x) implies T::leq(x, y) by {
                let z = choose|z: T::V| r.to_set().contains(z) && T::leq(z, y);
                T::lemma_le_transitive(z, y, x);
                assert(r.contains(z) && r.contains(x));
            }
        }
        if minimal::<T>(s).contains(x) {
            let z = choose|z: T::V| r.to_set().contains(z) && T::leq(z, x);
            assert(T::leq(x, z));
        }
    }
    assert(r.to_set() =~= minimal::<T>(s));
}

/// Replacing a set by a subset that lies below all of it does not change the
/// minimal elements of its union with any other set.
pub proof fn lemma_minimal_replace<T: PartialOrder>(x: Set<T::V>, r: Set<T::V>, s: Set<T::V>)
    requires
        antisymmetric::<T>(),
        r.subset_of(s),
        covers::<T>(r, s),
    ensures
        minimal::<T>(x + r) == minimal::<T>(x + s),
{
    assert forall|a: T::V| #[trigger] minimal::<T>(x + r).contains(a) <==> minimal::<T>(x + s).contains(a) by {
        if minimal::<T>(x + r).contains(a) {
            assert forall|y: T::V| (x + s).contains(y) && #[trigger] T::leq(y, a) implies T::leq(a, y) by {
                if !x.contains(y) {
                    let z = choose|z: T::V| r.contains(z) && T::leq(z, y);
                    T::lemma_le_transitive(z, y, a);
                    assert((x + r).contains(z));
                    T::lemma_le_transitive(a, z, y);
                } else {
                    assert((x + r).contains(y));
                }
            }
        }
        if minimal::<T>(x + s).contains(a) {
            if !x.contains(a) {
                let z = choose|z: T::V| r.contains(z) && T::leq(z, a);
                assert((x + s).contains(z));
                assert(T::leq(a, z));
            }
            assert forall|y: T::V| (x + r).contains(y) && #[trigger] T::leq(y, a) implies T::leq(a, y) by {
                assert((x + s).contains(y));
            }
        }
    }
    assert(minimal::<T>(x + r) =~= minimal::<T>(x + s));
}

/// Inserting into the empty antichain: the result is the set of minimal
/// inserted elements.
pub proof fn lemma_insert_all_minimal<T: PartialOrder>(items: Seq<T::V>)
    requires
        antisymmetric::<T>(),
    ensures
        is_antichain::<T>(insert_all::<T>(Seq::empty(), items)),
        insert_all::<T>(Seq::empty(), items).to_set().subset_of(items.to_set()),
        covers::<T>(insert_all::<T>(Seq::empty(), items).to_set(), items.to_set()),
        insert_all::<T>(Seq::empty(), items).to_set() == minimal::<T>(items.to_set()),
{
    let e = Seq::<T::V>::empty();
    assert(e.to_set() =~= Set::empty());
    assert(e.to_set() + items.to_set() =~= items.to_set());
    lemma_insert_all::<T>(e, items);
    lemma_minimal_unique::<T>(insert_all::<T>(e, items), items.to_set());
}

/// Inserting the elements of an antichain into an empty antichain, in order,
/// gives the same antichain back: rebuilding an antichain from its elements
/// changes nothing.
pub proof fn lemma_reinsert_antichain<T: PartialOrder>(s: Seq<T::V>)
    requires
        is_antichain::<T>(s),
    ensures
        insert_all::<T>(Seq::empty(), s) == s,
    decreases s.len(),
{
    if s.len() > 0 {
        let rest = s.drop_last();
        let t = s.last();
        let n = s.len() - 1;
        assert forall|x: T::V| rest.contains(x) implies #[trigger] s.contains(x) by {
            let i = choose|i: int| 0 <= i < rest.len() && rest[i] == x;
            assert(s[i] == x);
        }
        assert(rest.no_duplicates()) by {
            assert forall|i: int, j: int| 0 <= i < rest.len() && 0 <= j < rest.len() && i != j implies rest[i] != rest[j] by {
                assert(rest[i] == s[i] && rest[j] == s[j]);
            }
        }
        lemma_reinsert_antichain::<T>(rest);
        assert(s.contains(t)) by {
            assert(s[n] == t);
        }
        assert(!dominated::<T>(rest, t)) by {
            if dominated::<T>(rest, t) {
                let i = choose|i: int| 0 <= i < rest.len() && #[trigger] T::leq(rest[i], t);
                assert(s.contains(rest[i]));
                assert(rest[i] == t);
                assert(s[i] == s[n]);
            }
        }
        let p = |e: T::V| !T::leq(t, e);
        assert forall|i: int| 0 <= i < rest.len() implies p(#[trigger] rest[i]) by {
            if T::leq(t, rest[i]) {
                assert(s.contains(rest[i]));
                assert(rest[i] == t);
                assert(s[i] == s[n]);
            }
        }
        lemma_filter_all(rest, p);
        assert(rest.push(t) =~= s);
    }
}

/// Inserting `a` then `b` is inserting `a + b`.
pub proof fn lemma_insert_all_concat<T: PartialOrder>(s: Seq<T::V>, a: Seq<T::V>, b: Seq<T::V>)
    ensures
        insert_all::<T>(insert_all::<T>(s, a), b) == insert_all::<T>(s, a + b),
    decreases b.len(),
{
    if b.len() == 0 {
        assert(a + b =~= a);
    } else {
        lemma_insert_all_concat::<T>(s, a, b.drop_last());
        assert((a + b).drop_last() =~= a + b.drop_last());
        assert((a + b).last() == b.last());
    }
}


/// The joins of `x` with each element of `b`, in order.
pub open spec fn joins_with<T: Lattice>(x: T::V, b: Seq<T::V>) -> Seq<T::V> {
    b.map_values(|y: T::V| T::join_spec(x, y))
}

/// The joins of every element of `a` with every element of `b`: those of
/// `a[0]` first, then those of `a[1]`, and so on.
pub open spec fn pairwise_joins<T: Lattice>(a: Seq<T::V>, b: Seq<T::V>) -> Seq<T::V>
    decreases a.len(),
{
    if a.len() == 0 {
        Seq::empty()
    } else {
        pairwise_joins::<T>(a.drop_last(), b) + joins_with::<T>(a.last(), b)
    }
}

/// The set of joins `join(x, y)` with `x` in `a` and `y` in `b`.
pub open spec fn join_set<T: Lattice>(a: Set<T::V>, b: Set<T::V>) -> Set<T::V> {
    Set::new(|z: T::V| exists|x: T::V, y: T::V| a.contains(x) && b.contains(y) && z == #[trigger] T::join_spec(x, y))
}

/// The pairwise joins of two sequences hold exactly the joins of their elements.
pub proof fn lemma_pairwise_joins_set<T: Lattice>(a: Seq<T::V>, b: Seq<T::V>)
    ensures
        pairwise_joins::<T>(a, b).to_set() == join_set::<T>(a.to_set(), b.to_set()),
    decreases a.len(),
{
    if a.len() == 0 {
        assert(pairwise_joins::<T>(a, b).to_set() =~= join_set::<T>(a.to_set(), b.to_set()));
    } else {
        let rest = a.drop_last();
        lemma_pairwise_joins_set::<T>(rest, b);
        let pj = pairwise_joins::<T>(a, b);
        let jw = joins_with::<T>(a.last(), b);
        assert(pj == pairwise_joins::<T>(rest, b) + jw);
        assert forall|z: T::V| pj.to_set().contains(z) <==> #[trigger] join_set::<T>(a.to_set(), b.to_set()).contains(z) by {
            if pj.to_set().contains(z) {
                let k = choose|k: int| 0 <= k < pj.len() && pj[k] == z;
                if k < pairwise_joins::<T>(rest, b).len() {
                    assert(pairwise_joins::<T>(rest, b).to_set().contains(z));
                    let (x, y) = choose|x: T::V, y: T::V| rest.to_set().contains(x) && b.to_set().contains(y) && z == T::join_spec(x, y);
                    let i = choose|i: int| 0 <= i < rest.len() && rest[i] == x;
                    assert(a[i] == x);
                    assert(a.to_set().contains(x));
                } else {
                    let j = k - pairwise_joins::<T>(rest, b).len();
                    assert(jw[j] == z);
                    assert(a[a.len() - 1] == a.last());
                    assert(a.to_set().contains(a.last()));
                    assert(b.to_set().contains(b[j]));
                }
            }
            if join_set::<T>(a.to_set(), b.to_set()).contains(z) {
                let (x, y) = choose|x: T::V, y: T::V| a.to_set().contains(x) && b.to_set().contains(y) && z == T::join_spec(x, y);
                let i = choose|i: int| 0 <= i < a.len() && a[i] == x;
                let j = choose|j: int| 0 <= j < b.len() && b[j] == y;
                if i < a.len() - 1 {
                    assert(rest[i] == x);
                    assert(rest.to_set().contains(x));
                    assert(join_set::<T>(rest.to_set(), b.to_set()).contains(z));
                    let k = choose|k: int| 0 <= k < pairwise_joins::<T>(rest, b).len() && pairwise_joins::<T>(rest, b)[k] == z;
                    assert(pj[k] == z);
                } else {
                    let off = pairwise_joins::<T>(rest, b).len();
                    assert(pj[off + j] == jw[j]);
                }
            }
        }
        assert(pj.to_set() =~= join_set::<T>(a.to_set(), b.to_set()));
    }
}

/// The elements of the meet of two frontiers: the elements of `a`, then those
/// of `b`, inserted into an empty antichain.
pub open spec fn meet_view<T: PartialOrder>(a: Seq<T::V>, b: Seq<T::V>) -> Seq<T::V> {
    insert_all::<T>(insert_all::<T>(Seq::empty(), a), b)
}

/// The elements of the join of two frontiers: the pairwise joins inserted into
/// an empty antichain.
pub open spec fn join_view<T: Lattice>(a: Seq<T::V>, b: Seq<T::V>) -> Seq<T::V> {
    insert_all::<T>(Seq::empty(), pairwise_joins::<T>(a, b))
}

/// The elements of the join of two frontiers. The empty frontier is the
/// identity: joined with it, a frontier stays as it is. Otherwise the join
/// holds the pairwise joins of the elements, inserted into an empty antichain.
pub open spec fn frontier_join<T: Lattice>(a: Seq<T::V>, b: Seq<T::V>) -> Seq<T::V> {
    if a.len() == 0 {
        b
    } else if b.len() == 0 {
        a
    } else {
        join_view::<T>(a, b)
    }
}

/// The meet holds the minimal elements of the union of the two frontiers.
pub proof fn lemma_meet_view_minimal<T: PartialOrder>(a: Seq<T::V>, b: Seq<T::V>)
    requires
        antisymmetric::<T>(),
    ensures
        is_antichain::<T>(meet_view::<T>(a, b)),
        meet_view::<T>(a, b).to_set().subset_of(a.to_set() + b.to_set()),
        covers::<T>(meet_view::<T>(a, b).to_set(), a.to_set() + b.to_set()),
        meet_view::<T>(a, b).to_set() == minimal::<T>(a.to_set() + b.to_set()),
{
    lemma_insert_all_concat::<T>(Seq::empty(), a, b);
    seq_to_set_distributes_over_add(a, b);
    lemma_insert_all_minimal::<T>(a + b);
}

/// The join holds the minimal elements of the set of pairwise joins.
pub proof fn lemma_join_view_minimal<T: Lattice>(a: Seq<T::V>, b: Seq<T::V>)
    requires
        antisymmetric::<T>(),
    ensures
        is_antichain::<T>(join_view::<T>(a, b)),
        join_view::<T>(a, b).to_set().subset_of(join_set::<T>(a.to_set(), b.to_set())),
        covers::<T>(join_view::<T>(a, b).to_set(), join_set::<T>(a.to_set(), b.to_set())),
        join_view::<T>(a, b).to_set() == minimal::<T>(join_set::<T>(a.to_set(), b.to_set())),
{
    lemma_pairwise_joins_set::<T>(a, b);
    lemma_insert_all_minimal::<T>(pairwise_joins::<T>(a, b));
}

} // verus!

//! Antichains and frontiers.
use vstd::prelude::*;

use crate::lattice::Lattice;
use crate::minimal::{
    insert_all, insert_spec, is_antichain, join_set, joins_with, lemma_insert, lemma_insert_all_concat,
    lemma_insert_all_minimal, lemma_join_view_minimal, lemma_meet_view_minimal, meet_view, join_view,
    frontier_join,
    minimal, pairwise_joins, dominated,
};
use crate::order::{antisymmetric, PartialOrder};
use crate::storage::Inline;
use vstd::std_specs::cmp::PartialEqSpecImpl;

verus! {

broadcast use vstd::seq_lib::group_seq_properties;

/// A set of mutually incomparable elements.
///
/// Invariant: no element is `<=` another, and no element occurs twice.
///
/// Width-0 and width-1 antichains are stored inline without heap allocation.
/// For totally-ordered timestamps (e.g. `Frontier<u64>`) the antichain always
/// stays at width 1.
#[derive(Debug)]
pub struct Antichain<T: PartialOrder> {
    elements: Inline<T>,
}

impl<T: PartialOrder> View for Antichain<T> {
    type V = Seq<T::V>;

    /// The abstract values of the elements, in storage order.
    closed spec fn view(&self) -> Seq<T::V> {
        self.elements.seq().map_values(|t: T| t@)
    }
}

impl<T: PartialOrder> Antichain<T> {
    #[verifier::type_invariant]
    spec fn inv(self) -> bool {
        &&& self.elements.wf()
        &&& T::obeys_order() ==> is_antichain::<T>(self@)
    }

    /// Creates an empty antichain.
    pub fn empty() -> (r: Self)
        ensures
            r@ == Seq::<T::V>::empty(),
    {
        let r = Antichain { elements: Inline::new() };
        assert(r@ =~= Seq::<T::V>::empty());
        r
    }

    /// Creates an antichain containing a single element.
    pub fn from_elem(t: T) -> (r: Self)
        ensures
            r@ == seq![t@],
    {
        let elements = Inline::one(t);
        assert(elements.seq().map_values(|t: T| t@) =~= seq![t@]);
        Antichain { elements }
    }

    /// Inserts `t`, maintaining the antichain invariant.
    ///
    /// - Skips `t` if any existing element `e` satisfies `e <= t` (t is dominated).
    /// - Drops any existing `e` where `t <= e` (e is dominated by t).
    pub fn insert(&mut self, t: T)
        requires
            T::obeys_order(),
        ensures
            final(self)@ == insert_spec::<T>(old(self)@, t@),
            is_antichain::<T>(final(self)@),
    {
        proof {
            use_type_invariant(&*self);
        }
        let ghost old_view = self@;
        let s = self.elements.as_slice();
        let n = s.len();
        for i in 0..n
            invariant
                n == s@.len(),
                s@ == self.elements.seq(),
                old_view == self@,
                self@ == self.elements.seq().map_values(|t: T| t@),
                T::obeys_order(),
                forall|j: int| 0 <= j < i ==> !T::leq(#[trigger] old_view[j], t@),
        {
            if s[i].less_equal(&t) {
                assert(T::leq(old_view[i as int], t@));
                assert(dominated::<T>(old_view, t@));
                proof {
                    use_type_invariant(&*self);
                }
                return;
            }
        }
        assert(!dominated::<T>(old_view, t@)) by {
            if dominated::<T>(old_view, t@) {
                let k = choose|k: int| 0 <= k < old_view.len() && T::leq(old_view[k], t@);
                assert(!T::leq(old_view[k], t@));
            }
        }
        let mut els = Inline::new();
        core::mem::swap(&mut els, &mut self.elements);
        assert(self@ =~= Seq::<T::V>::empty());
        let ghost before = els.seq();
        els.retain_not_above(&t);
        let ghost tv = t@;
        els.push(t);
        proof {
            let p = |e: T| !T::leq(tv, e@);
            let sp = |e: T::V| !T::leq(tv, e);
            assert forall|e: T| p(e) <==> sp(e@) by {}
            vstd::seq_lib::lemma_filter_view_commute(before, p, sp);
            assert(els.seq().map_values(|t: T| t@) =~= before.filter(p).map_values(|t: T| t@).push(tv));
            lemma_insert::<T>(old_view, tv);
        }
        self.elements = els;
        proof {
            use_type_invariant(&*self);
        }
    }

    /// Returns the elements of the antichain as a slice.
    pub fn elements(&self) -> (r: &[T])
        ensures
            r@.map_values(|t: T| t@) == self@,
            T::obeys_order() ==> is_antichain::<T>(self@),
    {
        proof {
            use_type_invariant(self);
        }
        self.elements.as_slice()
    }

    /// Returns the number of elements.
    pub fn len(&self) -> (r: usize)
        ensures
            r == self@.len(),
    {
        self.elements.len()
    }

    /// Returns `true` if the antichain has no elements.
    pub fn is_empty(&self) -> (r: bool)
        ensures
            r == (self@.len() == 0),
    {
        proof {
            use_type_invariant(self);
        }
        self.elements.is_empty()
    }

    /// Returns `true` if `time` is less than or equal to some element of this
    /// antichain. In the context of a [`Frontier`], this means `time` is still
    /// in flight.
    pub fn less_equal(&self, time: &T) -> (r: bool)
        requires
            T::obeys_order(),
        ensures
            r == exists|i: int| 0 <= i < self@.len() && #[trigger] T::leq(time@, self@[i]),
    {
        let s = self.elements.as_slice();
        let n = s.len();
        for i in 0..n
            invariant
                n == s@.len(),
                self@ == s@.map_values(|t: T| t@),
                T::obeys_order(),
                forall|j: int| 0 <= j < i ==> !T::leq(time@, #[trigger] self@[j]),
        {
            if time.less_equal(&s[i]) {
                assert(T::leq(time@, self@[i as int]));
                return true;
            }
        }
        false
    }

    /// Two antichains are equal when they hold the same set of elements.
    fn same_elements(&self, other: &Self) -> (r: bool)
        ensures
            T::obeys_order() ==> r == (self@.to_set() == other@.to_set()),
    {
        proof {
            use_type_invariant(self);
            use_type_invariant(other);
        }
        let a = self.elements.as_slice();
        let b = other.elements.as_slice();
        if a.len() != b.len() {
            proof {
                if T::obeys_order() {
                    self@.unique_seq_to_set();
                    other@.unique_seq_to_set();
                }
            }
            return false;
        }
        let n = a.len();
        for i in 0..n
            invariant
                n == a@.len(),
                n == b@.len(),
                self@ == a@.map_values(|t: T| t@),
                other@ == b@.map_values(|t: T| t@),
                T::obeys_order() ==> forall|j: int| 0 <= j < i ==> other@.contains(#[trigger] self@[j]),
        {
            let mut found = false;
            for k in 0..n
                invariant
                    n == a@.len(),
                    n == b@.len(),
                    i < n,
                    self@ == a@.map_values(|t: T| t@),
                    other@ == b@.map_values(|t: T| t@),
                    T::obeys_order() ==> (found ==> other@.contains(self@[i as int])),
                    T::obeys_order() ==> (!found ==> forall|j: int| 0 <= j < k ==> #[trigger] other@[j] != self@[i as int]),
            {
                if !found && a[i].equals(&b[k]) {
                    assert(T::obeys_order() ==> other@[k as int] == self@[i as int]);
                    found = true;
                }
            }
            if !found {
                assert(T::obeys_order() ==> !other@.to_set().contains(self@[i as int]));
                assert(self@.to_set().contains(self@[i as int]));
                return false;
            }
        }
        proof {
            if T::obeys_order() {
                assert(self@.to_set().subset_of(other@.to_set()));
                self@.unique_seq_to_set();
                other@.unique_seq_to_set();
                vstd::set_lib::lemma_subset_equality(self@.to_set(), other@.to_set());
            }
        }
        true
    }
}

impl<T: PartialOrder> Clone for Antichain<T> {
    /// Returns an antichain holding copies of the same elements.
    fn clone(&self) -> (r: Self)
        ensures
            T::obeys_order() ==> r@ == self@,
    {
        proof {
            use_type_invariant(self);
        }
        let elements = self.elements.duplicate_all();
        assert(T::obeys_order() ==> elements.seq().map_values(|t: T| t@) =~= self@);
        Antichain { elements }
    }
}

impl<T: PartialOrder> PartialEq for Antichain<T> {
    /// Two antichains are equal when they contain the same set of elements,
    /// regardless of insertion order.
    fn eq(&self, other: &Self) -> (r: bool) {
        self.same_elements(other)
    }
}

impl<T: PartialOrder> PartialEqSpecImpl for Antichain<T> {
    open spec fn obeys_eq_spec() -> bool {
        T::obeys_order()
    }

    open spec fn eq_spec(&self, other: &Self) -> bool {
        self@.to_set() == other@.to_set()
    }
}

impl<T: PartialOrder> Eq for Antichain<T> {}

/// The elements of `v`, last first.
fn reversed<T>(v: Vec<T>) -> (r: Vec<T>)
    ensures
        r@ == v@.reverse(),
{
    let ghost orig = v@;
    let mut v = v;
    let mut rev: Vec<T> = Vec::new();
    while v.len() > 0
        invariant
            orig =~= v@ + rev@.reverse(),
        decreases v.len(),
    {
        let ghost before = v@;
        let t = v.pop().unwrap();
        proof {
            assert(before =~= v@.push(t));
            assert(rev@.push(t).reverse() =~= seq![t] + rev@.reverse());
            assert(v@ + rev@.push(t).reverse() =~= v@.push(t) + rev@.reverse());
        }
        rev.push(t);
    }
    assert(v@ + rev@.reverse() =~= rev@.reverse());
    assert(rev@.reverse().reverse() =~= rev@);
    rev
}

/// A progress claim: all timestamps strictly less than some element are
/// complete.
///
/// A `Frontier` is a pure value type: no networking, no I/O, no async.
#[derive(Debug)]
pub struct Frontier<T: PartialOrder> {
    antichain: Antichain<T>,
}

impl<T: PartialOrder> View for Frontier<T> {
    type V = Seq<T::V>;

    /// The abstract values of the frontier's elements, in storage order.
    closed spec fn view(&self) -> Seq<T::V> {
        self.antichain@
    }
}

impl<T: PartialOrder> Clone for Frontier<T> {
    /// Returns a frontier holding copies of the same elements.
    fn clone(&self) -> (r: Self)
        ensures
            T::obeys_order() ==> r@ == self@,
    {
        Frontier { antichain: self.antichain.clone() }
    }
}

impl<T: PartialOrder> Frontier<T> {
    /// The identity element for [`meet`](Self::meet): an unconstrained
    /// frontier with no elements, where no timestamp is reported in flight.
    pub fn bottom() -> (r: Self)
        ensures
            r@ == Seq::<T::V>::empty(),
            is_antichain::<T>(r@),
    {
        Frontier { antichain: Antichain::empty() }
    }

    /// Creates a frontier from a single element.
    pub fn from_elem(t: T) -> (r: Self)
        ensures
            r@ == seq![t@],
            is_antichain::<T>(r@),
    {
        let antichain = Antichain::from_elem(t);
        proof {
            use_type_invariant(&antichain);
        }
        Frontier { antichain }
    }

    /// Creates a frontier from the given elements, inserted first to last.
    pub fn from_elements(items: Vec<T>) -> (r: Self)
        requires
            T::obeys_order(),
        ensures
            r@ == insert_all::<T>(Seq::empty(), items@.map_values(|t: T| t@)),
            is_antichain::<T>(r@),
            antisymmetric::<T>() ==> r@.to_set() == minimal::<T>(items@.map_values(|t: T| t@).to_set()),
    {
        let ghost iv = items@.map_values(|t: T| t@);
        let mut antichain = Antichain::empty();
        let ghost orig = items@;
        let mut rev = reversed(items);
        let n = rev.len();
        let mut i: usize = 0;
        while i < n
            invariant
                n == orig.len(),
                i <= n,
                rev@.len() == n - i,
                forall|j: int| 0 <= j < n - i ==> rev@[j] == orig[n - 1 - j],
                iv == orig.map_values(|t: T| t@),
                T::obeys_order(),
                antichain@ == insert_all::<T>(Seq::empty(), iv.take(i as int)),
            decreases n - i,
        {
            let t = rev.pop().unwrap();
            assert(t == orig[i as int]);
            proof {
                assert(iv.take(i + 1).drop_last() =~= iv.take(i as int));
                assert(iv.take(i + 1).last() == t@);
            }
            antichain.insert(t);
            i = i + 1;
        }
        assert(iv.take(n as int) =~= iv);
        proof {
            if antisymmetric::<T>() {
                lemma_insert_all_minimal::<T>(iv);
            }
        }
        proof {
            use_type_invariant(&antichain);
        }
        Frontier { antichain }
    }

    /// Returns `true` if `time` is less than or equal to some element of this
    /// frontier, meaning `time` is still in flight.
    pub fn less_equal(&self, time: &T) -> (r: bool)
        requires
            T::obeys_order(),
        ensures
            r == exists|i: int| 0 <= i < self@.len() && #[trigger] T::leq(time@, self@[i]),
    {
        let r = self.antichain.less_equal(time);
        assert(self@ == self.antichain@);
        r
    }

    /// Returns the underlying antichain elements.
    pub fn elements(&self) -> (r: &[T])
        ensures
            r@.map_values(|t: T| t@) == self@,
            T::obeys_order() ==> is_antichain::<T>(self@),
    {
        self.antichain.elements()
    }

    /// Inserts every element of `src` into `antichain`, first to last.
    fn insert_each(antichain: &mut Antichain<T>, src: &[T])
        requires
            T::obeys_order(),
        ensures
            final(antichain)@ == insert_all::<T>(old(antichain)@, src@.map_values(|t: T| t@)),
    {
        let ghost start = antichain@;
        let ghost sv = src@.map_values(|t: T| t@);
        let n = src.len();
        for i in 0..n
            invariant
                n == src@.len(),
                sv == src@.map_values(|t: T| t@),
                T::obeys_order(),
                antichain@ == insert_all::<T>(start, sv.take(i as int)),
        {
            proof {
                assert(sv.take(i + 1).drop_last() =~= sv.take(i as int));
                assert(sv.take(i + 1).last() == src@[i as int]@);
            }
            antichain.insert(src[i].duplicate());
        }
        assert(sv.take(n as int) =~= sv);
    }

    /// Coordinator-free merge: the most conservative frontier dominated by
    /// both. This is the lattice meet (greatest lower bound): the result holds
    /// the minimal elements of the two frontiers together.
    pub fn meet(&self, other: &Self) -> (r: Self)
        requires
            T::obeys_order(),
        ensures
            r@ == meet_view::<T>(self@, other@),
            is_antichain::<T>(r@),
            antisymmetric::<T>() ==> r@.to_set() == minimal::<T>(self@.to_set() + other@.to_set()),
    {
        let mut antichain = Antichain::empty();
        Self::insert_each(&mut antichain, self.antichain.elements());
        Self::insert_each(&mut antichain, other.antichain.elements());
        proof {
            if antisymmetric::<T>() {
                lemma_meet_view_minimal::<T>(self@, other@);
            }
        }
        proof {
            use_type_invariant(&antichain);
        }
        Frontier { antichain }
    }

    /// Two frontiers are equal when they hold the same set of elements.
    fn same_elements(&self, other: &Self) -> (r: bool)
        ensures
            T::obeys_order() ==> r == (self@.to_set() == other@.to_set()),
    {
        self.antichain.same_elements(&other.antichain)
    }
}

impl<T: PartialOrder> PartialEq for Frontier<T> {
    /// Two frontiers are equal when they contain the same set of elements.
    fn eq(&self, other: &Self) -> (r: bool) {
        self.same_elements(other)
    }
}

impl<T: PartialOrder> PartialEqSpecImpl for Frontier<T> {
    open spec fn obeys_eq_spec() -> bool {
        T::obeys_order()
    }

    open spec fn eq_spec(&self, other: &Self) -> bool {
        self@.to_set() == other@.to_set()
    }
}

impl<T: PartialOrder> Eq for Frontier<T> {}

impl<T: Lattice> Frontier<T> {
    /// Lattice join (least upper bound): the most advanced frontier dominated
    /// by both, holding the minimal pairwise joins of their elements. The
    /// empty frontier ([`bottom`](Self::bottom)) is the identity: joining
    /// with it gives the other frontier back.
    pub fn join(&self, other: &Self) -> (r: Self)
        requires
            T::obeys_order(),
        ensures
            r@ == frontier_join::<T>(self@, other@),
            is_antichain::<T>(r@),
            antisymmetric::<T>() && self@.len() > 0 && other@.len() > 0 ==> r@.to_set() == minimal::<T>(
                join_set::<T>(self@.to_set(), other@.to_set()),
            ),
    {
        proof {
            use_type_invariant(&self.antichain);
            use_type_invariant(&other.antichain);
        }
        if self.antichain.is_empty() {
            return other.clone();
        }
        if other.antichain.is_empty() {
            return self.clone();
        }
        let a = self.antichain.elements();
        let b = other.antichain.elements();
        let ghost av = self@;
        let ghost bv = other@;
        let mut antichain = Antichain::empty();
        let n = a.len();
        let m = b.len();
        for i in 0..n
            invariant
                n == a@.len(),
                m == b@.len(),
                av == a@.map_values(|t: T| t@),
                bv == b@.map_values(|t: T| t@),
                T::obeys_order(),
                antichain@ == insert_all::<T>(Seq::empty(), pairwise_joins::<T>(av.take(i as int), bv)),
        {
            let ghost base = antichain@;
            let ghost jw = joins_with::<T>(av[i as int], bv);
            for j in 0..m
                invariant
                    n == a@.len(),
                    m == b@.len(),
                    i < n,
                    av == a@.map_values(|t: T| t@),
                    bv == b@.map_values(|t: T| t@),
                    jw == joins_with::<T>(av[i as int], bv),
                    T::obeys_order(),
                    antichain@ == insert_all::<T>(base, jw.take(j as int)),
            {
                let x = a[i].join(&b[j]);
                proof {
                    assert(jw.take(j + 1).drop_last() =~= jw.take(j as int));
                    assert(jw.take(j + 1).last() == x@);
                }
                antichain.insert(x);
            }
            proof {
                assert(jw.take(m as int) =~= jw);
                lemma_insert_all_concat::<T>(Seq::empty(), pairwise_joins::<T>(av.take(i as int), bv), jw);
                assert(av.take(i + 1).drop_last() =~= av.take(i as int));
                assert(av.take(i + 1).last() == av[i as int]);
            }
        }
        assert(av.take(n as int) =~= av);
        proof {
            if antisymmetric::<T>() {
                lemma_join_view_minimal::<T>(av, bv);
            }
        }
        proof {
            use_type_invariant(&antichain);
        }
        Frontier { antichain }
    }
}

} // verus!

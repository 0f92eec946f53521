//! Inline storage for an antichain's elements.
use vstd::prelude::*;

use crate::order::PartialOrder;

verus! {

/// Returns a one-element slice holding `t`.
///
/// Trusted: `core::slice::from_ref` returns a slice of length one whose only
/// element is `*t`, as its documentation says.
#[verifier::external_body]
fn slice_of_one<T>(t: &T) -> (r: &[T])
    ensures
        r@ == seq![*t],
{
    core::slice::from_ref(t)
}

/// Storage for an antichain's elements.
///
/// Width 0 and width 1 (any totally-ordered timestamp collapses to width 1)
/// are held inline without a heap allocation; only wider antichains spill to a
/// `Vec`. Removing elements renormalizes back to `One` or `Zero`.
#[derive(Debug)]
pub(crate) enum Inline<T> {
    Zero,
    One(T),
    Many(Vec<T>),
}

impl<T> Inline<T> {
    /// The stored elements, in order.
    pub(crate) open spec fn seq(&self) -> Seq<T> {
        match self {
            Inline::Zero => Seq::empty(),
            Inline::One(t) => seq![*t],
            Inline::Many(v) => v@,
        }
    }

    /// A `Vec` is used only for two or more elements.
    pub(crate) open spec fn wf(&self) -> bool {
        match self {
            Inline::Many(v) => v@.len() >= 2,
            _ => true,
        }
    }

    pub(crate) fn new() -> (r: Self)
        ensures
            r.wf(),
            r.seq() == Seq::<T>::empty(),
    {
        Inline::Zero
    }

    pub(crate) fn one(t: T) -> (r: Self)
        ensures
            r.wf(),
            r.seq() == seq![t],
    {
        Inline::One(t)
    }

    pub(crate) fn as_slice(&self) -> (r: &[T])
        ensures
            r@ == self.seq(),
    {
        match self {
            Inline::Zero => {
                let e: &[T] = &[];
                assert(e@ =~= Seq::<T>::empty());
                e
            },
            Inline::One(t) => slice_of_one(t),
            Inline::Many(v) => v.as_slice(),
        }
    }

    pub(crate) fn len(&self) -> (r: usize)
        ensures
            r == self.seq().len(),
    {
        match self {
            Inline::Zero => 0,
            Inline::One(_) => 1,
            Inline::Many(v) => v.len(),
        }
    }

    pub(crate) fn is_empty(&self) -> (r: bool)
        requires
            self.wf(),
        ensures
            r == (self.seq().len() == 0),
    {
        match self {
            Inline::Zero => true,
            _ => false,
        }
    }

    pub(crate) fn push(&mut self, t: T)
        requires
            old(self).wf(),
        ensures
            final(self).wf(),
            final(self).seq() == old(self).seq().push(t),
    {
        let mut cur = Inline::Zero;
        core::mem::swap(&mut cur, self);
        match cur {
            Inline::Zero => {
                *self = Inline::One(t);
                assert(self.seq() =~= Seq::<T>::empty().push(t));
            },
            Inline::One(first) => {
                let mut v: Vec<T> = Vec::new();
                v.push(first);
                v.push(t);
                assert(v@ =~= seq![first].push(t));
                *self = Inline::Many(v);
            },
            Inline::Many(mut v) => {
                v.push(t);
                *self = Inline::Many(v);
            },
        }
    }
}

impl<T: PartialOrder> Inline<T> {
    /// Copies of the stored elements, in the same storage shape.
    pub(crate) fn duplicate_all(&self) -> (r: Self)
        requires
            self.wf(),
        ensures
            r.wf(),
            r.seq().len() == self.seq().len(),
            T::obeys_order() ==> forall|i: int| 0 <= i < r.seq().len() ==> #[trigger] r.seq()[i]@ == self.seq()[i]@,
    {
        match self {
            Inline::Zero => Inline::Zero,
            Inline::One(t) => Inline::One(t.duplicate()),
            Inline::Many(v) => {
                let mut w: Vec<T> = Vec::new();
                for i in 0..v.len()
                    invariant
                        w@.len() == i,
                        T::obeys_order() ==> forall|j: int| 0 <= j < i ==> #[trigger] w@[j]@ == v@[j]@,
                {
                    w.push(v[i].duplicate());
                }
                Inline::Many(w)
            },
        }
    }

    /// Drops every stored element `e` with `t <= e`, keeping the order of the
    /// others.
    pub(crate) fn retain_not_above(&mut self, t: &T)
        requires
            old(self).wf(),
            T::obeys_order(),
        ensures
            final(self).wf(),
            final(self).seq() == old(self).seq().filter(|e: T| !T::leq(t@, e@)),
    {
        let ghost p = |e: T| !T::leq(t@, e@);
        let mut cur = Inline::Zero;
        core::mem::swap(&mut cur, self);
        match cur {
            Inline::Zero => {
                reveal_with_fuel(Seq::filter, 1);
            },
            Inline::One(x) => {
                proof {
                    reveal_with_fuel(Seq::filter, 2);
                    assert(seq![x].drop_last() =~= Seq::<T>::empty());
                }
                if !t.less_equal(&x) {
                    *self = Inline::One(x);
                }
            },
            Inline::Many(mut v) => {
                let ghost orig = v@;
                let mut kept: Vec<T> = Vec::new();
                let n = v.len();
                let mut i: usize = 0;
                while i < n
                    invariant
                        n == orig.len(),
                        i <= n,
                        v@ == orig.skip(i as int),
                        kept@ == orig.take(i as int).filter(p),
                        p == (|e: T| !T::leq(t@, e@)),
                        T::obeys_order(),
                    decreases n - i,
                {
                    let e = v.remove(0);
                    proof {
                        assert(e == orig[i as int]);
                        assert(orig.take(i + 1).drop_last() =~= orig.take(i as int));
                        assert(orig.take(i + 1).last() == orig[i as int]);
                        reveal_with_fuel(Seq::filter, 1);
                        assert(orig.skip(i as int).remove(0) =~= orig.skip(i + 1));
                    }
                    if !t.less_equal(&e) {
                        kept.push(e);
                    }
                    i = i + 1;
                }
                assert(orig.take(n as int) =~= orig);
                let k = kept.len();
                if k == 0 {
                } else if k == 1 {
                    let last = kept.pop().unwrap();
                    assert(kept@.len() == 0);
                    *self = Inline::One(last);
                    assert(self.seq() =~= orig.filter(p));
                } else {
                    *self = Inline::Many(kept);
                }
            },
        }
    }
}

} // verus!

//! Frontiers of `u64` timestamps read from raw bytes, and the check of the
//! antichain invariant on them: what a harness feeding the library arbitrary
//! input relies on.
use vstd::prelude::*;

use crate::antichain::Frontier;
use crate::minimal::{insert_all, is_antichain, minimal};
use crate::order::{antisymmetric, PartialOrder};

verus! {

/// The unsigned integer whose little-endian bytes are `b`.
pub open spec fn le_value(b: Seq<u8>) -> nat
    decreases b.len(),
{
    if b.len() == 0 {
        0
    } else {
        b[0] as nat + 256 * le_value(b.drop_first())
    }
}

/// `256` to the power `n`.
pub open spec fn pow256(n: nat) -> nat
    decreases n,
{
    if n == 0 {
        1
    } else {
        256 * pow256((n - 1) as nat)
    }
}

/// `n` little-endian bytes hold a value below `256^n`.
proof fn lemma_le_value_bound(b: Seq<u8>)
    ensures
        le_value(b) < pow256(b.len()),
    decreases b.len(),
{
    if b.len() > 0 {
        lemma_le_value_bound(b.drop_first());
    }
}

/// `256^a <= 256^b` when `a <= b`.
proof fn lemma_pow256_monotonic(a: nat, b: nat)
    requires
        a <= b,
    ensures
        pow256(a) <= pow256(b),
    decreases b,
{
    if a < b {
        lemma_pow256_monotonic(a, (b - 1) as nat);
    }
}

/// The views of `s` are `v` when they agree position by position.
proof fn lemma_views<T: PartialOrder>(s: Seq<T>, v: Seq<T::V>)
    requires
        s.len() == v.len(),
        forall|k: int| 0 <= k < s.len() ==> s[k]@ == #[trigger] v[k],
    ensures
        s.map_values(|t: T| t@) == v,
{
    assert(s.map_values(|t: T| t@) =~= v);
}

/// Two positions of an antichain hold values that are not below each other.
proof fn lemma_antichain_incomparable<T: PartialOrder>(s: Seq<T::V>, i: int, j: int)
    requires
        is_antichain::<T>(s),
        0 <= i < s.len(),
        0 <= j < s.len(),
        i != j,
    ensures
        !T::leq(s[i], s[j]),
{
    assert(s.contains(s[i]) && s.contains(s[j]));
    if T::leq(s[i], s[j]) {
        assert(s[i] == s[j]);
    }
}

/// The `u64` words of `data`: each whole 8-byte chunk, read little-endian, in
/// order; a trailing partial chunk is ignored.
pub open spec fn words(data: Seq<u8>) -> Seq<u64> {
    Seq::new(data.len() / 8, |i: int| le_value(data.subrange(8 * i, 8 * i + 8)) as u64)
}

/// Reads the little-endian `u64` held by `data[start..start + 8]`.
fn read_word(data: &[u8], start: usize) -> (r: u64)
    requires
        start + 8 <= data@.len(),
    ensures
        r == le_value(data@.subrange(start as int, start + 8)),
{
    let ghost s = data@.subrange(start as int, start + 8);
    let len = data.len();
    assert(pow256(7) == 0x100000000000000) by {
        reveal_with_fuel(pow256, 8);
    }
    let mut acc: u64 = 0;
    let mut k: usize = 8;
    assert(s.subrange(8, 8) =~= Seq::<u8>::empty());
    while k > 0
        invariant
            k <= 8,
            start + 8 <= data@.len(),
            len == data@.len(),
            s == data@.subrange(start as int, start + 8),
            pow256(7) == 0x100000000000000,
            acc == le_value(s.subrange(k as int, 8)),
        decreases k,
    {
        k = k - 1;
        let ghost rest = s.subrange(k + 1, 8);
        proof {
            assert(s.subrange(k as int, 8).drop_first() =~= rest);
            assert(s.subrange(k as int, 8)[0] == data@[start + k]);
            lemma_le_value_bound(rest);
            lemma_pow256_monotonic(rest.len(), 7);
        }
        acc = data[start + k] as u64 + 256 * acc;
    }
    assert(s.subrange(0, 8) =~= s);
    acc
}

/// Decodes the `u64` words of `data`.
pub fn words_of(data: &[u8]) -> (r: Vec<u64>)
    ensures
        r@ == words(data@),
{
    let len = data.len();
    let n = len / 8;
    let mut r: Vec<u64> = Vec::new();
    for i in 0..n
        invariant
            len == data@.len(),
            n == data@.len() / 8,
            r@.len() == i,
            forall|j: int| 0 <= j < i ==> r@[j] == #[trigger] words(data@)[j],
    {
        assert(8 * i + 8 <= data@.len()) by (nonlinear_arith)
            requires
                i < n,
                n == data@.len() / 8,
        ;
        let w = read_word(data, 8 * i);
        r.push(w);
    }
    assert(r@ =~= words(data@));
    r
}

/// Builds a frontier from raw bytes: each whole 8-byte chunk is one `u64`
/// element (little-endian), inserted in order; a trailing partial chunk is
/// ignored.
pub fn frontier_from_bytes(data: &[u8]) -> (r: Frontier<u64>)
    ensures
        r@ == insert_all::<u64>(Seq::empty(), words(data@)),
        is_antichain::<u64>(r@),
        r@.to_set() == minimal::<u64>(words(data@).to_set()),
{
    let items = words_of(data);
    let ghost iv = items@;
    assert(antisymmetric::<u64>());
    let r = Frontier::from_elements(items);
    proof {
        lemma_views::<u64>(iv, words(data@));
    }
    r
}

/// No element of `s` is `<=` an element of `s` at another position.
pub open spec fn pairwise_incomparable(s: Seq<u64>) -> bool {
    forall|i: int, j: int|
        0 <= i < s.len() && 0 <= j < s.len() && i != j ==> !(#[trigger] s[i] <= #[trigger] s[j])
}

/// Returns `true` iff no element of `els` is `<=` an element at another
/// position.
pub fn elements_incomparable(els: &[u64]) -> (r: bool)
    ensures
        r == pairwise_incomparable(els@),
{
    let n = els.len();
    let mut i: usize = 0;
    while i < n
        invariant
            n == els@.len(),
            i <= n,
            forall|a: int, b: int|
                0 <= a < i && 0 <= b < n && a != b ==> !(#[trigger] els@[a] <= #[trigger] els@[b]),
        decreases n - i,
    {
        let mut j: usize = 0;
        while j < n
            invariant
                n == els@.len(),
                i < n,
                j <= n,
                forall|a: int, b: int|
                    0 <= a < i && 0 <= b < n && a != b ==> !(#[trigger] els@[a] <= #[trigger] els@[b]),
                forall|b: int| 0 <= b < j && i != b ==> !(els@[i as int] <= #[trigger] els@[b]),
            decreases n - j,
        {
            if i != j && els[i] <= els[j] {
                assert(!pairwise_incomparable(els@)) by {
                    assert(els@[i as int] <= els@[j as int]);
                }
                return false;
            }
            j = j + 1;
        }
        i = i + 1;
    }
    true
}

/// Checks the antichain invariant on the elements of `f`: returns `true` iff
/// no element is `<=` another one. Every frontier passes the check.
pub fn invariant_holds(f: &Frontier<u64>) -> (r: bool)
    ensures
        r == pairwise_incomparable(f@),
        r,
{
    let els = f.elements();
    assert(els@.map_values(|t: u64| t@) =~= els@);
    assert(els@ == f@);
    proof {
        assert forall|i: int, j: int|
            0 <= i < f@.len() && 0 <= j < f@.len() && i != j implies !(#[trigger] f@[i] <= #[trigger] f@[j]) by {
            lemma_antichain_incomparable::<u64>(f@, i, j);
        }
    }
    elements_incomparable(els)
}

} // verus!

use antichain::bytes::{elements_incomparable, frontier_from_bytes, invariant_holds, words_of};
use antichain::{
    Antichain, Bounded, Frontier, Lattice, MapLattice, ProductTimestamp, SetLattice, WithBottom,
    WithTop,
};

fn pt(a: u64, b: u64) -> ProductTimestamp<u64, u64> {
    ProductTimestamp::new(a, b)
}

fn pair_frontier(items: &[(u64, u64)]) -> Frontier<ProductTimestamp<u64, u64>> {
    Frontier::from_elements(items.iter().map(|&(a, b)| pt(a, b)).collect())
}

// ── Frontier laws on concrete values ─────────────────────────────────────

#[test]
fn meet_is_associative_on_incomparable_points() {
    let a = pair_frontier(&[(1, 5), (4, 2)]);
    let b = pair_frontier(&[(2, 3)]);
    let c = pair_frontier(&[(0, 9), (6, 1)]);
    let left = a.meet(&b.meet(&c));
    let right = a.meet(&b).meet(&c);
    assert_eq!(left, right);
    assert_eq!(left.elements().len(), 5);
}

#[test]
fn join_is_associative_on_incomparable_points() {
    let a = pair_frontier(&[(1, 5), (4, 2)]);
    let b = pair_frontier(&[(2, 3), (0, 7)]);
    let c = pair_frontier(&[(3, 0), (0, 4)]);
    let left = a.join(&b.join(&c));
    let right = a.join(&b).join(&c);
    assert_eq!(left, right);
}

#[test]
fn join_of_product_frontiers_holds_minimal_pairwise_joins() {
    let a = pair_frontier(&[(1, 5), (4, 2)]);
    let b = pair_frontier(&[(2, 3)]);
    // pairwise joins: (2, 5) and (4, 3); incomparable, both kept
    let j = a.join(&b);
    assert_eq!(j, pair_frontier(&[(2, 5), (4, 3)]));
}

#[test]
fn join_with_bottom_is_identity() {
    let a = Frontier::from_elements(vec![3u64]);
    assert_eq!(a.join(&Frontier::bottom()), a);
    assert_eq!(Frontier::bottom().join(&a), a);
    let p = pair_frontier(&[(1, 5), (4, 2)]);
    assert_eq!(Frontier::bottom().join(&p), p);
    assert_eq!(p.join(&Frontier::bottom()), p);
    let e: Frontier<u64> = Frontier::bottom();
    assert_eq!(e.join(&Frontier::bottom()), Frontier::bottom());
}

#[test]
fn accumulating_joins_from_bottom_advances() {
    let mut acc: Frontier<u64> = Frontier::bottom();
    for v in [4u64, 9, 2] {
        acc = acc.join(&Frontier::from_elem(v));
    }
    assert_eq!(acc.elements(), &[9]);
}

#[test]
fn meet_absorbs_join_and_join_absorbs_meet() {
    let a = pair_frontier(&[(1, 5), (4, 2)]);
    let b = pair_frontier(&[(2, 3), (0, 7)]);
    assert_eq!(a.meet(&a.join(&b)), a);
    assert_eq!(a.join(&a.meet(&b)), a);
}

#[test]
fn merge_is_stable_once_inputs_are_absorbed() {
    let a = pair_frontier(&[(1, 5), (4, 2)]);
    let b = pair_frontier(&[(2, 3), (0, 7)]);
    let m = a.meet(&b);
    assert_eq!(m.meet(&a), m);
    assert_eq!(m.meet(&b), m);
}

#[test]
fn nodes_hearing_updates_in_different_orders_converge() {
    let u1 = pair_frontier(&[(3, 3)]);
    let u2 = pair_frontier(&[(1, 6), (5, 1)]);
    let u3 = pair_frontier(&[(2, 2)]);
    let node_a = Frontier::bottom().meet(&u1).meet(&u2).meet(&u3);
    let node_b = Frontier::bottom().meet(&u3).meet(&u3).meet(&u1).meet(&u2).meet(&u1);
    assert_eq!(node_a, node_b);
    assert_eq!(node_a, pair_frontier(&[(1, 6), (5, 1), (2, 2)]));
}

#[test]
fn totally_ordered_frontier_is_a_single_watermark() {
    let f = Frontier::from_elements(vec![9u64, 4, 7, 4, 12, 5]);
    assert_eq!(f.elements(), &[4]);
    let g = f.meet(&Frontier::from_elements(vec![6u64, 2]));
    assert_eq!(g.elements(), &[2]);
}

#[test]
fn antichain_insert_keeps_minimal_elements_in_order() {
    let mut a = Antichain::empty();
    a.insert(pt(5, 5));
    a.insert(pt(1, 9));
    a.insert(pt(9, 1));
    a.insert(pt(4, 4)); // removes (5, 5)
    let els: Vec<(u64, u64)> = a.elements().iter().map(|p| (p.outer, p.inner)).collect();
    assert_eq!(els, vec![(1, 9), (9, 1), (4, 4)]);
    assert_eq!(a.len(), 3);
}

#[test]
fn frontier_less_equal_reports_in_flight_timestamps() {
    let f = pair_frontier(&[(2, 5), (6, 1)]);
    assert!(f.less_equal(&pt(1, 4)));
    assert!(f.less_equal(&pt(6, 1)));
    assert!(!f.less_equal(&pt(3, 3)));
    assert!(!Frontier::<u64>::bottom().less_equal(&0));
}

// ── Sentinels ─────────────────────────────────────────────────────────────

#[test]
fn top_is_meet_identity_and_join_absorbing() {
    let v = WithTop::Value(7u64);
    assert_eq!(WithTop::Top.meet(&v), v);
    assert_eq!(v.meet(&WithTop::Top), v);
    assert_eq!(WithTop::Top.join(&v), WithTop::Top);
    assert_eq!(v.join(&WithTop::Top), WithTop::Top);
}

#[test]
fn bottom_is_join_identity_and_meet_absorbing() {
    let v = WithBottom::Value(7u64);
    assert_eq!(WithBottom::Bottom.join(&v), v);
    assert_eq!(v.join(&WithBottom::Bottom), v);
    assert_eq!(WithBottom::Bottom.meet(&v), WithBottom::Bottom);
    assert_eq!(v.meet(&WithBottom::Bottom), WithBottom::Bottom);
}

// ── Consistency of order and operations ─────────────────────────────────

#[test]
fn product_order_agrees_with_meet_and_join() {
    let a = pt(1, 2);
    let b = pt(3, 4);
    assert!(a <= b);
    assert_eq!(a.meet(&b), a);
    assert_eq!(a.join(&b), b);
    let c = pt(0, 9);
    assert!(!(a <= c) && !(c <= a));
    assert_eq!(a.meet(&c), pt(0, 2));
    assert_eq!(a.join(&c), pt(1, 9));
}

#[test]
fn set_lattice_order_agrees_with_meet_and_join() {
    let mut a = SetLattice::new();
    a.insert(1u64);
    let mut b = SetLattice::new();
    b.insert(1u64);
    b.insert(2u64);
    assert!(a <= b);
    assert_eq!(a.meet(&b), a);
    assert_eq!(a.join(&b), b);
}

// ── Bounded ──────────────────────────────────────────────────────────────

#[test]
fn bounded_clamps_to_both_ends() {
    assert_eq!(*Bounded::new(5u64, 10, 20).value(), 10);
    assert_eq!(*Bounded::new(25u64, 10, 20).value(), 20);
    assert_eq!(*Bounded::new(10u64, 10, 20).value(), 10);
    assert_eq!(*Bounded::new(20u64, 10, 20).value(), 20);
    let b = Bounded::new(15u64, 10, 20);
    assert_eq!((b.value, b.min, b.max), (15, 10, 20));
}

#[test]
fn bounded_with_a_single_point_range() {
    let b = Bounded::new(99u64, 7, 7);
    assert_eq!(*b.value(), 7);
}

// ── Maps and sets ────────────────────────────────────────────────────────

#[test]
fn map_lattice_insert_returns_previous_value() {
    let mut m: MapLattice<u32, u64> = MapLattice::new();
    assert_eq!(m.insert(3, 30), None);
    assert_eq!(m.insert(3, 31), Some(30));
    assert_eq!(m.get(&3), Some(&31));
    assert_eq!(m.get(&4), None);
    assert_eq!(m.len(), 1);
    assert!(!m.is_empty());
}

#[test]
fn map_lattice_keys_and_values_come_in_key_order() {
    let mut m: MapLattice<u32, u64> = MapLattice::new();
    m.insert(5, 50);
    m.insert(1, 10);
    m.insert(3, 30);
    assert_eq!(m.keys().copied().collect::<Vec<_>>(), vec![1, 3, 5]);
    assert_eq!(m.values().copied().collect::<Vec<_>>(), vec![10, 30, 50]);
}

#[test]
fn set_lattice_insert_reports_novelty_and_iterates_in_order() {
    let mut s = SetLattice::new();
    assert!(s.insert(4u64));
    assert!(s.insert(2u64));
    assert!(!s.insert(4u64));
    assert_eq!(s.len(), 2);
    assert_eq!(s.iter().copied().collect::<Vec<_>>(), vec![2, 4]);
}

// ── Frontiers from raw bytes ─────────────────────────────────────────────

#[test]
fn words_are_read_little_endian() {
    let data = [1u8, 2, 3, 4, 5, 6, 7, 8, 0xff, 0, 0, 0, 0, 0, 0, 0, 9];
    assert_eq!(words_of(&data), vec![0x0807060504030201u64, 0xff]);
    assert_eq!(words_of(&[0xffu8; 8]), vec![u64::MAX]);
    assert_eq!(words_of(&[1u8, 2, 3]), Vec::<u64>::new());
}

#[test]
fn frontier_from_bytes_keeps_the_minimum() {
    let mut data = Vec::new();
    for v in [40u64, 7, 300, 9] {
        data.extend_from_slice(&v.to_le_bytes());
    }
    data.push(1); // trailing partial chunk is ignored
    let f = frontier_from_bytes(&data);
    assert_eq!(f.elements(), &[7]);
    assert!(invariant_holds(&f));
    assert!(frontier_from_bytes(&[]).elements().is_empty());
}

#[test]
fn invariant_holds_on_merged_frontiers() {
    let a = frontier_from_bytes(&5u64.to_le_bytes());
    let b = frontier_from_bytes(&3u64.to_le_bytes());
    let m = a.meet(&b);
    assert!(invariant_holds(&m));
    assert_eq!(m.elements(), &[3]);
    assert_eq!(a.join(&b).elements(), &[5]);
}

#[test]
fn elements_incomparable_rejects_ordered_pairs() {
    assert!(elements_incomparable(&[]));
    assert!(elements_incomparable(&[5]));
    assert!(!elements_incomparable(&[3, 5]));
    assert!(!elements_incomparable(&[5, 3]));
    assert!(!elements_incomparable(&[4, 4]));
}

#[test]
fn reinserting_an_antichain_keeps_its_elements_in_order() {
    let mut a = Antichain::empty();
    for (x, y) in [(5u64, 1u64), (1, 5), (3, 3), (0, 9)] {
        a.insert(pt(x, y));
    }
    let mut b = Antichain::empty();
    for e in a.elements() {
        b.insert(e.clone());
    }
    assert_eq!(a.elements(), b.elements());
}

#[test]
fn string_keyed_maps_and_sets_form_lattices() {
    let mut a: MapLattice<String, u64> = MapLattice::new();
    a.insert("x".to_string(), 3);
    a.insert("y".to_string(), 7);
    let mut b: MapLattice<String, u64> = MapLattice::new();
    b.insert("y".to_string(), 4);
    b.insert("z".to_string(), 1);
    let m = a.meet(&b);
    assert_eq!(m.len(), 1);
    assert_eq!(m.get(&"y".to_string()), Some(&4));
    let j = a.join(&b);
    assert_eq!(j.keys().cloned().collect::<Vec<_>>(), vec!["x", "y", "z"]);
    assert_eq!(j.get(&"y".to_string()), Some(&7));
    assert!(m <= a && m <= b && a <= j && b <= j);

    let mut s = SetLattice::new();
    s.insert("p".to_string());
    let mut t = SetLattice::new();
    t.insert("q".to_string());
    assert_eq!(s.join(&t).len(), 2);
    assert!(s.meet(&t).is_empty());
}

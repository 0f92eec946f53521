# antichain

Coordinator-free progress tracking with lattice algebra, verified with Verus.

A `Frontier<T>` is an antichain of timestamps: no element is `<=` another.
`meet` merges two frontiers into the most conservative one below both;
`join` advances to the minimal pairwise joins, with the empty frontier as
its identity. Because `meet` is
commutative, associative and idempotent, nodes that exchange progress in any
order, with duplicates, converge to the same frontier.

## Layout

- `src/order.rs`, `src/lattice.rs`: the `PartialOrder` and `Lattice` traits,
  stated over abstract values (views).
- `src/primitives.rs`, `src/product.rs`, `src/wrappers.rs`, `src/lifted.rs`,
  `src/map_lattice.rs`, `src/set_lattice.rs`: the timestamp types (integers,
  pairs, `ProductTimestamp`, `Lexicographic`, `Max`, `Min`, `Bounded`,
  `WithTop`, `WithBottom`, `MapLattice`, `SetLattice`); `src/std_cmp.rs`
  gives them the standard comparison operators.
- `src/antichain.rs`, `src/storage.rs`: `Antichain` and `Frontier`, with the
  antichain invariant as a type invariant.
- `src/minimal.rs`: the mathematics of insertion: an antichain built by
  inserting a set's elements is the set of its minimal elements.
- `src/laws.rs`, `src/lattice_laws.rs`: the algebraic laws, proved.
- `src/bytes.rs`: frontiers of `u64` read from raw bytes, and the invariant
  check used by the fuzz targets.
- `app/`: serde representations of the public types and the fuzz target
  bodies (unverified).

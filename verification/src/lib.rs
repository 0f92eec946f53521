//! A coordinator-free primitive for tracking distributed progress using
//! lattice algebra.
pub mod antichain;
pub mod bytes;
pub mod comparison_laws;
mod btree_iter;
pub mod lattice;
pub mod lattice_laws;
pub mod laws;
pub mod lifted;
pub mod map_lattice;
pub mod minimal;
pub mod order;
pub mod primitives;
pub mod product;
pub mod set_lattice;
pub mod std_cmp;
pub mod type_laws;
mod storage;
pub mod wrappers;

pub use antichain::{Antichain, Frontier};
pub use lattice::Lattice;
pub use lifted::{WithBottom, WithTop};
pub use order::PartialOrder;
pub use product::{Lexicographic, ProductTimestamp};
pub use wrappers::{Bounded, Max, Min};
pub use map_lattice::MapLattice;
pub use set_lattice::SetLattice;

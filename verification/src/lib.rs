//! A latency-oriented bump allocation engine built on fixed-size chunks.
//!
//! The engine hands out sub-regions of fixed-size backing blocks
//! ("chunks") in non-amortized constant time.  Chunks form a singly
//! linked, newest-first chain; regions are carved downward from the
//! tail of the current chunk, and a fresh chunk is acquired when the
//! current one is exhausted.  Individual regions are never reclaimed:
//! the whole chain is released at once when the engine is torn down.

pub mod bump;
pub mod chunk;
pub mod dynamic;
pub mod generic;
pub mod inner;
pub mod layout;
pub mod rc;
pub mod storable;

pub use bump::Bump;
pub use dynamic::DynamicBump;
pub use generic::{GenericBump, IntoLayout, ValueRef};
pub use inner::{BumpInner, Region};
pub use layout::Layout;
pub use rc::{Rc, RcBump};
pub use storable::Storable;

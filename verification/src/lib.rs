//! One-dimensional intervals over an ordered line of `i64` endpoint keys,
//! with open, closed and unbounded endpoints.
//!
//! Every interval is held in one of three canonical shapes — `Empty`,
//! `Everything`, or a well-formed `Bounded` pair of directed endpoints — so
//! structural equality alone decides set identity. The construction,
//! comparison and union operations are specified against a ghost point-set
//! model and verified to implement it exactly.

pub mod bound;
pub mod interval;
pub mod laws;
pub mod left;
pub mod right;

pub use bound::Bound;
pub use bound::Bound::Closed;
pub use bound::Bound::Open;
pub use bound::Bound::Unbound;
pub use interval::Interval;
pub use left::Left;
pub use right::Right;

use vstd::prelude::*;

verus! {

/// A raw interval boundary: a value on the line together with an
/// inclusivity marker, or no boundary at all.
///
/// Endpoint values are `i64` keys on an ordered line; `Closed(k)` includes
/// the point at `k`, `Open(k)` excludes it, and `Unbound` extends without
/// limit. A bare `Bound` has no directional meaning: the same marker orders
/// differently depending on which side of an interval it terminates, which
/// is what [`crate::left::Left`] and [`crate::right::Right`] add.
#[derive(Clone, Copy, Debug, PartialEq, Eq, Structural)]
pub enum Bound {
    Closed(i64),
    Open(i64),
    Unbound,
}

/// The ghost point model: a position `p` stands for the point `p / 2` on
/// the line, so even positions are the endpoint keys themselves and odd
/// positions lie strictly between two adjacent keys. Two intervals whose
/// endpoints sit on keys share a point of the line if and only if they
/// share such a position, so the grid is an exact model for emptiness,
/// overlap, adherence and union.
///
/// `lower_admits(b, p)` says that position `p` lies on the inner side of
/// `b` read as a lower bound.
pub open spec fn lower_admits(b: Bound, p: int) -> bool {
    match b {
        Bound::Closed(k) => p >= 2 * (k as int),
        Bound::Open(k) => p > 2 * (k as int),
        Bound::Unbound => true,
    }
}

/// Position `p` lies on the inner side of `b` read as an upper bound.
pub open spec fn upper_admits(b: Bound, p: int) -> bool {
    match b {
        Bound::Closed(k) => p <= 2 * (k as int),
        Bound::Open(k) => p < 2 * (k as int),
        Bound::Unbound => true,
    }
}

} // verus!

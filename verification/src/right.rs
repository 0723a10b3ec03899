use vstd::prelude::*;

use crate::bound::Bound;
use crate::bound::lower_admits;
use crate::bound::upper_admits;
use crate::left::Left;

verus! {

/// An upper ("right") bound of an interval.
///
/// The mirror of [`Left`]: on the upper side `Open(k)` stops slightly
/// short of `Closed(k)`, because it excludes the point at `k`, and
/// `Unbound` reaches further right than everything.
#[derive(Clone, Copy, Debug, PartialEq, Eq, Structural)]
pub struct Right(pub Bound);

/// Strict same-side ordering of two upper bounds: `a` stops strictly
/// short of `b`.
pub open spec fn lt_spec(a: Right, b: Right) -> bool {
    match (a.0, b.0) {
        (Bound::Closed(k1), Bound::Closed(k2)) => k1 < k2,
        (Bound::Open(k1), Bound::Open(k2)) => k1 < k2,
        (Bound::Open(k1), Bound::Closed(k2)) => k1 <= k2,
        (Bound::Closed(k1), Bound::Open(k2)) => k1 < k2,
        (Bound::Unbound, _) => false,
        (_, Bound::Unbound) => true,
    }
}

/// Cross-side strict ordering: the upper bound `u` ends strictly before
/// the lower bound `l` begins, so a range from `l` to `u` is inverted and
/// holds no point at all. At a shared key this happens unless both bounds
/// are closed.
pub open spec fn lt_lower_spec(u: Right, l: Left) -> bool {
    match (u.0, l.0) {
        (Bound::Open(k1), Bound::Open(k2)) => k1 <= k2,
        (Bound::Open(k1), Bound::Closed(k2)) => k1 <= k2,
        (Bound::Closed(k1), Bound::Open(k2)) => k1 <= k2,
        (Bound::Closed(k1), Bound::Closed(k2)) => k1 < k2,
        (Bound::Unbound, _) => false,
        (_, Bound::Unbound) => false,
    }
}

/// Closing an upper bound keeps its key and forces inclusivity.
pub open spec fn closure_spec(a: Right) -> Right {
    match a.0 {
        Bound::Closed(k) => Right(Bound::Closed(k)),
        Bound::Open(k) => Right(Bound::Closed(k)),
        Bound::Unbound => a,
    }
}

/// The side-aware minimum of two upper bounds.
pub open spec fn min_spec(a: Right, b: Right) -> Right {
    if lt_spec(a, b) {
        a
    } else {
        b
    }
}

/// The side-aware maximum of two upper bounds.
pub open spec fn max_spec(a: Right, b: Right) -> Right {
    if lt_spec(b, a) {
        a
    } else {
        b
    }
}

impl Right {
    /// Stops strictly short of `other`, as an upper bound.
    pub fn lt(&self, other: &Right) -> (r: bool)
        ensures
            r == lt_spec(*self, *other),
    {
        match (self.0, other.0) {
            (Bound::Closed(k1), Bound::Closed(k2)) => k1 < k2,
            (Bound::Open(k1), Bound::Open(k2)) => k1 < k2,
            (Bound::Open(k1), Bound::Closed(k2)) => k1 <= k2,
            (Bound::Closed(k1), Bound::Open(k2)) => k1 < k2,
            (Bound::Unbound, _) => false,
            (_, Bound::Unbound) => true,
        }
    }

    /// Reaches strictly further right than `other`, as an upper bound.
    pub fn gt(&self, other: &Right) -> (r: bool)
        ensures
            r == lt_spec(*other, *self),
    {
        match (self.0, other.0) {
            (Bound::Closed(k1), Bound::Closed(k2)) => k1 > k2,
            (Bound::Open(k1), Bound::Open(k2)) => k1 > k2,
            (Bound::Open(k1), Bound::Closed(k2)) => k1 > k2,
            (Bound::Closed(k1), Bound::Open(k2)) => k1 >= k2,
            (_, Bound::Unbound) => false,
            (Bound::Unbound, _) => true,
        }
    }

    /// The three-way same-side comparison of two upper bounds. It always
    /// decides, and answers `Equal` exactly on equal bounds.
    pub fn partial_cmp(&self, other: &Right) -> (r: Option<core::cmp::Ordering>)
        ensures
            r == Some(core::cmp::Ordering::Greater) <==> lt_spec(*other, *self),
            r == Some(core::cmp::Ordering::Less) <==> lt_spec(*self, *other),
            r == Some(core::cmp::Ordering::Equal) <==> *self == *other,
            r is Some,
    {
        if self.gt(other) {
            Some(core::cmp::Ordering::Greater)
        } else if self.lt(other) {
            Some(core::cmp::Ordering::Less)
        } else {
            Some(core::cmp::Ordering::Equal)
        }
    }

    /// Ends strictly before the lower bound `other` begins, across sides:
    /// the test for an inverted (empty) range and for a gap between two
    /// intervals.
    pub fn lt_lower(&self, other: &Left) -> (r: bool)
        ensures
            r == lt_lower_spec(*self, *other),
    {
        match (self.0, other.0) {
            (Bound::Open(k1), Bound::Open(k2)) => k1 <= k2,
            (Bound::Open(k1), Bound::Closed(k2)) => k1 <= k2,
            (Bound::Closed(k1), Bound::Open(k2)) => k1 <= k2,
            (Bound::Closed(k1), Bound::Closed(k2)) => k1 < k2,
            (Bound::Unbound, _) => false,
            (_, Bound::Unbound) => false,
        }
    }

    /// The one of the two upper bounds that stops sooner. Its half-line of
    /// admitted positions is the intersection of the two operands'.
    pub fn min(self, other: Right) -> (r: Right)
        ensures
            r == min_spec(self, other),
            forall|p: int|
                #[trigger] upper_admits(r.0, p) <==> (upper_admits(self.0, p) && upper_admits(other.0, p)),
    {
        if self.lt(&other) {
            self
        } else {
            other
        }
    }

    /// The one of the two upper bounds that reaches further right. Its
    /// half-line of admitted positions is the union of the two operands'.
    pub fn max(self, other: Right) -> (r: Right)
        ensures
            r == max_spec(self, other),
            forall|p: int|
                #[trigger] upper_admits(r.0, p) <==> (upper_admits(self.0, p) || upper_admits(other.0, p)),
    {
        if self.gt(&other) {
            self
        } else {
            other
        }
    }

    /// The closure of the bound: the same key with inclusivity forced to
    /// closed; an unbounded side maps to itself.
    pub fn closure(self) -> (r: Right)
        ensures
            r == closure_spec(self),
    {
        match self {
            Right(Bound::Closed(k)) | Right(Bound::Open(k)) => Right(Bound::Closed(k)),
            _ => self,
        }
    }
}

/// The cross-side ordering is exact: the upper bound `u` ends strictly
/// before the lower bound `l` begins if and only if no position lies on
/// the inner side of both.
pub proof fn lemma_lt_lower_points(u: Right, l: Left)
    ensures
        lt_lower_spec(u, l) <==> !(exists|p: int|
            #[trigger] lower_admits(l.0, p) && upper_admits(u.0, p)),
{
    if !lt_lower_spec(u, l) {
        let w: int = match (l.0, u.0) {
            (Bound::Closed(k), _) => 2 * (k as int),
            (Bound::Open(k), _) => 2 * (k as int) + 1,
            (Bound::Unbound, Bound::Closed(k)) => 2 * (k as int),
            (Bound::Unbound, Bound::Open(k)) => 2 * (k as int) - 1,
            (Bound::Unbound, Bound::Unbound) => 0,
        };
        assert(lower_admits(l.0, w) && upper_admits(u.0, w));
    }
}

} // verus!

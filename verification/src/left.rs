use vstd::prelude::*;

use crate::bound::Bound;
use crate::bound::lower_admits;
use crate::right::Right;

verus! {

/// A lower ("left") bound of an interval.
///
/// The same `Bound` orders differently depending on the side it
/// terminates: on the lower side `Closed(k)` reaches slightly further left
/// than `Open(k)`, because it still includes the point at `k`, and
/// `Unbound` reaches further left than everything.
#[derive(Clone, Copy, Debug, PartialEq, Eq, Structural)]
pub struct Left(pub Bound);

/// Strict same-side ordering of two lower bounds: `a` reaches strictly
/// further left than `b`.
pub open spec fn lt_spec(a: Left, b: Left) -> bool {
    match (a.0, b.0) {
        (Bound::Closed(k1), Bound::Closed(k2)) => k1 < k2,
        (Bound::Open(k1), Bound::Open(k2)) => k1 < k2,
        (Bound::Open(k1), Bound::Closed(k2)) => k1 < k2,
        (Bound::Closed(k1), Bound::Open(k2)) => k1 <= k2,
        (_, Bound::Unbound) => false,
        (Bound::Unbound, _) => true,
    }
}

/// Cross-side strict ordering: the lower bound `l` begins strictly before
/// the upper bound `u` ends, so a range from `l` to `u` would hold more
/// than a single point.
pub open spec fn lt_upper_spec(l: Left, u: Right) -> bool {
    match (l.0, u.0) {
        (Bound::Open(k1), Bound::Open(k2)) => k1 < k2,
        (Bound::Open(k1), Bound::Closed(k2)) => k1 < k2,
        (Bound::Closed(k1), Bound::Open(k2)) => k1 < k2,
        (Bound::Closed(k1), Bound::Closed(k2)) => k1 < k2,
        (Bound::Unbound, _) => true,
        (_, Bound::Unbound) => true,
    }
}

/// The lower bound `l` and the upper bound `u` sit on the same key, and at
/// least one of them includes the point there. This is the adherence test
/// between neighbouring intervals: the two bounds leave no gap at the
/// shared key, so the ranges they terminate can be merged without adding
/// any point.
pub open spec fn touches_spec(l: Left, u: Right) -> bool {
    match (l.0, u.0) {
        (Bound::Closed(k1), Bound::Closed(k2)) => k1 == k2,
        (Bound::Closed(k1), Bound::Open(k2)) => k1 == k2,
        (Bound::Open(k1), Bound::Closed(k2)) => k1 == k2,
        _ => false,
    }
}

/// Cross-side equality: a lower and an upper bound stand for the same
/// boundary point only when both are closed on the same key; every other
/// combination on a shared key leaves the two bounds strictly ordered.
pub open spec fn eq_upper_spec(l: Left, u: Right) -> bool {
    match (l.0, u.0) {
        (Bound::Closed(k1), Bound::Closed(k2)) => k1 == k2,
        _ => false,
    }
}

/// Closing a lower bound keeps its key and forces inclusivity.
pub open spec fn closure_spec(a: Left) -> Left {
    match a.0 {
        Bound::Closed(k) => Left(Bound::Closed(k)),
        Bound::Open(k) => Left(Bound::Closed(k)),
        Bound::Unbound => a,
    }
}

/// The side-aware minimum of two lower bounds.
pub open spec fn min_spec(a: Left, b: Left) -> Left {
    if lt_spec(a, b) {
        a
    } else {
        b
    }
}

/// The side-aware maximum of two lower bounds.
pub open spec fn max_spec(a: Left, b: Left) -> Left {
    if lt_spec(b, a) {
        a
    } else {
        b
    }
}

impl Left {
    /// Strictly further left than `other`, as a lower bound.
    pub fn lt(&self, other: &Left) -> (r: bool)
        ensures
            r == lt_spec(*self, *other),
    {
        match (self.0, other.0) {
            (Bound::Closed(k1), Bound::Closed(k2)) => k1 < k2,
            (Bound::Open(k1), Bound::Open(k2)) => k1 < k2,
            (Bound::Open(k1), Bound::Closed(k2)) => k1 < k2,
            (Bound::Closed(k1), Bound::Open(k2)) => k1 <= k2,
            (_, Bound::Unbound) => false,
            (Bound::Unbound, _) => true,
        }
    }

    /// Strictly further right than `other`, as a lower bound.
    pub fn gt(&self, other: &Left) -> (r: bool)
        ensures
            r == lt_spec(*other, *self),
    {
        match (self.0, other.0) {
            (Bound::Closed(k1), Bound::Closed(k2)) => k1 > k2,
            (Bound::Open(k1), Bound::Open(k2)) => k1 > k2,
            (Bound::Open(k1), Bound::Closed(k2)) => k1 >= k2,
            (Bound::Closed(k1), Bound::Open(k2)) => k1 > k2,
            (Bound::Unbound, _) => false,
            (_, Bound::Unbound) => true,
        }
    }

    /// Strictly before the upper bound `other`, across sides.
    pub fn lt_upper(&self, other: &Right) -> (r: bool)
        ensures
            r == lt_upper_spec(*self, *other),
    {
        match (self.0, other.0) {
            (Bound::Open(k1), Bound::Open(k2)) => k1 < k2,
            (Bound::Open(k1), Bound::Closed(k2)) => k1 < k2,
            (Bound::Closed(k1), Bound::Open(k2)) => k1 < k2,
            (Bound::Closed(k1), Bound::Closed(k2)) => k1 < k2,
            (Bound::Unbound, _) => true,
            (_, Bound::Unbound) => true,
        }
    }

    /// The same boundary point as the upper bound `other`: both closed on
    /// one shared key.
    pub fn eq_upper(&self, other: &Right) -> (r: bool)
        ensures
            r == eq_upper_spec(*self, *other),
    {
        match (self.0, other.0) {
            (Bound::Closed(k1), Bound::Closed(k2)) => k1 == k2,
            _ => false,
        }
    }

    /// The three-way same-side comparison of two lower bounds. It always
    /// decides, and answers `Equal` exactly on equal bounds.
    pub fn partial_cmp(&self, other: &Left) -> (r: Option<core::cmp::Ordering>)
        ensures
            r == Some(core::cmp::Ordering::Greater) <==> lt_spec(*other, *self),
            r == Some(core::cmp::Ordering::Less) <==> lt_spec(*self, *other),
            r == Some(core::cmp::Ordering::Equal) <==> *self == *other,
            r is Some,
    {
        if self.gt(other) {
            Some(core::cmp::Ordering::Greater)
        } else if self.lt(other) {
            Some(core::cmp::Ordering::Less)
        } else {
            Some(core::cmp::Ordering::Equal)
        }
    }

    /// The three-way cross-side comparison against an upper bound. It
    /// always decides, and answers `Equal` exactly when the two bounds
    /// are the same closed boundary point.
    pub fn partial_cmp_upper(&self, other: &Right) -> (r: Option<core::cmp::Ordering>)
        ensures
            r == Some(core::cmp::Ordering::Greater) <==> crate::right::lt_lower_spec(
                *other,
                *self,
            ),
            r == Some(core::cmp::Ordering::Less) <==> lt_upper_spec(*self, *other),
            r == Some(core::cmp::Ordering::Equal) <==> eq_upper_spec(*self, *other),
            r is Some,
    {
        if other.lt_lower(self) {
            Some(core::cmp::Ordering::Greater)
        } else if self.lt_upper(other) {
            Some(core::cmp::Ordering::Less)
        } else {
            Some(core::cmp::Ordering::Equal)
        }
    }

    /// The adherence test against an upper bound: same key, no gap there.
    pub fn touches(&self, other: &Right) -> (r: bool)
        ensures
            r == touches_spec(*self, *other),
    {
        match (self.0, other.0) {
            (Bound::Closed(k1), Bound::Closed(k2)) => k1 == k2,
            (Bound::Closed(k1), Bound::Open(k2)) => k1 == k2,
            (Bound::Open(k1), Bound::Closed(k2)) => k1 == k2,
            _ => false,
        }
    }

    /// The one of the two lower bounds that reaches further left. Its
    /// half-line of admitted positions is the union of the two operands'.
    pub fn min(self, other: Left) -> (r: Left)
        ensures
            r == min_spec(self, other),
            forall|p: int|
                #[trigger] lower_admits(r.0, p) <==> (lower_admits(self.0, p) || lower_admits(other.0, p)),
    {
        if self.lt(&other) {
            self
        } else {
            other
        }
    }

    /// The one of the two lower bounds that reaches further right. Its
    /// half-line of admitted positions is the intersection of the two
    /// operands'.
    pub fn max(self, other: Left) -> (r: Left)
        ensures
            r == max_spec(self, other),
            forall|p: int|
                #[trigger] lower_admits(r.0, p) <==> (lower_admits(self.0, p) && lower_admits(other.0, p)),
    {
        if self.gt(&other) {
            self
        } else {
            other
        }
    }

    /// The closure of the bound: the same key with inclusivity forced to
    /// closed; an unbounded side maps to itself.
    pub fn closure(self) -> (r: Left)
        ensures
            r == closure_spec(self),
    {
        match self {
            Left(Bound::Closed(k)) | Left(Bound::Open(k)) => Left(Bound::Closed(k)),
            _ => self,
        }
    }
}

/// The same-side ordering agrees with inclusion of the admitted
/// half-lines: whichever of the two lower bounds reaches at least as far
/// left admits every position the other admits.
pub proof fn lemma_lt_inclusion(a: Left, b: Left)
    ensures
        lt_spec(a, b) ==> (forall|p: int| #[trigger] lower_admits(b.0, p) ==> lower_admits(a.0, p)),
        !lt_spec(a, b) ==> (forall|p: int| #[trigger] lower_admits(a.0, p) ==> lower_admits(b.0, p)),
{
}

} // verus!

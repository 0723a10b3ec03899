use vstd::prelude::*;

use crate::bound::Bound;
use crate::bound::lower_admits;
use crate::bound::upper_admits;
use crate::left::Left;
use crate::right::Right;
use crate::right::lemma_lt_lower_points;

verus! {

/// An interval over the line of `i64` keys, always held in canonical
/// form: the empty set and the whole line are singleton variants with no
/// residual data, and a `Bounded` pair always satisfies [`Interval::wf`],
/// so it never stands for the empty set or for the whole line. Structural
/// equality therefore decides set identity.
#[derive(Clone, Copy, Debug, PartialEq, Eq, Structural)]
pub enum Interval {
    Empty,
    Everything,
    Bounded(Left, Right),
}

impl Interval {
    /// The point-set reading of the interval: does position `p` of the
    /// ghost half-step grid (see [`crate::bound::lower_admits`]) lie in it?
    pub open spec fn contains(self, p: int) -> bool {
        match self {
            Interval::Empty => false,
            Interval::Everything => true,
            Interval::Bounded(l, u) => lower_admits(l.0, p) && upper_admits(u.0, p),
        }
    }

    /// Canonical well-formedness: a `Bounded` pair is neither inverted
    /// (which would make it empty) nor unbounded on both sides (which
    /// would make it the whole line). The constructors only ever produce
    /// well-formed intervals.
    pub open spec fn wf(self) -> bool {
        match self {
            Interval::Bounded(l, u) => !crate::right::lt_lower_spec(u, l) && !(l.0 is Unbound
                && u.0 is Unbound),
            _ => true,
        }
    }
}

/// The canonical constructor, as a spec-level function: an inverted pair
/// collapses to `Empty`, a doubly unbounded pair to `Everything`, and
/// anything else is kept as a `Bounded` pair.
pub open spec fn build_spec(b1: Bound, b2: Bound) -> Interval {
    if crate::right::lt_lower_spec(Right(b2), Left(b1)) {
        Interval::Empty
    } else if b1 is Unbound && b2 is Unbound {
        Interval::Everything
    } else {
        Interval::Bounded(Left(b1), Right(b2))
    }
}

/// Two intervals share at least one point: `Empty` overlaps nothing,
/// `Everything` overlaps everything non-empty, and two `Bounded` pairs
/// overlap when neither ends before the other begins.
pub open spec fn overlap_spec(a: Interval, b: Interval) -> bool {
    match (a, b) {
        (Interval::Empty, _) | (_, Interval::Empty) => false,
        (Interval::Everything, _) | (_, Interval::Everything) => true,
        (Interval::Bounded(a1, a2), Interval::Bounded(b1, b2)) => !crate::right::lt_lower_spec(
            b2,
            a1,
        ) && !crate::right::lt_lower_spec(a2, b1),
    }
}

/// Two `Bounded` intervals meet at a shared key that at least one of the
/// meeting bounds includes, so that merging them adds no point; checked in
/// both directions. `Empty` and `Everything` adhere to nothing.
pub open spec fn adhere_spec(a: Interval, b: Interval) -> bool {
    match (a, b) {
        (Interval::Bounded(a1, a2), Interval::Bounded(b1, b2)) => crate::left::touches_spec(
            a1,
            b2,
        ) || crate::left::touches_spec(b1, a2),
        _ => false,
    }
}

/// The union, as a spec-level function: an empty operand yields the other
/// operand alone, an unbounded operand yields `Everything` alone,
/// overlapping or adhering `Bounded` operands merge into the canonical
/// hull, and otherwise the two operands come back as a pair ordered left
/// to right on the line.
pub open spec fn union_spec(a: Interval, b: Interval) -> (Interval, Option<Interval>) {
    match (a, b) {
        (x, Interval::Empty) => (x, None),
        (Interval::Empty, x) => (x, None),
        (Interval::Everything, _) | (_, Interval::Everything) => (Interval::Everything, None),
        (Interval::Bounded(a1, a2), Interval::Bounded(b1, b2)) => {
            if overlap_spec(a, b) || adhere_spec(a, b) {
                (
                    build_spec(crate::left::min_spec(a1, b1).0, crate::right::max_spec(a2, b2).0),
                    None,
                )
            } else if crate::right::lt_lower_spec(a2, b1) {
                (a, Some(b))
            } else {
                (b, Some(a))
            }
        },
    }
}

/// A `Bounded` pair with both endpoints closed on the same key: the
/// interval holding exactly one point.
pub open spec fn is_singleton_spec(i: Interval) -> bool {
    match i {
        Interval::Bounded(l, u) => match (l.0, u.0) {
            (Bound::Closed(k1), Bound::Closed(k2)) => k1 == k2,
            _ => false,
        },
        _ => false,
    }
}

/// A well-formed interval other than `Empty` holds at least one position.
pub proof fn lemma_nonempty(i: Interval)
    requires
        i.wf(),
        !(i is Empty),
    ensures
        exists|p: int| #[trigger] i.contains(p),
{
    match i {
        Interval::Everything => {
            assert(i.contains(0));
        },
        Interval::Bounded(l, u) => {
            lemma_lt_lower_points(u, l);
            let q = choose|p: int| #[trigger] lower_admits(l.0, p) && upper_admits(u.0, p);
            assert(i.contains(q));
        },
        _ => {},
    }
}

/// Two non-inverted bounded ranges whose cross comparisons allow an
/// overlap really do share a position.
proof fn lemma_bounded_meet(a1: Left, a2: Right, b1: Left, b2: Right)
    requires
        !crate::right::lt_lower_spec(a2, a1),
        !crate::right::lt_lower_spec(b2, b1),
        !crate::right::lt_lower_spec(b2, a1),
        !crate::right::lt_lower_spec(a2, b1),
    ensures
        exists|p: int|
            #[trigger] lower_admits(a1.0, p) && upper_admits(a2.0, p) && lower_admits(b1.0, p)
                && upper_admits(b2.0, p),
{
    lemma_lt_lower_points(a2, a1);
    lemma_lt_lower_points(b2, b1);
    lemma_lt_lower_points(b2, a1);
    lemma_lt_lower_points(a2, b1);
    let pa = choose|p: int| #[trigger] lower_admits(a1.0, p) && upper_admits(a2.0, p);
    let pb = choose|p: int| #[trigger] lower_admits(b1.0, p) && upper_admits(b2.0, p);
    let p1 = choose|p: int| #[trigger] lower_admits(a1.0, p) && upper_admits(b2.0, p);
    let p2 = choose|p: int| #[trigger] lower_admits(b1.0, p) && upper_admits(a2.0, p);
    crate::left::lemma_lt_inclusion(a1, b1);
    if !crate::left::lt_spec(a1, b1) {
        // `a1` is the binding lower bound: a position admitted by `a1` is
        // admitted by `b1` as well.
        let p = if pa <= p1 {
            pa
        } else {
            p1
        };
        assert(lower_admits(a1.0, p) && upper_admits(a2.0, p) && lower_admits(b1.0, p)
            && upper_admits(b2.0, p));
    } else {
        let p = if pb <= p2 {
            pb
        } else {
            p2
        };
        assert(lower_admits(a1.0, p) && upper_admits(a2.0, p) && lower_admits(b1.0, p)
            && upper_admits(b2.0, p));
    }
}

/// The key step of the union's exactness: when two non-inverted ranges
/// overlap or adhere, a position admitted by `a`'s lower bound and by
/// `b`'s upper bound has no gap between the two ranges to fall into — it
/// lies in `a` or in `b`.
proof fn lemma_union_cross(a1: Left, a2: Right, b1: Left, b2: Right, p: int)
    requires
        !crate::right::lt_lower_spec(a2, a1),
        !crate::right::lt_lower_spec(b2, b1),
        (!crate::right::lt_lower_spec(b2, a1) && !crate::right::lt_lower_spec(a2, b1))
            || crate::left::touches_spec(a1, b2) || crate::left::touches_spec(b1, a2),
        lower_admits(a1.0, p),
        upper_admits(b2.0, p),
    ensures
        (lower_admits(a1.0, p) && upper_admits(a2.0, p)) || (lower_admits(b1.0, p)
            && upper_admits(b2.0, p)),
{
    if !upper_admits(a2.0, p) && !lower_admits(b1.0, p) {
        if !crate::right::lt_lower_spec(b2, a1) && !crate::right::lt_lower_spec(a2, b1) {
            lemma_lt_lower_points(a2, b1);
            let x = choose|q: int| #[trigger] lower_admits(b1.0, q) && upper_admits(a2.0, q);
            // `x` lies in both ranges, and `p` would have to sit both
            // strictly below and strictly above it.
            if p >= x {
                assert(lower_admits(b1.0, p));
            } else {
                assert(upper_admits(a2.0, p));
            }
        } else if crate::left::touches_spec(b1, a2) {
            // The bounds around the would-be gap share a key and one of
            // them includes it: no position fits between them.
            assert(false);
        } else {
            // `a`'s lower bound meets `b`'s upper bound on a shared key,
            // so `p` is pinned to that key's position, which lies in `a`.
            lemma_lt_lower_points(a2, a1);
            let x = choose|q: int| #[trigger] lower_admits(a1.0, q) && upper_admits(a2.0, q);
            if p <= x {
                assert(upper_admits(a2.0, p));
            } else {
                assert(false);
            }
        }
    }
}

impl Interval {
    /// Build the canonical interval from two raw bounds: `b1` read as the
    /// lower bound and `b2` as the upper bound. An inverted pair — where
    /// the upper bound ends before the lower bound begins, including every
    /// open/closed clash on a shared key — collapses to `Empty`; a doubly
    /// unbounded pair becomes `Everything`; and the result always holds
    /// exactly the points the two half-lines share.
    pub fn new(b1: Bound, b2: Bound) -> (r: Interval)
        ensures
            r == build_spec(b1, b2),
            r.wf(),
            forall|p: int| #[trigger] r.contains(p) <==> (lower_admits(b1, p) && upper_admits(b2, p)),
            (r is Empty) <==> crate::right::lt_lower_spec(Right(b2), Left(b1)),
    {
        let l = Left(b1);
        let u = Right(b2);
        if u.lt_lower(&l) {
            proof {
                lemma_lt_lower_points(u, l);
            }
            Interval::Empty
        } else if matches!((b1, b2), (Bound::Unbound, Bound::Unbound)) {
            Interval::Everything
        } else {
            Interval::Bounded(l, u)
        }
    }

    /// The canonical empty interval.
    pub fn empty() -> (r: Interval)
        ensures
            r == Interval::Empty,
            forall|p: int| !(#[trigger] r.contains(p)),
    {
        Interval::Empty
    }

    /// The canonical interval covering the whole line.
    pub fn everything() -> (r: Interval)
        ensures
            r == Interval::Everything,
            forall|p: int| #[trigger] r.contains(p),
    {
        Interval::Everything
    }

    /// The interval holding exactly the point at key `k`; it agrees with
    /// `new(Closed(k), Closed(k))`.
    pub fn singleton(k: i64) -> (r: Interval)
        ensures
            r == Interval::Bounded(Left(Bound::Closed(k)), Right(Bound::Closed(k))),
            r == build_spec(Bound::Closed(k), Bound::Closed(k)),
            r.wf(),
            is_singleton_spec(r),
            forall|p: int| #[trigger] r.contains(p) <==> p == 2 * (k as int),
    {
        Interval::Bounded(Left(Bound::Closed(k)), Right(Bound::Closed(k)))
    }

    /// True exactly of `Bounded` pairs closed on both sides at one key.
    pub fn is_singleton(&self) -> (r: bool)
        ensures
            r == is_singleton_spec(*self),
            r <==> (exists|k: i64| *self == Interval::Bounded(
                Left(Bound::Closed(k)),
                Right(Bound::Closed(k)),
            )),
    {
        match self {
            Interval::Bounded(Left(Bound::Closed(k1)), Right(Bound::Closed(k2))) => {
                let r = k1 == k2;
                proof {
                    if r {
                        let k = *k1;
                        assert(*self == Interval::Bounded(
                            Left(Bound::Closed(k)),
                            Right(Bound::Closed(k)),
                        ));
                    }
                }
                r
            },
            _ => false,
        }
    }

    /// True exactly of the canonical `Empty`; on well-formed intervals
    /// this coincides with holding no point at all.
    pub fn is_empty(self) -> (r: bool)
        ensures
            r == (self is Empty),
            self.wf() ==> (r <==> (forall|p: int| !(#[trigger] self.contains(p)))),
    {
        proof {
            if self.wf() && !(self is Empty) {
                lemma_nonempty(self);
            }
        }
        matches!(self, Interval::Empty)
    }

    /// Do the two intervals share at least one point? The result is exact
    /// for the point-set reading, and in particular symmetric in the two
    /// operands.
    pub fn overlap(self, other: Interval) -> (r: bool)
        requires
            self.wf(),
            other.wf(),
        ensures
            r == overlap_spec(self, other),
            r <==> (exists|p: int| #[trigger] self.contains(p) && other.contains(p)),
    {
        match (self, other) {
            (Interval::Empty, _) | (_, Interval::Empty) => false,
            (Interval::Everything, _) | (_, Interval::Everything) => {
                proof {
                    if self is Everything {
                        lemma_nonempty(other);
                        let q = choose|p: int| #[trigger] other.contains(p);
                        assert(self.contains(q) && other.contains(q));
                    } else {
                        lemma_nonempty(self);
                        let q = choose|p: int| #[trigger] self.contains(p);
                        assert(self.contains(q) && other.contains(q));
                    }
                }
                true
            },
            (Interval::Bounded(a1, a2), Interval::Bounded(b1, b2)) => {
                let r = !b2.lt_lower(&a1) && !a2.lt_lower(&b1);
                proof {
                    if r {
                        lemma_bounded_meet(a1, a2, b1, b2);
                        let q = choose|p: int|
                            #[trigger] lower_admits(a1.0, p) && upper_admits(a2.0, p)
                                && lower_admits(b1.0, p) && upper_admits(b2.0, p);
                        assert(self.contains(q) && other.contains(q));
                    } else {
                        if crate::right::lt_lower_spec(b2, a1) {
                            lemma_lt_lower_points(b2, a1);
                        } else {
                            lemma_lt_lower_points(a2, b1);
                        }
                        assert forall|p: int| !(#[trigger] self.contains(p) && other.contains(p))
                        by {}
                    }
                }
                r
            },
        }
    }

    /// Are the two intervals positioned to merge without a gap at a shared
    /// boundary key? True when one operand's upper bound meets the other's
    /// lower bound on the same key and at least one of the two meeting
    /// bounds includes the point there.
    pub fn adhere_to(self, other: Interval) -> (r: bool)
        ensures
            r == adhere_spec(self, other),
    {
        match (self, other) {
            (Interval::Bounded(a1, a2), Interval::Bounded(b1, b2)) => a1.touches(&b2)
                || b1.touches(&a2),
            _ => false,
        }
    }

    /// The union of the two intervals. A single interval comes back
    /// whenever the set union is itself an interval — an empty operand,
    /// an unbounded operand, or two bounded operands that overlap or
    /// adhere, merged into their canonical hull. Otherwise the two
    /// operands come back as a disjoint pair ordered left to right on the
    /// line, whichever order they were passed in. In every case the
    /// points of the result are exactly the points of the two operands.
    pub fn union(self, other: Interval) -> (r: (Interval, Option<Interval>))
        requires
            self.wf(),
            other.wf(),
        ensures
            r == union_spec(self, other),
            r.0.wf(),
            r.1 matches Some(y) ==> y.wf(),
            r.1 is None ==> (forall|p: int|
                #[trigger] r.0.contains(p) <==> (self.contains(p) || other.contains(p))),
            r.1 matches Some(y) ==> (forall|p: int|
                (#[trigger] r.0.contains(p) || y.contains(p)) <==> (self.contains(p)
                    || other.contains(p))),
            r.1 matches Some(y) ==> ((r.0 == self && y == other) || (r.0 == other && y == self)),
            r.1 matches Some(y) ==> (forall|p: int, q: int|
                #[trigger] r.0.contains(p) && #[trigger] y.contains(q) ==> p < q),
    {
        match (self, other) {
            (i, Interval::Empty) => (i, None),
            (Interval::Empty, i) => (i, None),
            (Interval::Everything, _) | (_, Interval::Everything) => (Interval::Everything, None),
            (Interval::Bounded(a1, a2), Interval::Bounded(b1, b2)) => {
                if self.overlap(other) || self.adhere_to(other) {
                    let lo = a1.min(b1);
                    let hi = a2.max(b2);
                    let m = Interval::new(lo.0, hi.0);
                    proof {
                        assert forall|p: int|
                            #[trigger] m.contains(p) <==> (self.contains(p) || other.contains(p))
                        by {
                            if lower_admits(a1.0, p) && upper_admits(b2.0, p) {
                                lemma_union_cross(a1, a2, b1, b2, p);
                            }
                            if lower_admits(b1.0, p) && upper_admits(a2.0, p) {
                                lemma_union_cross(b1, b2, a1, a2, p);
                            }
                        }
                    }
                    (m, None)
                } else if a2.lt_lower(&b1) {
                    proof {
                        lemma_lt_lower_points(a2, b1);
                        assert forall|p: int, q: int|
                            #[trigger] self.contains(p) && #[trigger] other.contains(q) implies p
                            < q by {
                            if p >= q {
                                assert(lower_admits(b1.0, p));
                                assert(upper_admits(a2.0, p));
                            }
                        }
                    }
                    (self, Some(other))
                } else {
                    proof {
                        // Disjoint and not adhering, and `a` does not end
                        // before `b` begins: so `b` ends before `a` begins.
                        lemma_lt_lower_points(b2, a1);
                        assert forall|p: int, q: int|
                            #[trigger] other.contains(p) && #[trigger] self.contains(q) implies p
                            < q by {
                            if p >= q {
                                assert(lower_admits(a1.0, p));
                                assert(upper_admits(b2.0, p));
                            }
                        }
                    }
                    (other, Some(self))
                }
            },
        }
    }
}

} // verus!

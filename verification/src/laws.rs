//! The algebraic laws of the library, each stated over the spec-level
//! model that the executable functions are proved to implement exactly.

use vstd::prelude::*;

use crate::bound::Bound;
use crate::interval::Interval;
use crate::interval::adhere_spec;
use crate::interval::build_spec;
use crate::interval::is_singleton_spec;
use crate::interval::overlap_spec;
use crate::interval::union_spec;
use crate::left::Left;
use crate::right::Right;

verus! {

/// Canonical uniqueness: construction yields `Empty` exactly when the
/// cross-side comparison says the upper bound ends before the lower bound
/// begins, and the doubly unbounded construction is always `Everything`.
pub proof fn lemma_build_canonical(b1: Bound, b2: Bound)
    ensures
        (build_spec(b1, b2) is Empty) <==> crate::right::lt_lower_spec(Right(b2), Left(b1)),
        build_spec(Bound::Unbound, Bound::Unbound) == Interval::Everything,
{
}

/// Equality of canonical intervals is an equivalence relation: reflexive,
/// symmetric and transitive.
pub proof fn lemma_equality_equivalence(a: Interval, b: Interval, c: Interval)
    ensures
        a == a,
        (a == b) ==> (b == a),
        (a == b && b == c) ==> (a == c),
{
}

/// Singleton round trip: building from two closed bounds on the same key
/// yields exactly the singleton shape, and that shape passes the
/// singleton test.
pub proof fn lemma_singleton_round_trip(k: i64)
    ensures
        build_spec(Bound::Closed(k), Bound::Closed(k)) == Interval::Bounded(
            Left(Bound::Closed(k)),
            Right(Bound::Closed(k)),
        ),
        is_singleton_spec(build_spec(Bound::Closed(k), Bound::Closed(k))),
{
}

/// Overlap is symmetric in its two operands.
pub proof fn lemma_overlap_symmetric(a: Interval, b: Interval)
    ensures
        overlap_spec(a, b) == overlap_spec(b, a),
{
}

/// `Empty` is absorbed by union: on either side, the union of `x` with
/// `Empty` is `x` alone.
pub proof fn lemma_union_empty(x: Interval)
    ensures
        union_spec(Interval::Empty, x) == (x, None::<Interval>),
        union_spec(x, Interval::Empty) == (x, None::<Interval>),
{
}

/// `Everything` absorbs union: the union of `Everything` with anything is
/// `Everything` alone.
pub proof fn lemma_union_everything(x: Interval)
    ensures
        union_spec(Interval::Everything, x) == (Interval::Everything, None::<Interval>),
{
}

/// Disjoint, non-adhering unions come back ordered left to right: when
/// every point of `a` lies strictly left of every point of `b`, the union
/// yields the pair `(a, b)` whichever order the operands are passed in.
pub proof fn lemma_union_ordered(a: Interval, b: Interval)
    requires
        a.wf(),
        b.wf(),
        a is Bounded,
        b is Bounded,
        !adhere_spec(a, b),
        forall|p: int, q: int| #[trigger] a.contains(p) && #[trigger] b.contains(q) ==> p < q,
    ensures
        union_spec(a, b) == (a, Some(b)),
        union_spec(b, a) == (a, Some(b)),
{
    match (a, b) {
        (Interval::Bounded(a1, a2), Interval::Bounded(b1, b2)) => {
            crate::interval::lemma_nonempty(a);
            crate::interval::lemma_nonempty(b);
            let pa = choose|p: int| #[trigger] a.contains(p);
            let pb = choose|p: int| #[trigger] b.contains(p);
            assert(a.contains(pa) && b.contains(pb));
            assert(pa < pb);
            // `b` does not end before `a` begins: the point of `a` also
            // lies below the upper bound of `b`.
            crate::right::lemma_lt_lower_points(b2, a1);
            assert(crate::bound::lower_admits(a1.0, pa) && crate::bound::upper_admits(b2.0, pa));
            // `a` must end before `b` begins: otherwise a position would
            // lie both in `a` and in `b`, against the strict separation.
            crate::right::lemma_lt_lower_points(a2, b1);
            if !crate::right::lt_lower_spec(a2, b1) {
                let x = choose|p: int|
                    #[trigger] crate::bound::lower_admits(b1.0, p) && crate::bound::upper_admits(
                        a2.0,
                        p,
                    );
                let m = if pa >= x {
                    pa
                } else {
                    x
                };
                let n = if x <= pb {
                    x
                } else {
                    pb
                };
                assert(a.contains(m));
                assert(b.contains(n));
                assert(m < n);
                assert(false);
            }
        },
        _ => {},
    }
}

} // verus!

use interval::Closed;
use interval::Interval;
use interval::Left;
use interval::Open;
use interval::Right;
use interval::Unbound;

#[test]
fn test_union_adherent_merge() {
    // The bounds meet at 3 and the right operand includes it: one interval.
    let a = Interval::new(Open(2), Open(3));
    let b = Interval::new(Closed(3), Closed(5));
    assert_eq!(a.union(b), (Interval::new(Open(2), Closed(5)), None));
    assert_eq!(b.union(a), (Interval::new(Open(2), Closed(5)), None));
}

#[test]
fn test_union_non_adherent_pair() {
    // The bounds meet at 3 but neither operand includes it: a gap stays,
    // and the pair comes back ordered left to right.
    let a = Interval::new(Open(2), Open(3));
    let b = Interval::new(Open(3), Closed(5));
    assert_eq!(a.union(b), (a, Some(b)));
    assert_eq!(b.union(a), (a, Some(b)));
}

#[test]
fn test_union_pair_ordered_both_ways() {
    let a = Interval::new(Closed(1), Closed(2));
    let b = Interval::new(Closed(5), Closed(6));
    assert_eq!(a.union(b), (a, Some(b)));
    assert_eq!(b.union(a), (a, Some(b)));
}

#[test]
fn test_build_tie_break() {
    assert!(Interval::new(Closed(43), Closed(42)).is_empty());
    assert!(Interval::new(Closed(42), Open(42)).is_empty());
    assert!(Interval::new(Open(42), Closed(42)).is_empty());
    assert_eq!(Interval::new(Closed(42), Closed(42)), Interval::singleton(42));
}

#[test]
fn test_build_unbounded_is_everything() {
    assert_eq!(Interval::new(Unbound, Unbound), Interval::everything());
    assert!(!Interval::new(Unbound, Unbound).is_empty());
}

#[test]
fn test_build_empty_iff_inverted() {
    assert!(Interval::new(Closed(1), Closed(0)).is_empty());
    assert!(Interval::new(Open(7), Closed(7)).is_empty());
    assert!(!Interval::new(Closed(0), Closed(1)).is_empty());
    assert!(!Interval::new(Closed(0), Closed(0)).is_empty());
}

#[test]
fn test_singleton_equals_build() {
    assert_eq!(Interval::singleton(7), Interval::new(Closed(7), Closed(7)));
    assert_eq!(Interval::singleton(-3), Interval::new(Closed(-3), Closed(-3)));
    assert_eq!(Interval::singleton(0), Interval::new(Closed(0), Closed(0)));
}

#[test]
fn test_overlap_symmetric_cases() {
    let pairs = [
        (Interval::new(Closed(1), Closed(5)), Interval::new(Closed(5), Closed(9))),
        (Interval::new(Open(1), Open(5)), Interval::new(Open(5), Open(9))),
        (Interval::new(Unbound, Closed(0)), Interval::new(Closed(0), Unbound)),
        (Interval::empty(), Interval::everything()),
        (Interval::new(Closed(2), Open(4)), Interval::new(Open(3), Closed(8))),
    ];
    for (a, b) in pairs {
        assert_eq!(a.overlap(b), b.overlap(a));
    }
}

#[test]
fn test_union_empty_absorption() {
    let xs = [Interval::empty(), Interval::everything(), Interval::new(Open(1), Closed(4))];
    for x in xs {
        assert_eq!(Interval::empty().union(x), (x, None));
        assert_eq!(x.union(Interval::empty()), (x, None));
    }
}

#[test]
fn test_union_everything_absorption() {
    let xs = [Interval::empty(), Interval::everything(), Interval::new(Open(1), Closed(4))];
    for x in xs {
        assert_eq!(Interval::everything().union(x), (Interval::everything(), None));
    }
}

#[test]
fn test_union_merge_unbounded_halves() {
    let a = Interval::new(Unbound, Closed(0));
    let b = Interval::new(Closed(0), Unbound);
    assert_eq!(a.union(b), (Interval::everything(), None));
}

#[test]
fn test_closure_left() {
    assert_eq!(Left(Open(42)).closure(), Left(Closed(42)));
    assert_eq!(Left(Closed(42)).closure(), Left(Closed(42)));
    assert_eq!(Left(Unbound).closure(), Left(Unbound));
}

#[test]
fn test_closure_right() {
    assert_eq!(Right(Open(42)).closure(), Right(Closed(42)));
    assert_eq!(Right(Closed(42)).closure(), Right(Closed(42)));
    assert_eq!(Right(Unbound).closure(), Right(Unbound));
}

#[test]
fn test_partial_cmp_left() {
    assert_eq!(
        Left(Closed(42)).partial_cmp(&Left(Open(42))),
        Some(std::cmp::Ordering::Less)
    );
    assert_eq!(
        Left(Open(42)).partial_cmp(&Left(Closed(42))),
        Some(std::cmp::Ordering::Greater)
    );
    assert_eq!(
        Left(Unbound).partial_cmp(&Left(Unbound)),
        Some(std::cmp::Ordering::Equal)
    );
    assert_eq!(
        Left(Closed(42)).partial_cmp(&Left(Closed(42))),
        Some(std::cmp::Ordering::Equal)
    );
}

#[test]
fn test_partial_cmp_right() {
    assert_eq!(
        Right(Open(42)).partial_cmp(&Right(Closed(42))),
        Some(std::cmp::Ordering::Less)
    );
    assert_eq!(
        Right(Closed(42)).partial_cmp(&Right(Open(42))),
        Some(std::cmp::Ordering::Greater)
    );
    assert_eq!(
        Right(Unbound).partial_cmp(&Right(Unbound)),
        Some(std::cmp::Ordering::Equal)
    );
}

#[test]
fn test_partial_cmp_across() {
    assert_eq!(
        Left(Closed(5)).partial_cmp_upper(&Right(Closed(5))),
        Some(std::cmp::Ordering::Equal)
    );
    assert_eq!(
        Left(Open(5)).partial_cmp_upper(&Right(Closed(5))),
        Some(std::cmp::Ordering::Greater)
    );
    assert_eq!(
        Left(Closed(4)).partial_cmp_upper(&Right(Closed(5))),
        Some(std::cmp::Ordering::Less)
    );
    assert_eq!(
        Left(Unbound).partial_cmp_upper(&Right(Unbound)),
        Some(std::cmp::Ordering::Less)
    );
}

#[test]
fn test_eq_upper() {
    assert!(Left(Closed(5)).eq_upper(&Right(Closed(5))));
    assert!(!Left(Closed(5)).eq_upper(&Right(Open(5))));
    assert!(!Left(Open(5)).eq_upper(&Right(Closed(5))));
    assert!(!Left(Unbound).eq_upper(&Right(Unbound)));
}

#[test]
fn test_touches() {
    assert!(Left(Closed(3)).touches(&Right(Open(3))));
    assert!(Left(Open(3)).touches(&Right(Closed(3))));
    assert!(Left(Closed(3)).touches(&Right(Closed(3))));
    assert!(!Left(Open(3)).touches(&Right(Open(3))));
    assert!(!Left(Closed(3)).touches(&Right(Closed(4))));
}

#[test]
fn test_min_max_left() {
    assert_eq!(Left(Closed(42)).min(Left(Open(42))), Left(Closed(42)));
    assert_eq!(Left(Closed(42)).max(Left(Open(42))), Left(Open(42)));
    assert_eq!(Left(Unbound).min(Left(Closed(0))), Left(Unbound));
    assert_eq!(Left(Unbound).max(Left(Closed(0))), Left(Closed(0)));
}

#[test]
fn test_min_max_right() {
    assert_eq!(Right(Open(42)).min(Right(Closed(42))), Right(Open(42)));
    assert_eq!(Right(Open(42)).max(Right(Closed(42))), Right(Closed(42)));
    assert_eq!(Right(Unbound).max(Right(Closed(0))), Right(Unbound));
    assert_eq!(Right(Unbound).min(Right(Closed(0))), Right(Closed(0)));
}

#[test]
fn test_extreme_keys() {
    assert!(Interval::singleton(i64::MAX).is_singleton());
    assert!(Interval::singleton(i64::MIN).is_singleton());
    let wide = Interval::new(Closed(i64::MIN), Closed(i64::MAX));
    assert!(!wide.is_empty());
    let lowhalf = Interval::new(Closed(i64::MIN), Closed(0));
    let highhalf = Interval::new(Closed(0), Closed(i64::MAX));
    assert_eq!(lowhalf.union(highhalf), (wide, None));
}

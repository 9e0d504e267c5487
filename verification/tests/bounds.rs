use superperm::bounds::Bounds;

#[test]
fn fresh_ledger_has_anchor_only() {
    let b = Bounds::new();
    assert_eq!(b.tracked_range(), 1);
    assert_eq!(b.lower_bound(0), 0);
    assert_eq!(b.upper_bound(0), usize::MAX);
    assert_eq!(b.threshold(0), 0);
}

#[test]
fn extension_seeds_every_new_index() {
    let mut b = Bounds::new();
    let changed = b.update(3, 2);
    assert!(changed);
    assert_eq!(b.tracked_range(), 4);
    assert_eq!(b.lower_bound(0), 0);
    assert_eq!(b.lower_bound(1), 2);
    assert_eq!(b.lower_bound(2), 2);
    assert_eq!(b.lower_bound(3), 2);
    // previously tracked bounds stay as they were; upper bounds strictly
    // between the old last index and the new one collapse onto their own
    // lower bounds; the new last index gets lower + anchor lower
    assert_eq!(b.upper_bound(0), usize::MAX);
    assert_eq!(b.upper_bound(1), 2);
    assert_eq!(b.upper_bound(2), 2);
    assert_eq!(b.upper_bound(3), 2);
    // thresholds are normalized against the anchor lower bound
    assert_eq!(b.threshold(1), 2);
    assert_eq!(b.threshold(3), 2);
}

#[test]
fn extension_keeps_bounds_monotone() {
    let mut b = Bounds::new();
    assert!(b.update(2, 5));
    // a later extension with a smaller bound still seeds with the last
    // known lower bound, never below it
    assert!(b.update(4, 1));
    assert_eq!(b.lower_bound(3), 5);
    assert_eq!(b.lower_bound(4), 5);
}

#[test]
fn tighten_only_update() {
    let mut b = Bounds::new();
    assert!(b.update(1, 5));
    assert_eq!(b.lower_bound(1), 5);

    // a value below the stored bound changes nothing and reports so
    assert!(!b.update(1, 3));
    assert_eq!(b.lower_bound(1), 5);

    // the same value is idempotent too
    assert!(!b.update(1, 5));
    assert_eq!(b.lower_bound(1), 5);

    // a strictly greater value tightens and the query reflects it
    assert!(b.update(1, 7));
    assert_eq!(b.lower_bound(1), 7);
    assert_eq!(b.threshold(1), 7);
}

#[test]
fn tightening_the_anchor_normalizes_thresholds() {
    let mut b = Bounds::new();
    assert!(b.update(2, 5));
    assert!(b.update(0, 2));
    assert_eq!(b.lower_bound(0), 2);
    // the anchor's own threshold is its bound minus itself
    assert_eq!(b.threshold(0), 0);
    // later tightenings are normalized against the new anchor
    assert!(b.update(2, 6));
    assert_eq!(b.threshold(2), 4);
}

#[test]
fn upper_bounds_never_loosen() {
    let mut b = Bounds::new();
    assert!(b.update(3, 5));
    assert_eq!(b.upper_bound(3), 5);
    // tightening the lower bound leaves the derived upper bound alone
    assert!(b.update(3, 9));
    assert_eq!(b.lower_bound(3), 9);
    assert_eq!(b.upper_bound(3), 5);
    // a later extension never rewrites a previously tracked upper bound
    assert!(b.update(7, 2));
    assert_eq!(b.upper_bound(3), 5);
    assert_eq!(b.lower_bound(4), 9);
    assert_eq!(b.upper_bound(4), 9);
    assert_eq!(b.upper_bound(7), 9);
}

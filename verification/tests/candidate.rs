use superperm::candidate::Candidate;

#[test]
fn seed_has_full_tail_one_permutation_no_waste() {
    for n in 2..6usize {
        let c = Candidate::seed(n);
        assert_eq!(c.tail_of_string.len(), n - 1);
        assert_eq!(c.number_of_permutations(), 1);
        assert_eq!(c.wasted_symbols, 0);
        let expected: Vec<usize> = (1..n).collect();
        assert_eq!(c.tail_of_string, expected);
        // the covered permutation is the identity ordering, id 0
        assert!(c.has_seen(0));
    }
}

#[test]
fn expand_produces_one_child_per_symbol_but_the_last() {
    for n in 2..6usize {
        let c = Candidate::seed(n);
        let children = c.expand(usize::MAX, n);
        assert_eq!(children.len(), n - 1);
    }
}

#[test]
fn waste_and_coverage_grow_from_parent_to_child() {
    let parent = Candidate::seed(4);
    let parent_coverage = parent.number_of_permutations();
    let parent_waste = parent.wasted_symbols;
    for child in parent.expand(usize::MAX, 4) {
        assert!(child.number_of_permutations() >= parent_coverage);
        assert!(child.wasted_symbols >= parent_waste);
        // ids covered by the parent stay covered
        assert!(child.has_seen(0));
    }
}

#[test]
fn expansion_scenario_for_three_symbols() {
    // seed: tail [1, 2], covered {id(0,1,2)} = {0}, waste 0
    let c = Candidate::seed(3);
    assert_eq!(c.tail_of_string, vec![1, 2]);
    assert!(c.has_seen(0));
    assert_eq!(c.number_of_permutations(), 1);
    assert_eq!(c.wasted_symbols, 0);

    let children = c.expand(6, 3);
    assert_eq!(children.len(), 2);

    // appending 0 (not the last symbol 2): new tail [2, 0], both tails full
    // and 0 is not the tail's first symbol, so id(1,2,0) is computed; it is
    // unseen, so the child covers 2 permutations at no waste cost
    let progress = &children[0];
    assert_eq!(progress.tail_of_string, vec![2, 0]);
    assert_eq!(progress.number_of_permutations(), 2);
    assert_eq!(progress.wasted_symbols, 0);
    assert!(progress.has_seen(0));
    assert!(progress.has_seen(Candidate::permutation_id(&vec![1, 2], 0)));

    // appending 1 repeats the tail's first symbol: a wasted symbol
    let wasted = &children[1];
    assert_eq!(wasted.tail_of_string, vec![2, 1]);
    assert_eq!(wasted.number_of_permutations(), 1);
    assert_eq!(wasted.wasted_symbols, 1);
}

#[test]
fn coverage_capped_branch_wastes_instead_of_covering() {
    let c = Candidate::seed(3);
    // with the ceiling already reached, the append that would cover id(1,2,0)
    // is treated as wasted instead
    let children = c.expand(1, 3);
    assert_eq!(children[0].number_of_permutations(), 1);
    assert_eq!(children[0].wasted_symbols, 1);
}

#[test]
fn permutation_ids_never_collide() {
    // all six orderings of {0, 1, 2}, written as a window plus a final symbol
    let orderings = [
        (vec![0, 1], 2),
        (vec![0, 2], 1),
        (vec![1, 0], 2),
        (vec![1, 2], 0),
        (vec![2, 0], 1),
        (vec![2, 1], 0),
    ];
    let mut ids = Vec::new();
    for (window, last) in orderings.iter() {
        let id = Candidate::permutation_id(window, *last);
        assert!(id < 6);
        assert!(!ids.contains(&id), "two orderings share id {}", id);
        ids.push(id);
    }
    // the identity ordering gets id 0
    assert_eq!(Candidate::permutation_id(&vec![0, 1], 2), 0);
}

#[test]
fn identical_windows_give_identical_ids() {
    let a = Candidate::permutation_id(&vec![3, 1, 0], 2);
    let b = Candidate::permutation_id(&vec![3, 1, 0], 2);
    assert_eq!(a, b);
}

#[test]
fn estimate_equals_waste_exactly_when_tail_is_full() {
    let c = Candidate::seed(4);
    // full tail: no future waste, the estimate is the incurred waste
    assert_eq!(c.future_waste(4), 0);
    assert_eq!(c.total_waste(4), c.wasted_symbols);

    // a child with a shortened tail pays future waste in the estimate
    let children = c.expand(usize::MAX, 4);
    let short = &children[2];
    assert_eq!(short.tail_of_string, vec![3, 2]);
    assert_eq!(short.future_waste(4), 1);
    assert_eq!(short.total_waste(4), short.wasted_symbols + 1);
}

#[test]
fn repeated_permutation_wastes_one_symbol() {
    // covering id(1,2,0) = 3 beforehand makes appending 0 a repeat; the
    // hypothetical next window [2,0] + 1, id(2,0,1) = 4, is not yet covered,
    // so the penalty stays at one
    let mut c = Candidate::seed(3);
    c.permutations_seen.insert(3);
    let children = c.expand(6, 3);
    assert_eq!(children[0].tail_of_string, vec![2, 0]);
    assert_eq!(children[0].wasted_symbols, 1);
    assert_eq!(children[0].number_of_permutations(), 2);
}

#[test]
fn repeated_permutation_with_covered_next_window_wastes_two() {
    // with both id(1,2,0) = 3 and the hypothetical next id(2,0,1) = 4
    // covered, the append is penalized twice
    let mut c = Candidate::seed(3);
    c.permutations_seen.insert(3);
    c.permutations_seen.insert(4);
    let children = c.expand(6, 3);
    assert_eq!(children[0].tail_of_string, vec![2, 0]);
    assert_eq!(children[0].wasted_symbols, 2);
    assert_eq!(children[0].number_of_permutations(), 3);
}

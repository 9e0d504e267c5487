use superperm::bits::SeenSet;
use superperm::bounds::Bounds;
use superperm::candidate::Candidate;
use superperm::frontier::Frontier;

fn candidate_with_waste(n: usize, wasted: usize) -> Candidate {
    let mut c = Candidate::seed(n);
    c.wasted_symbols = wasted;
    c
}

#[test]
fn states_leave_in_order_of_waste_estimate() {
    let n = 5usize;
    let mut frontier = Frontier::new();
    // seeds have full tails, so the estimate is exactly the wasted count
    frontier.add(candidate_with_waste(n, 3), n);
    frontier.add(candidate_with_waste(n, 1), n);
    frontier.add(candidate_with_waste(n, 2), n);

    assert_eq!(frontier.len(), 3);
    assert_eq!(frontier.min_waste(), Some(1));
    assert_eq!(frontier.max_waste(), Some(3));

    assert_eq!(frontier.next().unwrap().wasted_symbols, 1);
    assert_eq!(frontier.next().unwrap().wasted_symbols, 2);
    assert_eq!(frontier.next().unwrap().wasted_symbols, 3);
    assert!(frontier.next().is_none());
    assert_eq!(frontier.len(), 0);
    assert!(frontier.min_waste().is_none());
    assert!(frontier.max_waste().is_none());
}

#[test]
fn ties_favor_the_state_nearer_completion() {
    let n = 8usize;
    let mut nearer = Candidate::seed(n);
    let mut farther = Candidate::seed(n);
    // same waste estimate (0 for both, tails full), coverage counts 7 and 5
    for id in 1..7 {
        nearer.permutations_seen.insert(id);
    }
    for id in 1..5 {
        farther.permutations_seen.insert(id);
    }
    assert_eq!(nearer.number_of_permutations(), 7);
    assert_eq!(farther.number_of_permutations(), 5);

    let mut frontier = Frontier::new();
    frontier.add(farther, n);
    frontier.add(nearer, n);

    assert_eq!(frontier.next().unwrap().number_of_permutations(), 7);
    assert_eq!(frontier.next().unwrap().number_of_permutations(), 5);
}

#[test]
fn empty_set_of_ids_starts_empty() {
    let s = SeenSet::with_capacity(16);
    assert_eq!(s.count(), 0);
    assert!(!s.contains(3));
    let mut t = s;
    t.insert(3);
    assert!(t.contains(3));
    assert_eq!(t.count(), 1);
    // inserting again changes nothing
    t.insert(3);
    assert_eq!(t.count(), 1);
    // a duplicate is independent of the original
    let mut u = t.duplicate();
    u.insert(5);
    assert_eq!(u.count(), 2);
    assert_eq!(t.count(), 1);
}

#[test]
fn draining_a_waste_level_proves_a_tighter_bound() {
    // seed the four-symbol search and drain the minimum waste level
    let n = 4usize;
    let mut frontier = Frontier::new();
    frontier.add(Candidate::seed(n), n);
    assert_eq!(frontier.min_waste(), Some(0));

    let best = frontier.next().unwrap();
    let coverage = best.number_of_permutations();
    for child in best.expand(24, n) {
        frontier.add(child, n);
    }
    // pop every remaining state at waste level 0
    while frontier.min_waste() == Some(0) {
        let c = frontier.next().unwrap();
        if c.number_of_permutations() > coverage {
            // keep exploring states that made progress at no cost
            for child in c.expand(24, n) {
                frontier.add(child, n);
            }
        }
    }
    assert_eq!(frontier.len_for_waste(0), 0);

    // the drained minimum is a proven lower bound: recording it for the
    // reached coverage count must strictly tighten the ledger
    let new_minimum = frontier.min_waste().unwrap();
    assert!(new_minimum > 0);
    let mut bounds = Bounds::new();
    assert!(bounds.update(coverage + 1, new_minimum));
    assert_eq!(bounds.lower_bound(coverage + 1), new_minimum);
    // feeding the same bound again changes nothing
    assert!(!bounds.update(coverage + 1, new_minimum));
}

#[test]
fn best_first_search_finds_the_minimal_superpermutation() {
    // run the full engine for three symbols: the shortest superpermutation
    // has length 9, which is one wasted symbol past the 8 needed for the
    // six permutations
    let n = 3usize;
    let full_coverage = 6usize;
    let mut frontier = Frontier::new();
    frontier.add(Candidate::seed(n), n);

    let mut iterations = 0usize;
    let terminal = loop {
        iterations += 1;
        assert!(iterations < 100_000, "search failed to terminate");
        let best = frontier.next().expect("frontier drained before a terminal state");
        if best.number_of_permutations() == full_coverage {
            break best;
        }
        for child in best.expand(full_coverage, n) {
            frontier.add(child, n);
        }
    };

    // a terminal state has a full tail: its estimate is exactly its waste
    assert_eq!(terminal.total_waste(n), terminal.wasted_symbols);
    assert_eq!(terminal.wasted_symbols, 1);
}

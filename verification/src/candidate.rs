//! An immutable partial solution of the search: the set of permutations
//! already covered, the trailing window of recent symbols, and the waste
//! accumulated so far.  Expansion is pure: a parent produces one child per
//! candidate next symbol, never mutating itself.

use vstd::prelude::*;

use crate::bits::{bits, SeenSet};

use crate::perm::{below, identity_perm, lehmer_value, max_permutation_id, permutation_id_raw};
use crate::perm::lemma_increasing_lehmer_zero;

verus! {

/// The tail window a child inherits when `symbol` is appended: the shortest
/// suffix that can still begin a new permutation.  If `symbol` already occurs
/// in the window, everything up to and including that occurrence is dropped;
/// otherwise the window grows until full length `n - 1` and slides afterwards.
pub open spec fn spec_build_tail(tail: Seq<usize>, symbol: usize, n: usize) -> Seq<usize> {
    if tail.contains(symbol) {
        tail.subrange(tail.index_of(symbol) + 1, tail.len() as int).push(symbol)
    } else if tail.len() < n - 1 {
        tail.push(symbol)
    } else {
        tail.subrange(1, tail.len() as int).push(symbol)
    }
}

/// Scan the symbols from `s` upward for one missing from the full window
/// `tail`; if one is found, report whether the permutation that the shifted
/// window would complete with it is already covered.
pub open spec fn next_tail_seen_from(seen: Set<usize>, tail: Seq<usize>, n: usize, s: usize) -> bool
    decreases n - s,
{
    if s >= n {
        false
    } else if !tail.contains(s) {
        seen.contains(lehmer_value(tail.push(s)) as usize)
    } else {
        next_tail_seen_from(seen, tail, n, (s + 1) as usize)
    }
}

/// Whether the hypothetical next window (shifted one further, completed with
/// the symbol still missing from `tail`) is itself already covered.
pub open spec fn next_tail_seen(seen: Set<usize>, tail: Seq<usize>, n: usize) -> bool {
    next_tail_seen_from(seen, tail, n, 0)
}

/// The symbol the `k`-th child of an expansion is built with: the symbols
/// `0..n` in order, skipping the window's last symbol.
pub open spec fn expansion_symbol(k: int, last: usize) -> usize {
    if k < last {
        k as usize
    } else {
        (k + 1) as usize
    }
}

/// One partial solution: covered permutations, trailing window, waste so far.
pub struct Candidate {
    pub permutations_seen: SeenSet,
    pub tail_of_string: Vec<usize>,
    pub wasted_symbols: usize,
}

impl Candidate {
    /// The set of covered permutation ids.
    pub open spec fn seen_set(self) -> Set<usize> {
        bits(self.permutations_seen)
    }

    /// The trailing window of recent symbols.
    pub open spec fn tail(self) -> Seq<usize> {
        self.tail_of_string@
    }

    /// Well-formed for alphabet size `n`: a non-empty window of at most
    /// `n - 1` pairwise distinct symbols below `n`, and a finite covered set.
    pub open spec fn wf(self, n: usize) -> bool {
        &&& 2 <= n
        &&& 1 <= self.tail().len() <= n - 1
        &&& below(self.tail(), n)
        &&& self.tail().no_duplicates()
        &&& self.seen_set().finite()
    }

    /// The id of the permutation that appending `symbol` to a full window
    /// would complete.
    pub open spec fn candidate_id(self, symbol: usize) -> usize {
        lehmer_value(self.tail().push(symbol)) as usize
    }

    /// Appending `symbol` covers a new permutation: both the old and the new
    /// window are full, the window does not merely rotate back to its first
    /// symbol, the branch is not capped, and the completed permutation is new.
    pub open spec fn completes_new(self, symbol: usize, at_upper_bound: bool, n: usize) -> bool {
        &&& !(self.tail().len() < n - 1)
        &&& !(spec_build_tail(self.tail(), symbol, n).len() < n - 1)
        &&& symbol != self.tail()[0]
        &&& !at_upper_bound
        &&& !self.seen_set().contains(self.candidate_id(symbol))
    }

    /// How many wasted symbols appending `symbol` costs: nothing when a new
    /// permutation is covered; two when the completed permutation is a repeat
    /// and the hypothetical next window is covered as well; one otherwise.
    pub open spec fn spec_penalty(self, symbol: usize, at_upper_bound: bool, n: usize) -> nat {
        let new_tail = spec_build_tail(self.tail(), symbol, n);
        if self.tail().len() < n - 1 {
            1
        } else if new_tail.len() < n - 1 {
            1
        } else if symbol == self.tail()[0] {
            1
        } else if at_upper_bound {
            1
        } else if self.seen_set().contains(self.candidate_id(symbol)) {
            if next_tail_seen(self.seen_set(), new_tail, n) {
                2
            } else {
                1
            }
        } else {
            0
        }
    }

    /// The covered set appending `symbol` leaves the child with.
    pub open spec fn spec_child_seen(self, symbol: usize, at_upper_bound: bool, n: usize) -> Set<
        usize,
    > {
        if self.completes_new(symbol, at_upper_bound, n) {
            self.seen_set().insert(self.candidate_id(symbol))
        } else {
            self.seen_set()
        }
    }

    /// The seed state for alphabet size `n`: the search string starts as the
    /// identity ordering `0, 1, ..., n-1`, so the window is `1, ..., n-1`,
    /// exactly that ordering (permutation id 0) is covered, and nothing is
    /// wasted yet.
    pub fn seed(n: usize) -> (c: Candidate)
        requires
            2 <= n <= 20,
        ensures
            c.wf(n),
            c.tail() == Seq::new((n - 1) as nat, |i: int| (i + 1) as usize),
            c.seen_set() == Set::<usize>::empty().insert(0),
            c.seen_set().len() == 1,
            c.wasted_symbols == 0,
            lehmer_value(identity_perm(n as nat)) == 0,
    {
        let max_value = max_permutation_id(n);
        let mut seen = SeenSet::with_capacity(max_value);
        seen.insert(0);

        let mut tail_of_string: Vec<usize> = Vec::new();
        let mut i: usize = 1;
        while i < n
            invariant
                1 <= i <= n,
                tail_of_string@.len() == i - 1,
                forall|j: int| 0 <= j < i - 1 ==> tail_of_string@[j] == j + 1,
            decreases n - i,
        {
            tail_of_string.push(i);
            i += 1;
        }

        proof {
            assert(tail_of_string@ =~= Seq::new((n - 1) as nat, |k: int| (k + 1) as usize));
            lemma_increasing_lehmer_zero(identity_perm(n as nat));
        }

        Candidate { permutations_seen: seen, tail_of_string, wasted_symbols: 0 }
    }

    /// How many permutations this state covers.
    pub fn number_of_permutations(&self) -> (count: usize)
        ensures
            count == self.seen_set().len(),
    {
        self.permutations_seen.count()
    }

    /// Whether the permutation with id `id` is covered.
    pub fn has_seen(&self, id: usize) -> (r: bool)
        ensures
            r == self.seen_set().contains(id),
    {
        self.permutations_seen.contains(id)
    }

    /// The admissible estimate of waste still to come: the window must grow
    /// back to full length `n - 1` before any new permutation can complete,
    /// and each missing symbol costs at least one wasted append.  Zero exactly
    /// when the window is full.
    pub fn future_waste(&self, n: usize) -> (w: usize)
        requires
            1 <= n,
            self.tail().len() <= n - 1,
        ensures
            w == n - 1 - self.tail().len(),
            w == 0 <==> self.tail().len() == n - 1,
    {
        n - self.tail_of_string.len() - 1
    }

    /// The priority key for best-first ordering: waste already incurred plus
    /// the admissible estimate of waste still to come.  For a state with a
    /// full window — every terminal state has one, since only full windows
    /// complete permutations — this equals `wasted_symbols` exactly.
    pub fn total_waste(&self, n: usize) -> (w: usize)
        requires
            1 <= n,
            self.tail().len() <= n - 1,
            self.wasted_symbols + n <= usize::MAX,
        ensures
            w == self.wasted_symbols + n - 1 - self.tail().len(),
            w == self.wasted_symbols <==> self.tail().len() == n - 1,
    {
        self.wasted_symbols + self.future_waste(n)
    }

    /// The priority key as a spec-level value.
    pub open spec fn spec_total_waste(self, n: usize) -> usize
        recommends
            self.wf(n),
            self.wasted_symbols + n <= usize::MAX,
    {
        (self.wasted_symbols + n - 1 - self.tail().len()) as usize
    }

    /// Whether the window is shorter than its full length `n - 1`.
    pub fn less_than_full(tail_of_string: &Vec<usize>, n: usize) -> (r: bool)
        requires
            1 <= n,
        ensures
            r == (tail_of_string@.len() < n - 1),
    {
        tail_of_string.len() < n - 1
    }

    /// Whether the window starts with `symbol`.
    pub fn tail_starts_with(&self, symbol: usize) -> (r: bool)
        requires
            self.tail().len() >= 1,
        ensures
            r == (symbol == self.tail()[0]),
    {
        symbol == self.tail_of_string[0]
    }

    /// The child that repeats coverage and pays `penalty` wasted symbols.
    fn candidate_with_wasted_symbol(&self, tail_of_string: Vec<usize>, penalty: usize) -> (c:
        Candidate)
        requires
            self.wasted_symbols + penalty <= usize::MAX,
        ensures
            c.seen_set() == self.seen_set(),
            c.tail() == tail_of_string@,
            c.wasted_symbols == self.wasted_symbols + penalty,
    {
        Candidate {
            permutations_seen: self.permutations_seen.duplicate(),
            tail_of_string,
            wasted_symbols: self.wasted_symbols + penalty,
        }
    }

    /// The child that covers the new permutation `id` at no waste cost.
    fn candidate_with_new_permutation(&self, tail_of_string: Vec<usize>, id: usize) -> (c:
        Candidate)
        ensures
            c.seen_set() == self.seen_set().insert(id),
            c.tail() == tail_of_string@,
            c.wasted_symbols == self.wasted_symbols,
    {
        let mut permutations_seen = self.permutations_seen.duplicate();
        permutations_seen.insert(id);

        let wasted_symbols = self.wasted_symbols;
        Candidate { permutations_seen, tail_of_string, wasted_symbols }
    }

    /// The index of the first occurrence of `symbol` in `v`, if any.
    fn find_symbol(v: &Vec<usize>, symbol: usize) -> (r: Option<usize>)
        ensures
            match r {
                Some(i) => i < v@.len() && v@[i as int] == symbol && (forall|j: int|
                    0 <= j < i ==> v@[j] != symbol),
                None => !v@.contains(symbol),
            },
    {
        let mut k: usize = 0;
        while k < v.len()
            invariant
                k <= v@.len(),
                forall|j: int| 0 <= j < k ==> v@[j] != symbol,
            decreases v@.len() - k,
        {
            if v[k] == symbol {
                return Some(k);
            }
            k += 1;
        }
        None
    }

    /// A copy of `v` from position `from` on, with `symbol` appended.
    fn append(v: &Vec<usize>, from: usize, symbol: usize) -> (r: Vec<usize>)
        requires
            from <= v@.len(),
        ensures
            r@ == v@.subrange(from as int, v@.len() as int).push(symbol),
    {
        let mut r: Vec<usize> = Vec::new();
        let mut i = from;
        while i < v.len()
            invariant
                from <= i <= v@.len(),
                r@ == v@.subrange(from as int, i as int),
            decreases v@.len() - i,
        {
            let e = v[i];
            r.push(e);
            proof {
                assert(r@ =~= v@.subrange(from as int, i + 1));
            }
            i += 1;
        }
        r.push(symbol);
        proof {
            assert(r@ =~= v@.subrange(from as int, v@.len() as int).push(symbol));
        }
        r
    }

    /// The id of the permutation formed by the window followed by `symbol`,
    /// computed through the factorial number system.
    pub fn permutation_id(tail_of_string: &Vec<usize>, symbol: usize) -> (id: usize)
        requires
            tail_of_string@.push(symbol).no_duplicates(),
            below(tail_of_string@.push(symbol), (tail_of_string@.len() + 1) as usize),
            tail_of_string@.len() + 1 <= 20,
        ensures
            id == lehmer_value(tail_of_string@.push(symbol)),
    {
        let perm = Self::append(tail_of_string, 0, symbol);
        proof {
            assert(perm@ =~= tail_of_string@.push(symbol));
        }
        permutation_id_raw(&perm)
    }

    /// The child window for `symbol`, as `spec_build_tail` describes; the
    /// result is again a well-formed window for `n`.
    fn build_tail(&self, symbol: usize, n: usize) -> (r: Vec<usize>)
        requires
            self.wf(n),
            symbol < n,
        ensures
            r@ == spec_build_tail(self.tail(), symbol, n),
            r@.no_duplicates(),
            below(r@, n),
            1 <= r@.len() <= n - 1,
    {
        let head = &self.tail_of_string;
        let ghost tail = self.tail();

        let index: usize = match Self::find_symbol(head, symbol) {
            Some(i) => {
                proof {
                    assert(tail.contains(symbol));
                    let io = tail.index_of(symbol);
                    assert(0 <= io < tail.len() && tail[io] == symbol);
                    assert(io == i as int);
                }
                i + 1
            },
            None => {
                if Self::less_than_full(head, n) {
                    0
                } else {
                    1
                }
            },
        };

        let r = Self::append(head, index, symbol);

        proof {
            let rr = r@;
            assert(rr =~= spec_build_tail(tail, symbol, n));
            assert forall|a: int, b: int|
                0 <= a < b < rr.len() implies rr[a] != rr[b] by {
                if b < rr.len() - 1 {
                    assert(rr[a] == tail[index + a] && rr[b] == tail[index + b]);
                } else {
                    assert(rr[a] == tail[index + a]);
                    if rr[a] == symbol {
                        assert(tail.contains(symbol));
                    }
                }
            }
            assert(rr.no_duplicates());
        }
        r
    }

    /// Whether the permutation the hypothetical next window would complete is
    /// already covered: find the one symbol missing from the (full) new
    /// window and test the id it would complete.
    fn seen_next_tail_as_well(&self, tail_of_string: &Vec<usize>, n: usize) -> (r: bool)
        requires
            2 <= n <= 20,
            tail_of_string@.no_duplicates(),
            below(tail_of_string@, n),
            tail_of_string@.len() == n - 1,
        ensures
            r == next_tail_seen(self.seen_set(), tail_of_string@, n),
    {
        let ghost tail = tail_of_string@;
        let mut symbols_in_tail: Vec<bool> = Vec::new();
        let mut i: usize = 0;
        while i < n
            invariant
                i <= n,
                symbols_in_tail@.len() == i,
                forall|j: int| 0 <= j < i ==> symbols_in_tail@[j] == false,
            decreases n - i,
        {
            symbols_in_tail.push(false);
            i += 1;
        }

        let mut j: usize = 0;
        while j < tail_of_string.len()
            invariant
                j <= tail.len(),
                tail == tail_of_string@,
                below(tail, n),
                tail.len() == n - 1,
                symbols_in_tail@.len() == n,
                forall|s: int|
                    0 <= s < n ==> (symbols_in_tail@[s] <==> (exists|t: int|
                        0 <= t < j && tail[t] == s)),
            decreases tail.len() - j,
        {
            let sym = tail_of_string[j];
            symbols_in_tail.set(sym, true);
            j += 1;
        }

        assert forall|s: usize| s < n implies (symbols_in_tail@[s as int] <==> tail.contains(
            s,
        )) by {}

        let mut symbol: usize = 0;
        while symbol < n
            invariant
                symbol <= n,
                2 <= n <= 20,
                tail == tail_of_string@,
                tail.no_duplicates(),
                below(tail, n),
                tail.len() == n - 1,
                symbols_in_tail@.len() == n,
                forall|s: usize| s < n ==> (symbols_in_tail@[s as int] <==> tail.contains(s)),
                next_tail_seen(self.seen_set(), tail, n) == next_tail_seen_from(
                    self.seen_set(),
                    tail,
                    n,
                    symbol,
                ),
            decreases n - symbol,
        {
            if !symbols_in_tail[symbol] {
                let id = Self::permutation_id(tail_of_string, symbol);
                return self.has_seen(id);
            }
            symbol += 1;
        }
        false
    }

    /// The child produced by appending `symbol`: the window advances as
    /// `spec_build_tail` describes, a newly completed permutation is covered
    /// for free, and every other append costs the penalty `spec_penalty`
    /// describes.
    pub fn expand_one(&self, symbol: usize, at_upper_bound: bool, n: usize) -> (child: Candidate)
        requires
            self.wf(n),
            symbol < n,
            n <= 20,
            self.wasted_symbols + 2 <= usize::MAX,
        ensures
            child.wf(n),
            child.tail() == spec_build_tail(self.tail(), symbol, n),
            child.seen_set() == self.spec_child_seen(symbol, at_upper_bound, n),
            child.wasted_symbols == self.wasted_symbols + self.spec_penalty(
                symbol,
                at_upper_bound,
                n,
            ),
    {
        let tail_of_string = self.build_tail(symbol, n);

        if Self::less_than_full(&self.tail_of_string, n) {
            return self.candidate_with_wasted_symbol(tail_of_string, 1);
        }

        if Self::less_than_full(&tail_of_string, n) {
            return self.candidate_with_wasted_symbol(tail_of_string, 1);
        }

        if self.tail_starts_with(symbol) {
            return self.candidate_with_wasted_symbol(tail_of_string, 1);
        }

        if at_upper_bound {
            return self.candidate_with_wasted_symbol(tail_of_string, 1);
        }

        proof {
            if self.tail().contains(symbol) {
                let io = self.tail().index_of(symbol);
                assert(0 <= io < self.tail().len() && self.tail()[io] == symbol);
                assert(spec_build_tail(self.tail(), symbol, n).len() == self.tail().len() - io);
                assert(io == 0);
            }
            assert(!self.tail().contains(symbol));
        }

        let id = Self::permutation_id(&self.tail_of_string, symbol);

        if self.has_seen(id) {
            let penalty: usize = if self.seen_next_tail_as_well(&tail_of_string, n) {
                2
            } else {
                1
            };
            return self.candidate_with_wasted_symbol(tail_of_string, penalty);
        }

        self.candidate_with_new_permutation(tail_of_string, id)
    }

    /// Expand into one child per candidate next symbol: every symbol in
    /// `0..n` except the window's last (a repeated symbol can never begin a
    /// new permutation), in ascending order — exactly `n - 1` children.
    /// Coverage only grows and waste only increases from parent to child.
    pub fn expand(self, upper_bound: usize, n: usize) -> (children: Vec<Candidate>)
        requires
            self.wf(n),
            n <= 20,
            self.wasted_symbols + 2 <= usize::MAX,
        ensures
            children@.len() == n - 1,
            forall|k: int|
                0 <= k < children@.len() ==> {
                    let sym = expansion_symbol(k, self.tail().last());
                    &&& (#[trigger] children@[k]).wf(n)
                    &&& children@[k].tail() == spec_build_tail(self.tail(), sym, n)
                    &&& children@[k].seen_set() == self.spec_child_seen(
                        sym,
                        self.seen_set().len() == upper_bound,
                        n,
                    )
                    &&& children@[k].wasted_symbols == self.wasted_symbols + self.spec_penalty(
                        sym,
                        self.seen_set().len() == upper_bound,
                        n,
                    )
                },
            forall|k: int|
                0 <= k < children@.len() ==> self.seen_set().subset_of(
                    (#[trigger] children@[k]).seen_set(),
                ) && self.wasted_symbols <= children@[k].wasted_symbols,
    {
        let last_symbol = self.tail_of_string[self.tail_of_string.len() - 1];
        let at_upper_bound = self.number_of_permutations() == upper_bound;
        let ghost at_ub = (self.seen_set().len() == upper_bound);

        let mut children: Vec<Candidate> = Vec::new();
        let mut s: usize = 0;
        while s < n
            invariant
                self.wf(n),
                n <= 20,
                self.wasted_symbols + 2 <= usize::MAX,
                s <= n,
                last_symbol == self.tail().last(),
                last_symbol < n,
                at_upper_bound == at_ub,
                at_ub == (self.seen_set().len() == upper_bound),
                children@.len() == (if s <= last_symbol {
                    s as int
                } else {
                    s - 1
                }),
                forall|k: int|
                    0 <= k < children@.len() ==> {
                        let sym = expansion_symbol(k, self.tail().last());
                        &&& (#[trigger] children@[k]).wf(n)
                        &&& children@[k].tail() == spec_build_tail(self.tail(), sym, n)
                        &&& children@[k].seen_set() == self.spec_child_seen(sym, at_ub, n)
                        &&& children@[k].wasted_symbols == self.wasted_symbols
                            + self.spec_penalty(sym, at_ub, n)
                    },
            decreases n - s,
        {
            if s != last_symbol {
                let child = self.expand_one(s, at_upper_bound, n);
                children.push(child);
            }
            s += 1;
        }

        proof {
            assert forall|k: int|
                0 <= k < children@.len() implies self.seen_set().subset_of(
                (#[trigger] children@[k]).seen_set(),
            ) && self.wasted_symbols <= children@[k].wasted_symbols by {
                let sym = expansion_symbol(k, self.tail().last());
                assert(children@[k].seen_set() == self.spec_child_seen(sym, at_ub, n));
            }
        }
        children
    }

    /// On a full window the admissible estimate vanishes, so the priority key
    /// is the incurred waste exactly.  Every terminal state has a full
    /// window, because only appends onto a full window complete a
    /// permutation, so a terminal state's estimate equals its waste.
    pub proof fn lemma_full_window_estimate_exact(self, n: usize)
        requires
            self.wf(n),
            self.wasted_symbols + n <= usize::MAX,
            self.tail().len() == n - 1,
        ensures
            self.spec_total_waste(n) == self.wasted_symbols,
    {
    }

    /// Coverage and waste are monotone from parent to child, and they trade
    /// off exactly: a child either covers one new permutation and wastes
    /// nothing, or covers nothing new and wastes one or two symbols — and a
    /// child that covers a new permutation always has a full window.
    pub proof fn lemma_child_monotone(self, symbol: usize, at_upper_bound: bool, n: usize)
        requires
            self.wf(n),
        ensures
            self.seen_set().subset_of(self.spec_child_seen(symbol, at_upper_bound, n)),
            self.completes_new(symbol, at_upper_bound, n) ==> {
                &&& self.spec_penalty(symbol, at_upper_bound, n) == 0
                &&& self.spec_child_seen(symbol, at_upper_bound, n) == self.seen_set().insert(
                    self.candidate_id(symbol),
                )
                &&& self.spec_child_seen(symbol, at_upper_bound, n).len() == self.seen_set().len()
                    + 1
                &&& spec_build_tail(self.tail(), symbol, n).len() == n - 1
            },
            !self.completes_new(symbol, at_upper_bound, n) ==> {
                &&& self.spec_child_seen(symbol, at_upper_bound, n) == self.seen_set()
                &&& 1 <= self.spec_penalty(symbol, at_upper_bound, n) <= 2
            },
    {
    }
}

} // verus!

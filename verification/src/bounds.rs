//! Ledger of proven waste bounds, indexed by permutation-coverage count.
//!
//! For each coverage count the ledger keeps the best proven lower bound on
//! the waste needed to reach that count, a derived upper bound
//! (`lower bound + lower bound at index 0`, the self-similarity formula),
//! and a normalized threshold (`lower bound - lower bound at index 0`).
//! Bounds only ever tighten: lower bounds grow, upper bounds shrink.

use vstd::prelude::*;

verus! {

/// `max` on two machine integers, used by the range-extension seeding rule.
pub open spec fn max_usize(a: usize, b: usize) -> usize {
    if a >= b {
        a
    } else {
        b
    }
}

/// The normalized threshold stored beside a lower bound: the bound minus the
/// anchor bound at index 0, floored at zero so that a degenerate submission
/// below the anchor can never underflow.
pub open spec fn threshold_of(bound: usize, base: usize) -> usize {
    if bound >= base {
        (bound - base) as usize
    } else {
        0
    }
}

/// Addition that saturates at `usize::MAX`; since `usize::MAX` stands for an
/// unbounded upper bound, an overflowing sum stays unbounded.
pub open spec fn cap_add(a: usize, b: usize) -> usize {
    if a + b <= usize::MAX {
        (a + b) as usize
    } else {
        usize::MAX
    }
}

/// Tables of proven bounds on the waste needed to reach each coverage count.
pub struct Bounds {
    lower_bounds: Vec<usize>,
    upper_bounds: Vec<usize>,
    thresholds: Vec<usize>,
}

impl Bounds {
    /// The table of lower bounds, indexed by coverage count.
    pub closed spec fn lower_seq(self) -> Seq<usize> {
        self.lower_bounds@
    }

    /// The table of derived upper bounds, indexed by coverage count.
    pub closed spec fn upper_seq(self) -> Seq<usize> {
        self.upper_bounds@
    }

    /// The table of normalized thresholds, indexed by coverage count.
    pub closed spec fn threshold_seq(self) -> Seq<usize> {
        self.thresholds@
    }

    /// The three tables always cover the same range of coverage counts, and
    /// index 0 (the anchor) is always present.
    pub open spec fn wf(self) -> bool {
        &&& self.lower_seq().len() == self.upper_seq().len()
        &&& self.lower_seq().len() == self.threshold_seq().len()
        &&& self.lower_seq().len() >= 1
    }

    /// How `add_new_index` extends the tracked range out to `index`: every new
    /// index is seeded with the submitted bound or the last known lower bound,
    /// whichever is greater; every upper bound strictly between the old last
    /// index and `index` collapses onto its own lower bound, since a tighter
    /// successor is known from the start; the upper bound at `index` itself is
    /// derived by the self-similarity formula; and every previously tracked
    /// bound, the anchor's unbounded upper bound included, stays as it was.
    pub open spec fn grown_to(self, post: Bounds, index: int, bound: usize) -> bool {
        let prev_len = self.lower_seq().len() as int;
        let seeded = max_usize(bound, self.lower_seq()[prev_len - 1]);
        &&& post.lower_seq().len() == index + 1
        &&& post.upper_seq().len() == index + 1
        &&& post.threshold_seq().len() == index + 1
        &&& (forall|i: int| 0 <= i < prev_len ==> post.lower_seq()[i] == self.lower_seq()[i])
        &&& (forall|i: int| prev_len <= i <= index ==> post.lower_seq()[i] == seeded)
        &&& (forall|i: int|
            0 <= i < prev_len ==> post.threshold_seq()[i] == self.threshold_seq()[i])
        &&& (forall|i: int|
            prev_len <= i <= index ==> post.threshold_seq()[i] == threshold_of(
                seeded,
                self.lower_seq()[0],
            ))
        &&& (forall|i: int| 0 <= i < prev_len ==> post.upper_seq()[i] == self.upper_seq()[i])
        &&& (forall|i: int| prev_len <= i < index ==> post.upper_seq()[i] == post.lower_seq()[i])
        &&& post.upper_seq()[index] == cap_add(seeded, self.lower_seq()[0])
    }

    /// A fresh ledger: index 0 is the anchor, seeded with lower bound 0 and an
    /// unbounded upper bound.
    pub fn new() -> (b: Bounds)
        ensures
            b.wf(),
            b.lower_seq() == seq![0usize],
            b.upper_seq() == seq![usize::MAX],
            b.threshold_seq() == seq![0usize],
    {
        let mut lower_bounds: Vec<usize> = Vec::new();
        let mut upper_bounds: Vec<usize> = Vec::new();
        let mut thresholds: Vec<usize> = Vec::new();
        lower_bounds.push(0);
        upper_bounds.push(usize::MAX);
        thresholds.push(0);
        proof {
            assert(lower_bounds@ =~= seq![0usize]);
            assert(upper_bounds@ =~= seq![usize::MAX]);
            assert(thresholds@ =~= seq![0usize]);
        }
        Bounds { lower_bounds, upper_bounds, thresholds }
    }

    /// Record that reaching coverage count `index` needs at least `bound`
    /// wasted symbols.  Extends the tracked range if `index` is new, tightens
    /// the stored bound if `bound` beats it, and otherwise changes nothing.
    /// Returns whether anything changed: `false` exactly when `index` was
    /// already tracked with a lower bound at least as large.
    pub fn update(&mut self, index: usize, bound: usize) -> (changed: bool)
        requires
            old(self).wf(),
            index < usize::MAX,
        ensures
            final(self).wf(),
            old(self).lower_seq().len() <= index ==> changed && old(self).grown_to(
                *final(self),
                index as int,
                bound,
            ),
            index < old(self).lower_seq().len() && old(self).lower_seq()[index as int] < bound
                ==> changed && final(self).lower_seq() == old(self).lower_seq().update(
                index as int,
                bound,
            ) && final(self).threshold_seq() == old(self).threshold_seq().update(
                index as int,
                threshold_of(bound, final(self).lower_seq()[0]),
            ) && final(self).upper_seq() == old(self).upper_seq(),
            index < old(self).lower_seq().len() && old(self).lower_seq()[index as int] >= bound
                ==> !changed && final(self).lower_seq() == old(self).lower_seq() && final(self).upper_seq()
                == old(self).upper_seq() && final(self).threshold_seq() == old(self).threshold_seq(),
    {
        if self.lower_bounds.len() <= index {
            self.add_new_index(index, bound);
            return true;
        }
        if self.lower_bounds[index] < bound {
            self.increase_lower_bound(index, bound);
            return true;
        }
        false
    }

    /// Extend the tracked range out to a new largest coverage count `index`,
    /// seeding every newly introduced entry as `grown_to` describes.
    pub fn add_new_index(&mut self, index: usize, bound: usize)
        requires
            old(self).wf(),
            old(self).lower_seq().len() <= index,
            index < usize::MAX,
        ensures
            final(self).wf(),
            old(self).grown_to(*final(self), index as int, bound),
    {
        let ghost prev = *old(self);
        let previous_len = self.lower_bounds.len();
        let last_bound = self.lower_bounds[previous_len - 1];
        let seeded = if bound >= last_bound {
            bound
        } else {
            last_bound
        };

        while self.lower_bounds.len() <= index
            invariant
                previous_len <= self.lower_bounds@.len() <= index + 1,
                self.lower_bounds@.len() == self.upper_bounds@.len(),
                self.lower_bounds@.len() == self.thresholds@.len(),
                forall|i: int|
                    0 <= i < previous_len ==> self.lower_bounds@[i] == prev.lower_seq()[i],
                forall|i: int|
                    0 <= i < previous_len ==> self.upper_bounds@[i] == prev.upper_seq()[i],
                forall|i: int|
                    0 <= i < previous_len ==> self.thresholds@[i] == prev.threshold_seq()[i],
                index < usize::MAX,
            decreases index + 1 - self.lower_bounds@.len(),
        {
            self.lower_bounds.push(0);
            self.upper_bounds.push(usize::MAX);
            self.thresholds.push(0);
        }

        let mut i = previous_len;
        while i <= index
            invariant
                previous_len <= i <= index + 1,
                self.lower_bounds@.len() == index + 1,
                self.upper_bounds@.len() == index + 1,
                self.thresholds@.len() == index + 1,
                previous_len >= 1,
                forall|k: int|
                    0 <= k < previous_len ==> self.lower_bounds@[k] == prev.lower_seq()[k],
                forall|k: int|
                    0 <= k < previous_len ==> self.upper_bounds@[k] == prev.upper_seq()[k],
                forall|k: int|
                    0 <= k < previous_len ==> self.thresholds@[k] == prev.threshold_seq()[k],
                forall|k: int| previous_len <= k < i ==> self.lower_bounds@[k] == seeded,
                forall|k: int|
                    previous_len <= k < i ==> self.thresholds@[k] == threshold_of(
                        seeded,
                        prev.lower_seq()[0],
                    ),
                index < usize::MAX,
            decreases index + 1 - i,
        {
            self.increase_lower_bound(i, seeded);
            i += 1;
        }

        let mut j = previous_len;
        while j < index
            invariant
                previous_len <= j <= index,
                self.lower_bounds@.len() == index + 1,
                self.upper_bounds@.len() == index + 1,
                self.thresholds@.len() == index + 1,
                previous_len >= 1,
                forall|k: int|
                    0 <= k < previous_len ==> self.lower_bounds@[k] == prev.lower_seq()[k],
                forall|k: int| previous_len <= k <= index ==> self.lower_bounds@[k] == seeded,
                forall|k: int|
                    0 <= k < previous_len ==> self.thresholds@[k] == prev.threshold_seq()[k],
                forall|k: int|
                    previous_len <= k <= index ==> self.thresholds@[k] == threshold_of(
                        seeded,
                        prev.lower_seq()[0],
                    ),
                forall|k: int|
                    0 <= k < previous_len ==> self.upper_bounds@[k] == prev.upper_seq()[k],
                forall|k: int|
                    previous_len <= k < j ==> self.upper_bounds@[k] == self.lower_bounds@[k],
            decreases index - j,
        {
            self.fix_upper_bound(j);
            j += 1;
        }

        self.decrease_upper_bound(index);
    }

    /// Tighten the lower bound at `index` to `bound` and refresh the
    /// normalized threshold stored beside it.
    pub fn increase_lower_bound(&mut self, index: usize, bound: usize)
        requires
            old(self).wf(),
            index < old(self).lower_seq().len(),
        ensures
            final(self).wf(),
            final(self).lower_seq() == old(self).lower_seq().update(index as int, bound),
            final(self).threshold_seq() == old(self).threshold_seq().update(
                index as int,
                threshold_of(bound, final(self).lower_seq()[0]),
            ),
            final(self).upper_seq() == old(self).upper_seq(),
    {
        self.lower_bounds.set(index, bound);
        let base = self.lower_bounds[0];
        let t = if bound >= base {
            bound - base
        } else {
            0
        };
        self.thresholds.set(index, t);
    }

    /// Collapse the upper bound at `index` onto its own lower bound: a newly
    /// introduced index strictly before the new last one has no forward
    /// slack, a tighter successor being known from the start.
    pub fn fix_upper_bound(&mut self, index: usize)
        requires
            old(self).wf(),
            index < old(self).lower_seq().len(),
        ensures
            final(self).wf(),
            final(self).upper_seq() == old(self).upper_seq().update(
                index as int,
                final(self).lower_seq()[index as int],
            ),
            final(self).lower_seq() == old(self).lower_seq(),
            final(self).threshold_seq() == old(self).threshold_seq(),
    {
        let v = self.lower_bounds[index];
        self.upper_bounds.set(index, v);
    }

    /// Recompute the upper bound at `index` by the self-similarity formula:
    /// the lower bound there plus the anchor lower bound at index 0.
    pub fn decrease_upper_bound(&mut self, index: usize)
        requires
            old(self).wf(),
            index < old(self).lower_seq().len(),
        ensures
            final(self).wf(),
            final(self).upper_seq() == old(self).upper_seq().update(
                index as int,
                cap_add(final(self).lower_seq()[index as int], final(self).lower_seq()[0]),
            ),
            final(self).lower_seq() == old(self).lower_seq(),
            final(self).threshold_seq() == old(self).threshold_seq(),
    {
        let a = self.lower_bounds[index];
        let b = self.lower_bounds[0];
        let v = if a <= usize::MAX - b {
            a + b
        } else {
            usize::MAX
        };
        self.upper_bounds.set(index, v);
    }

    /// The number of coverage counts currently tracked.
    pub fn tracked_range(&self) -> (n: usize)
        requires
            self.wf(),
        ensures
            n == self.lower_seq().len(),
    {
        self.lower_bounds.len()
    }

    /// Point query: the proven lower bound on waste at coverage count `index`.
    pub fn lower_bound(&self, index: usize) -> (b: usize)
        requires
            self.wf(),
            index < self.lower_seq().len(),
        ensures
            b == self.lower_seq()[index as int],
    {
        self.lower_bounds[index]
    }

    /// Point query: the derived upper bound on waste at coverage count `index`.
    pub fn upper_bound(&self, index: usize) -> (b: usize)
        requires
            self.wf(),
            index < self.upper_seq().len(),
        ensures
            b == self.upper_seq()[index as int],
    {
        self.upper_bounds[index]
    }

    /// Point query: the normalized threshold at coverage count `index`.
    pub fn threshold(&self, index: usize) -> (t: usize)
        requires
            self.wf(),
            index < self.threshold_seq().len(),
        ensures
            t == self.threshold_seq()[index as int],
    {
        self.thresholds[index]
    }
}

} // verus!

//! The pool of not-yet-expanded search states, ordered for best-first
//! exploration: primary key total waste estimate ascending, secondary key
//! coverage count descending.  The two-level priority structure comes from
//! the `bucket_queue` crate and is opaque to the verifier; its contents are
//! modelled as a multiset of entries `(waste key, coverage key, covered set,
//! window, wasted symbols)`.

use bucket_queue::{BucketQueue, FirstInFirstOutQueue, Queue};
use std::collections::VecDeque;
use vstd::multiset::Multiset;
use vstd::prelude::*;

use crate::candidate::Candidate;

verus! {

/// What the frontier knows of one pending state: the priority keys it was
/// filed under, and the state's own model.
pub type Entry = (usize, usize, Set<usize>, Seq<usize>, usize);

/// The nested bucket queue holding the pending states, opaque to the
/// verifier: an outer bucket per waste estimate, an inner bucket per
/// coverage count.
#[verifier::external_body]
pub struct Buckets {
    queue: BucketQueue<BucketQueue<VecDeque<Candidate>>>,
}

/// The multiset of entries the queue currently holds.
pub uninterp spec fn bucket_entries(q: Buckets) -> Multiset<Entry>;

/// The entry a state is filed under when added with keys `(waste, coverage)`.
pub open spec fn entry_of(c: Candidate, waste: usize, coverage: usize) -> Entry {
    (waste, coverage, c.seen_set(), c.tail(), c.wasted_symbols)
}

/// Removing `c` turned the pending entries `pre` into `post`, and `c` was a
/// best pending state: it was filed under the least waste key present, with
/// the greatest coverage key at that waste level.
pub open spec fn removed_best(pre: Multiset<Entry>, post: Multiset<Entry>, c: Candidate) -> bool {
    exists|waste: usize, coverage: usize|
        {
            &&& #[trigger] pre.count(entry_of(c, waste, coverage)) > 0
            &&& post == pre.remove(entry_of(c, waste, coverage))
            &&& (forall|x: Entry| pre.count(x) > 0 ==> waste <= x.0)
            &&& (forall|x: Entry| pre.count(x) > 0 && x.0 == waste ==> x.1 <= coverage)
        }
}

/// Relies on bucket_queue::BucketQueue::new: a queue with no buckets.
#[verifier::external_body]
fn buckets_new() -> (q: Buckets)
    ensures
        bucket_entries(q) == Multiset::<Entry>::empty(),
{
    Buckets { queue: BucketQueue::new() }
}

/// Relies on Queue::bucket_for_adding and FirstInFirstOutBucket::enqueue:
/// the candidate is stored in the inner bucket at `(waste, coverage)` and
/// nothing else moves.
#[verifier::external_body]
fn buckets_add(q: &mut Buckets, candidate: Candidate, waste: usize, coverage: usize)
    ensures
        bucket_entries(*final(q)) == bucket_entries(*old(q)).insert(
            entry_of(candidate, waste, coverage),
        ),
{
    q.queue.bucket_for_adding(waste).enqueue(candidate, coverage);
}

/// Relies on Queue::min_priority, Queue::max_priority,
/// Queue::bucket_for_removing and FirstInFirstOutQueue::dequeue: the removed
/// candidate comes from the least-waste outer bucket and, within it, the
/// greatest-coverage inner bucket; it is returned with the keys it was filed
/// under, and only that one entry leaves the queue.
#[verifier::external_body]
fn buckets_next(q: &mut Buckets) -> (r: Option<(usize, usize, Candidate)>)
    ensures
        match r {
            None => bucket_entries(*old(q)).len() == 0 && bucket_entries(*final(q))
                == bucket_entries(*old(q)),
            Some((waste, coverage, c)) => {
                let e = entry_of(c, waste, coverage);
                &&& bucket_entries(*old(q)).count(e) > 0
                &&& bucket_entries(*final(q)) == bucket_entries(*old(q)).remove(e)
                &&& forall|x: Entry| bucket_entries(*old(q)).count(x) > 0 ==> waste <= x.0
                &&& forall|x: Entry|
                    bucket_entries(*old(q)).count(x) > 0 && x.0 == waste ==> x.1 <= coverage
            },
        },
{
    let waste = q.queue.min_priority()?;
    let bucket = q.queue.bucket_for_removing(waste)?;
    let coverage = bucket.max_priority()?;
    let candidate = bucket.dequeue(coverage)?;
    Some((waste, coverage, candidate))
}

/// Relies on BucketQueue::len: the total number of stored items.
#[verifier::external_body]
fn buckets_len(q: &Buckets) -> (n: usize)
    ensures
        n == bucket_entries(*q).len(),
{
    q.queue.len()
}

/// Relies on Queue::bucket_for_peeking and BucketQueue::len: the number of
/// items stored in the outer bucket for `waste`.
#[verifier::external_body]
fn buckets_len_at(q: &Buckets, waste: usize) -> (n: usize)
    ensures
        n == bucket_entries(*q).filter(|x: Entry| x.0 == waste).len(),
{
    match q.queue.bucket_for_peeking(waste) {
        Some(b) => b.len(),
        None => 0,
    }
}

/// Relies on Queue::min_priority: the least waste key present, if any.
#[verifier::external_body]
fn buckets_min(q: &Buckets) -> (r: Option<usize>)
    ensures
        match r {
            None => bucket_entries(*q).len() == 0,
            Some(w) => (exists|x: Entry| bucket_entries(*q).count(x) > 0 && x.0 == w) && (forall|
                x: Entry,
            | bucket_entries(*q).count(x) > 0 ==> w <= x.0),
        },
{
    q.queue.min_priority()
}

/// Relies on Queue::max_priority: the greatest waste key present, if any.
#[verifier::external_body]
fn buckets_max(q: &Buckets) -> (r: Option<usize>)
    ensures
        match r {
            None => bucket_entries(*q).len() == 0,
            Some(w) => (exists|x: Entry| bucket_entries(*q).count(x) > 0 && x.0 == w) && (forall|
                x: Entry,
            | bucket_entries(*q).count(x) > 0 ==> x.0 <= w),
        },
{
    q.queue.max_priority()
}

/// The frontier: owns all pending states; removal transfers ownership out.
pub struct Frontier {
    priority_queue: Buckets,
}

impl Frontier {
    /// The multiset of entries currently pending.
    pub closed spec fn contents(self) -> Multiset<Entry> {
        bucket_entries(self.priority_queue)
    }

    /// An empty frontier.
    pub fn new() -> (f: Frontier)
        ensures
            f.contents() == Multiset::<Entry>::empty(),
    {
        Frontier { priority_queue: buckets_new() }
    }

    /// File `candidate` under its total waste estimate (primary key,
    /// ascending) and its coverage count (secondary key, descending).
    pub fn add(&mut self, candidate: Candidate, n: usize)
        requires
            candidate.wf(n),
            candidate.wasted_symbols + n <= usize::MAX,
        ensures
            final(self).contents() == old(self).contents().insert(
                entry_of(
                    candidate,
                    candidate.spec_total_waste(n),
                    candidate.seen_set().len() as usize,
                ),
            ),
    {
        let waste = candidate.total_waste(n);
        let permutations = candidate.number_of_permutations();
        buckets_add(&mut self.priority_queue, candidate, waste, permutations);
    }

    /// Remove and return a best state: least waste estimate, ties broken by
    /// greatest coverage count.  Yields nothing exactly when the frontier is
    /// empty.
    pub fn next(&mut self) -> (r: Option<Candidate>)
        ensures
            r is None ==> old(self).contents().len() == 0 && final(self).contents() == old(
                self,
            ).contents(),
            r matches Some(c) ==> removed_best(
                old(self).contents(),
                final(self).contents(),
                c,
            ),
    {
        match buckets_next(&mut self.priority_queue) {
            Some((waste, coverage, candidate)) => {
                proof {
                    assert(old(self).contents().count(entry_of(candidate, waste, coverage)) > 0);
                    assert(final(self).contents() == old(self).contents().remove(
                        entry_of(candidate, waste, coverage),
                    ));
                    assert forall|x: Entry| old(self).contents().count(x) > 0 implies waste
                        <= x.0 by {
                        assert(bucket_entries(old(self).priority_queue).count(x) > 0);
                    }
                    assert forall|x: Entry|
                        old(self).contents().count(x) > 0 && x.0 == waste implies x.1
                        <= coverage by {
                        assert(bucket_entries(old(self).priority_queue).count(x) > 0);
                    }
                    assert(removed_best(
                        old(self).contents(),
                        final(self).contents(),
                        candidate,
                    ));
                }
                Some(candidate)
            },
            None => None,
        }
    }

    /// How many states are pending in total.
    pub fn len(&self) -> (n: usize)
        ensures
            n == self.contents().len(),
    {
        buckets_len(&self.priority_queue)
    }

    /// How many states are pending at the waste level `wasted_symbols`; zero
    /// exactly when that level is fully drained.
    pub fn len_for_waste(&self, wasted_symbols: usize) -> (n: usize)
        ensures
            n == self.contents().filter(|x: Entry| x.0 == wasted_symbols).len(),
    {
        buckets_len_at(&self.priority_queue, wasted_symbols)
    }

    /// The least waste estimate pending, if any.
    pub fn min_waste(&self) -> (r: Option<usize>)
        ensures
            match r {
                None => self.contents().len() == 0,
                Some(w) => (exists|x: Entry| self.contents().count(x) > 0 && x.0 == w) && (forall|
                    x: Entry,
                | self.contents().count(x) > 0 ==> w <= x.0),
            },
    {
        let r = buckets_min(&self.priority_queue);
        proof {
            match r {
                Some(w) => {
                    let x0 = choose|x: Entry|
                        bucket_entries(self.priority_queue).count(x) > 0 && x.0 == w;
                    assert(self.contents().count(x0) > 0 && x0.0 == w);
                    assert forall|x: Entry| self.contents().count(x) > 0 implies w <= x.0 by {
                        assert(bucket_entries(self.priority_queue).count(x) > 0);
                    }
                },
                None => {},
            }
        }
        r
    }

    /// The greatest waste estimate pending, if any.
    pub fn max_waste(&self) -> (r: Option<usize>)
        ensures
            match r {
                None => self.contents().len() == 0,
                Some(w) => (exists|x: Entry| self.contents().count(x) > 0 && x.0 == w) && (forall|
                    x: Entry,
                | self.contents().count(x) > 0 ==> x.0 <= w),
            },
    {
        let r = buckets_max(&self.priority_queue);
        proof {
            match r {
                Some(w) => {
                    let x0 = choose|x: Entry|
                        bucket_entries(self.priority_queue).count(x) > 0 && x.0 == w;
                    assert(self.contents().count(x0) > 0 && x0.0 == w);
                    assert forall|x: Entry| self.contents().count(x) > 0 implies x.0 <= w by {
                        assert(bucket_entries(self.priority_queue).count(x) > 0);
                    }
                },
                None => {},
            }
        }
        r
    }
}

} // verus!

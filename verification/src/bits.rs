//! Compact bit-indexed membership for permutation ids, backed by the
//! `bit_set` crate.  The verifier sees `SeenSet` as opaque; its contents are
//! modelled by `bits`, the set of integers whose bits are set, and every
//! operation the search uses is specified against that model.

use bit_set::BitSet;
use vstd::prelude::*;

verus! {

/// A set of permutation ids with O(1)-ish membership test, held in a bit
/// vector sized to the id range at construction.
#[verifier::external_body]
pub struct SeenSet {
    set: BitSet,
}

/// The set of integers whose bits are set in `s`.
pub uninterp spec fn bits(s: SeenSet) -> Set<usize>;

/// Relies on bit_set::BitSet::with_capacity: a freshly allocated set with no
/// bits set (the capacity is not observable here).
#[verifier::external_body]
fn bits_with_capacity(nbits: usize) -> (s: SeenSet)
    ensures
        bits(s) == Set::<usize>::empty(),
{
    SeenSet { set: BitSet::with_capacity(nbits) }
}

/// Relies on bit_set::BitSet::insert: sets the bit for `value`, growing the
/// underlying bit vector if needed; no other bit changes.
#[verifier::external_body]
fn bits_insert(s: &mut SeenSet, value: usize)
    ensures
        bits(*final(s)) == bits(*old(s)).insert(value),
{
    s.set.insert(value);
}

/// Relies on bit_set::BitSet::contains: whether the bit for `value` is set.
#[verifier::external_body]
fn bits_contains(s: &SeenSet, value: usize) -> (r: bool)
    ensures
        r == bits(*s).contains(value),
{
    s.set.contains(value)
}

/// Relies on bit_set::BitSet::count: the number of set bits, which is the
/// cardinality of the modelled set.
#[verifier::external_body]
fn bits_count(s: &SeenSet) -> (r: usize)
    ensures
        r == bits(*s).len(),
{
    s.set.count()
}

/// Relies on bit_set's Clone implementation: the copy has exactly the same
/// bits set.
#[verifier::external_body]
fn bits_clone(s: &SeenSet) -> (r: SeenSet)
    ensures
        bits(r) == bits(*s),
{
    SeenSet { set: s.set.clone() }
}

impl SeenSet {
    /// An empty set, with capacity for ids below `nbits`.
    pub fn with_capacity(nbits: usize) -> (s: SeenSet)
        ensures
            bits(s) == Set::<usize>::empty(),
    {
        bits_with_capacity(nbits)
    }

    /// Add `value` to the set.
    pub fn insert(&mut self, value: usize)
        ensures
            bits(*final(self)) == bits(*old(self)).insert(value),
    {
        bits_insert(self, value);
    }

    /// Whether `value` is in the set.
    pub fn contains(&self, value: usize) -> (r: bool)
        ensures
            r == bits(*self).contains(value),
    {
        bits_contains(self, value)
    }

    /// The number of values in the set.
    pub fn count(&self) -> (r: usize)
        ensures
            r == bits(*self).len(),
    {
        bits_count(self)
    }

    /// An independent copy with the same contents.
    pub fn duplicate(&self) -> (r: SeenSet)
        ensures
            bits(r) == bits(*self),
    {
        bits_clone(self)
    }
}

} // verus!

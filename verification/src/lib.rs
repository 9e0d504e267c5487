//! Best-first branch-and-bound search engine for the minimal-superpermutation
//! problem: partial solutions with waste accounting, an admissible cost
//! estimate backed by a ledger of proven waste bounds, and a two-level
//! priority frontier.
//!
//! The crate assumes a 64-bit `usize`: the permutation-id contracts in `perm`
//! admit alphabet sizes up to 20, whose factorials fit a 64-bit word only.

pub mod bits;
pub mod candidate;
pub mod frontier;
pub mod bounds;
pub mod perm;

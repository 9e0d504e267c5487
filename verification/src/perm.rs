//! Permutation ids by the factorial number system (Lehmer encoding).
//!
//! A window of `n` distinct symbols drawn from `0..n` is assigned the integer
//! `lehmer_value`: the first symbol contributes its Lehmer digit (the number
//! of smaller symbols after it) weighted by `(n-1)!`, and the rest of the
//! window contributes recursively.  The encoding is computed by the `lehmer`
//! crate; this module states what it returns and proves the facts the search
//! needs about the encoding itself.

use vstd::prelude::*;

verus! {

/// The factorial function: the number of permutations of `n` symbols.
pub open spec fn fact(n: nat) -> nat
    decreases n,
{
    if n == 0 {
        1
    } else {
        n * fact((n - 1) as nat)
    }
}

/// How many elements of `s` are strictly smaller than `v`.
pub open spec fn count_lt(s: Seq<usize>, v: usize) -> nat
    decreases s.len(),
{
    if s.len() == 0 {
        0
    } else {
        (if s[0] < v {
            1nat
        } else {
            0nat
        }) + count_lt(s.skip(1), v)
    }
}

/// The Lehmer encoding of a window: the number of later, smaller symbols
/// weighted by the factorial of the positions remaining, summed left to right.
pub open spec fn lehmer_value(s: Seq<usize>) -> nat
    decreases s.len(),
{
    if s.len() == 0 {
        0
    } else {
        count_lt(s.skip(1), s[0]) * fact((s.len() - 1) as nat) + lehmer_value(s.skip(1))
    }
}

/// Every element of `s` is below `n`.
pub open spec fn below(s: Seq<usize>, n: usize) -> bool {
    forall|i: int| 0 <= i < s.len() ==> s[i] < n
}

/// `s` is an ordering of the `n` symbols `0..n`: `n` pairwise distinct values,
/// each below `n`.
pub open spec fn is_permutation(s: Seq<usize>, n: usize) -> bool {
    &&& s.len() == n
    &&& s.no_duplicates()
    &&& below(s, n)
}

/// The identity ordering `0, 1, ..., n-1`, the one covered by the seed state.
pub open spec fn identity_perm(n: nat) -> Seq<usize> {
    Seq::new(n, |i: int| i as usize)
}

/// Relies on lehmer::Lehmer::max_value: the running product `1 * 2 * ... * n`,
/// minus one; that is, the largest permutation id, `n! - 1`.  The product is
/// taken in a `usize`, so admitting `n <= 20` assumes a 64-bit word: on a
/// 32-bit target the product overflows from n = 13 and this contract would
/// not hold.
#[verifier::external_body]
pub(crate) fn max_permutation_id(n: usize) -> (r: usize)
    requires
        n <= 20,
    ensures
        r == fact(n as nat) - 1,
{
    lehmer::Lehmer::max_value(n)
}

/// Relies on lehmer::Lehmer::from_permutation and lehmer::Lehmer::to_decimal:
/// for an ordering of `0..n`, `from_permutation` records for each symbol the
/// number of smaller symbols not yet consumed (its Lehmer digit), and
/// `to_decimal` sums the digits weighted by factorials, which is exactly
/// `lehmer_value`.  The crate packs symbols into a 32-bit mask and multiplies
/// factorials in a `usize`, hence the bound on the length, which assumes a
/// 64-bit word: on a 32-bit target the sum overflows from 13 symbols and
/// this contract would not hold.
#[verifier::external_body]
pub(crate) fn permutation_id_raw(perm: &Vec<usize>) -> (id: usize)
    requires
        is_permutation(perm@, perm@.len() as usize),
        perm@.len() <= 20,
    ensures
        id == lehmer_value(perm@),
{
    let bytes: Vec<u8> = perm.iter().map(|&e| e as u8).collect();
    lehmer::Lehmer::from_permutation(&bytes).to_decimal()
}

/// No element of `s` is smaller than `v`, so none is counted.
pub proof fn lemma_count_lt_zero(s: Seq<usize>, v: usize)
    requires
        forall|i: int| 0 <= i < s.len() ==> s[i] >= v,
    ensures
        count_lt(s, v) == 0,
    decreases s.len(),
{
    if s.len() > 0 {
        lemma_count_lt_zero(s.skip(1), v);
    }
}

/// A strictly increasing window has no later, smaller symbol anywhere, so its
/// Lehmer encoding is zero.  In particular the identity ordering covered by
/// the seed state has permutation id 0.
pub proof fn lemma_increasing_lehmer_zero(s: Seq<usize>)
    requires
        forall|i: int, j: int| 0 <= i < j < s.len() ==> s[i] < s[j],
    ensures
        lehmer_value(s) == 0,
    decreases s.len(),
{
    if s.len() > 0 {
        assert forall|i: int| 0 <= i < s.skip(1).len() implies s.skip(1)[i] >= s[0] by {
            assert(s.skip(1)[i] == s[i + 1]);
        }
        lemma_count_lt_zero(s.skip(1), s[0]);
        lemma_increasing_lehmer_zero(s.skip(1));
    }
}

/// The factorial is positive.
pub proof fn lemma_fact_pos(n: nat)
    ensures
        fact(n) >= 1,
    decreases n,
{
    if n > 0 {
        lemma_fact_pos((n - 1) as nat);
        assert(n * fact((n - 1) as nat) >= 1) by (nonlinear_arith)
            requires
                n >= 1,
                fact((n - 1) as nat) >= 1,
        ;
    }
}

/// A count of elements never exceeds the number of elements.
pub proof fn lemma_count_lt_le(s: Seq<usize>, v: usize)
    ensures
        count_lt(s, v) <= s.len(),
    decreases s.len(),
{
    if s.len() > 0 {
        lemma_count_lt_le(s.skip(1), v);
    }
}

/// The Lehmer encoding of a window of `k` symbols is below `k!`.
pub proof fn lemma_lehmer_bound(s: Seq<usize>)
    ensures
        lehmer_value(s) < fact(s.len()),
    decreases s.len(),
{
    if s.len() == 0 {
    } else {
        let rest = s.skip(1);
        let d = count_lt(rest, s[0]);
        let f1 = fact(rest.len());
        lemma_count_lt_le(rest, s[0]);
        lemma_lehmer_bound(rest);
        lemma_fact_pos(rest.len());
        vstd::arithmetic::mul::lemma_mul_inequality(d as int, rest.len() as int, f1 as int);
        assert(rest.len() * f1 + f1 == s.len() * f1) by (nonlinear_arith)
            requires
                rest.len() + 1 == s.len(),
        ;
        assert(fact(s.len()) == s.len() * f1);
    }
}

/// In the factorial number system a value determines its digits: with both
/// remainders below the weight `f`, equal values force equal digits.
pub proof fn lemma_digit_unique(a: nat, b: nat, c: nat, d: nat, f: nat)
    requires
        b < f,
        d < f,
        a * f + b == c * f + d,
    ensures
        a == c,
        b == d,
{
    if a < c {
        vstd::arithmetic::mul::lemma_mul_inequality(a as int + 1, c as int, f as int);
        assert(a * f + f == (a + 1) * f) by (nonlinear_arith);
        assert(false);
    }
    if c < a {
        vstd::arithmetic::mul::lemma_mul_inequality(c as int + 1, a as int, f as int);
        assert(c * f + f == (c + 1) * f) by (nonlinear_arith);
        assert(false);
    }
}

/// Dropping the first element of a duplicate-free sequence removes exactly
/// that element from the set of its values.
pub proof fn lemma_to_set_skip(s: Seq<usize>)
    requires
        s.len() >= 1,
        s.no_duplicates(),
    ensures
        s.to_set() == s.skip(1).to_set().insert(s[0]),
        !s.skip(1).to_set().contains(s[0]),
        s.skip(1).no_duplicates(),
{
    let rest = s.skip(1);
    assert forall|i: int| 0 <= i < rest.len() implies rest[i] == s[i + 1] by {}
    assert forall|a: usize| s.to_set().contains(a) implies rest.to_set().insert(s[0]).contains(
        a,
    ) by {
        let i = choose|i: int| 0 <= i < s.len() && s[i] == a;
        if i > 0 {
            assert(rest[i - 1] == a);
            assert(rest.contains(a));
        }
    }
    assert forall|a: usize| rest.to_set().insert(s[0]).contains(a) implies s.to_set().contains(
        a,
    ) by {
        if a == s[0] {
            assert(s.contains(a));
        } else {
            let i = choose|i: int| 0 <= i < rest.len() && rest[i] == a;
            assert(s[i + 1] == a);
            assert(s.contains(a));
        }
    }
    assert(s.to_set() =~= rest.to_set().insert(s[0]));
    if rest.to_set().contains(s[0]) {
        let i = choose|i: int| 0 <= i < rest.len() && rest[i] == s[0];
        assert(s[i + 1] == s[0]);
        assert(false);
    }
}

/// For a duplicate-free sequence, how many elements are below `v` is a
/// property of the set of its values alone.
pub proof fn lemma_count_lt_as_set(s: Seq<usize>, v: usize)
    requires
        s.no_duplicates(),
    ensures
        count_lt(s, v) == s.to_set().filter(|x: usize| x < v).len(),
        s.to_set().filter(|x: usize| x < v).finite(),
    decreases s.len(),
{
    broadcast use vstd::set::group_set_axioms;
    broadcast use vstd::seq_lib::seq_to_set_is_finite;

    if s.len() == 0 {
        assert(s.to_set() =~= Set::<usize>::empty());
        assert(s.to_set().filter(|x: usize| x < v) =~= Set::<usize>::empty());
    } else {
        let rest = s.skip(1);
        lemma_to_set_skip(s);
        lemma_count_lt_as_set(rest, v);
        let s0 = rest.to_set().filter(|x: usize| x < v);
        if s[0] < v {
            assert(s.to_set().filter(|x: usize| x < v) =~= s0.insert(s[0]));
            assert(!s0.contains(s[0]));
        } else {
            assert(s.to_set().filter(|x: usize| x < v) =~= s0);
        }
    }
}

/// A subset of a finite set with the same cardinality is the set itself.
pub proof fn lemma_subset_same_len(a: Set<usize>, b: Set<usize>)
    requires
        a.subset_of(b),
        b.finite(),
        a.len() == b.len(),
    ensures
        a == b,
{
    broadcast use vstd::set::group_set_axioms;

    if !(a =~= b) {
        let x = choose|x: usize| b.contains(x) && !a.contains(x);
        assert(a.subset_of(b.remove(x)));
        vstd::set_lib::lemma_len_subset(a, b.remove(x));
        assert(false);
    }
    assert(a =~= b);
}

/// Equal counts of smaller values, within one set of values, pick out equal
/// values: the rank of a value in a finite set determines it.
pub proof fn lemma_rank_unique(values: Set<usize>, x: usize, y: usize)
    requires
        values.finite(),
        values.contains(x),
        values.contains(y),
        values.filter(|e: usize| e < x).len() == values.filter(|e: usize| e < y).len(),
        values.filter(|e: usize| e < x).finite(),
        values.filter(|e: usize| e < y).finite(),
    ensures
        x == y,
{
    broadcast use vstd::set::group_set_axioms;

    if x < y {
        let ax = values.filter(|e: usize| e < x);
        let ay = values.filter(|e: usize| e < y);
        assert(ay.contains(x));
        assert(ax.subset_of(ay.remove(x)));
        vstd::set_lib::lemma_len_subset(ax, ay.remove(x));
        assert(false);
    }
    if y < x {
        let ax = values.filter(|e: usize| e < x);
        let ay = values.filter(|e: usize| e < y);
        assert(ax.contains(y));
        assert(ay.subset_of(ax.remove(y)));
        vstd::set_lib::lemma_len_subset(ay, ax.remove(y));
        assert(false);
    }
}

/// The Lehmer encoding is injective on duplicate-free windows over one set of
/// values: equal encodings force equal windows.
pub proof fn lemma_lehmer_injective(s: Seq<usize>, t: Seq<usize>)
    requires
        s.len() == t.len(),
        s.no_duplicates(),
        t.no_duplicates(),
        s.to_set() == t.to_set(),
        lehmer_value(s) == lehmer_value(t),
    ensures
        s == t,
    decreases s.len(),
{
    broadcast use vstd::set::group_set_axioms;
    broadcast use vstd::seq_lib::seq_to_set_is_finite;

    if s.len() == 0 {
        assert(s =~= t);
    } else {
        let srest = s.skip(1);
        let trest = t.skip(1);
        let f1 = fact(srest.len());
        lemma_to_set_skip(s);
        lemma_to_set_skip(t);
        lemma_lehmer_bound(srest);
        lemma_lehmer_bound(trest);
        lemma_digit_unique(
            count_lt(srest, s[0]),
            lehmer_value(srest),
            count_lt(trest, t[0]),
            lehmer_value(trest),
            f1,
        );

        lemma_count_lt_as_set(srest, s[0]);
        lemma_count_lt_as_set(trest, t[0]);
        // the first symbol is not below itself, so restoring it to the set
        // changes neither count
        assert(srest.to_set().filter(|x: usize| x < s[0]) =~= s.to_set().filter(
            |x: usize| x < s[0],
        ));
        assert(trest.to_set().filter(|x: usize| x < t[0]) =~= t.to_set().filter(
            |x: usize| x < t[0],
        ));
        assert(s.to_set().contains(s[0])) by {
            assert(s.contains(s[0]));
        }
        assert(s.to_set().contains(t[0])) by {
            assert(t.contains(t[0]));
        }
        lemma_rank_unique(s.to_set(), s[0], t[0]);

        assert(srest.to_set() =~= trest.to_set()) by {
            assert(srest.to_set() =~= s.to_set().remove(s[0]));
            assert(trest.to_set() =~= t.to_set().remove(t[0]));
        }
        lemma_lehmer_injective(srest, trest);
        assert forall|i: int| 0 <= i < s.len() implies s[i] == t[i] by {
            if i > 0 {
                assert(s[i] == srest[i - 1] && t[i] == trest[i - 1]);
            }
        }
        assert(s =~= t);
    }
}

/// The set of symbols below `n`.
pub open spec fn symbols_below(n: usize) -> Set<usize> {
    Set::new(|x: usize| x < n)
}

/// The set of symbols below `n` is finite, with exactly `n` members.
pub proof fn lemma_symbols_below_len(n: usize)
    ensures
        symbols_below(n).finite(),
        symbols_below(n).len() == n,
    decreases n,
{
    broadcast use vstd::set::group_set_axioms;

    if n == 0 {
        assert(symbols_below(0) =~= Set::<usize>::empty());
    } else {
        lemma_symbols_below_len((n - 1) as usize);
        assert(symbols_below(n) =~= symbols_below((n - 1) as usize).insert((n - 1) as usize));
    }
}

/// An ordering of the `n` symbols uses each symbol exactly once: the set of
/// its values is exactly the symbols below `n`.
pub proof fn lemma_permutation_values(s: Seq<usize>, n: usize)
    requires
        is_permutation(s, n),
    ensures
        s.to_set() == symbols_below(n),
{
    broadcast use vstd::set::group_set_axioms;
    broadcast use vstd::seq_lib::seq_to_set_is_finite;

    s.unique_seq_to_set();
    lemma_symbols_below_len(n);
    assert forall|a: usize| s.to_set().contains(a) implies symbols_below(n).contains(a) by {
        let i = choose|i: int| 0 <= i < s.len() && s[i] == a;
    }
    lemma_subset_same_len(s.to_set(), symbols_below(n));
}

/// Permutation ids are a bijection: distinct orderings of the `n` symbols
/// never receive the same id (and, the encoding being a function, identical
/// windows always receive identical ids).
pub proof fn lemma_permutation_id_injective(s: Seq<usize>, t: Seq<usize>, n: usize)
    requires
        is_permutation(s, n),
        is_permutation(t, n),
        s != t,
    ensures
        lehmer_value(s) != lehmer_value(t),
{
    if lehmer_value(s) == lehmer_value(t) {
        lemma_permutation_values(s, n);
        lemma_permutation_values(t, n);
        lemma_lehmer_injective(s, t);
        assert(false);
    }
}

} // verus!

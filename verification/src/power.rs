//! Voting-power arithmetic: summation of validator powers over a chosen set
//! of validators, the exact integer quorum and fault thresholds, and the
//! overlap law that any two quorums share more than a fault threshold of
//! power.

use vstd::prelude::*;

verus! {

broadcast use vstd::set::group_set_axioms;

/// The summed power of the validators below `n` that belong to `s`.
pub open spec fn sum_over(powers: Seq<u64>, s: Set<int>, n: int) -> int
    decreases n,
{
    if n <= 0 {
        0
    } else {
        sum_over(powers, s, n - 1) + if s.contains(n - 1) && n - 1 < powers.len() {
            powers[n - 1] as int
        } else {
            0
        }
    }
}

/// The set that contains every validator index.
pub open spec fn everyone() -> Set<int> {
    Set::new(|v: int| true)
}

/// The total voting power of the committee.
pub open spec fn total_of(powers: Seq<u64>) -> int {
    sum_over(powers, everyone(), powers.len() as int)
}

/// Strictly more than two thirds of the total power.
pub open spec fn spec_has_quorum(s: int, t: int) -> bool {
    3 * s > 2 * t
}

/// Strictly more than one third of the total power.
pub open spec fn spec_has_fault_threshold(s: int, t: int) -> bool {
    3 * s > t
}

pub proof fn lemma_sum_nonneg(powers: Seq<u64>, s: Set<int>, n: int)
    ensures
        sum_over(powers, s, n) >= 0,
    decreases n,
{
    if n > 0 {
        lemma_sum_nonneg(powers, s, n - 1);
    }
}

pub proof fn lemma_sum_subset(powers: Seq<u64>, a: Set<int>, b: Set<int>, n: int)
    requires
        a.subset_of(b),
    ensures
        sum_over(powers, a, n) <= sum_over(powers, b, n),
    decreases n,
{
    if n > 0 {
        lemma_sum_subset(powers, a, b, n - 1);
    }
}

pub proof fn lemma_sum_empty(powers: Seq<u64>, s: Set<int>, n: int)
    requires
        forall|v: int| !s.contains(v),
    ensures
        sum_over(powers, s, n) == 0,
    decreases n,
{
    if n > 0 {
        lemma_sum_empty(powers, s, n - 1);
    }
}

/// Summation is modular: the powers of two sets add up to the power of
/// their union plus the power of their intersection.
pub proof fn lemma_sum_inclusion_exclusion(powers: Seq<u64>, a: Set<int>, b: Set<int>, n: int)
    ensures
        sum_over(powers, a, n) + sum_over(powers, b, n) == sum_over(powers, a.union(b), n)
            + sum_over(powers, a.intersect(b), n),
    decreases n,
{
    if n > 0 {
        lemma_sum_inclusion_exclusion(powers, a, b, n - 1);
    }
}

/// Growing the range of a summation never decreases it.
pub proof fn lemma_sum_prefix(powers: Seq<u64>, s: Set<int>, m: int, n: int)
    requires
        m <= n,
    ensures
        sum_over(powers, s, m) <= sum_over(powers, s, n),
    decreases n - m,
{
    if m < n {
        lemma_sum_prefix(powers, s, m, n - 1);
    }
}

/// Quorum overlap: any two groups that each hold strictly more than two
/// thirds of the total power share validators holding strictly more than
/// one third of it. This is the kernel of the agreement argument: as long
/// as faulty validators hold at most one third of the power, two quorums
/// always share an honest validator.
pub proof fn lemma_quorum_intersection(powers: Seq<u64>, a: Set<int>, b: Set<int>)
    requires
        spec_has_quorum(sum_over(powers, a, powers.len() as int), total_of(powers)),
        spec_has_quorum(sum_over(powers, b, powers.len() as int), total_of(powers)),
    ensures
        spec_has_fault_threshold(
            sum_over(powers, a.intersect(b), powers.len() as int),
            total_of(powers),
        ),
{
    let n = powers.len() as int;
    lemma_sum_inclusion_exclusion(powers, a, b, n);
    lemma_sum_subset(powers, a.union(b), everyone(), n);
}

/// Two disjoint groups cannot both hold a quorum: their combined power
/// would exceed the total.
pub proof fn lemma_disjoint_no_two_quorums(powers: Seq<u64>, a: Set<int>, b: Set<int>)
    requires
        a.disjoint(b),
        spec_has_quorum(sum_over(powers, a, powers.len() as int), total_of(powers)),
    ensures
        !spec_has_quorum(sum_over(powers, b, powers.len() as int), total_of(powers)),
{
    let n = powers.len() as int;
    lemma_sum_inclusion_exclusion(powers, a, b, n);
    lemma_sum_subset(powers, a.union(b), everyone(), n);
    lemma_sum_empty(powers, a.intersect(b), n);
    lemma_sum_nonneg(powers, b, n);
}

/// Whether a power sum holds a quorum: strictly more than two thirds of
/// the total power.
pub fn has_quorum(s: u64, t: u64) -> (r: bool)
    ensures
        r == spec_has_quorum(s as int, t as int),
{
    3 * (s as u128) > 2 * (t as u128)
}

/// Whether a power sum crosses the fault threshold: strictly more than one
/// third of the total power.
pub fn has_fault_threshold(s: u64, t: u64) -> (r: bool)
    ensures
        r == spec_has_fault_threshold(s as int, t as int),
{
    3 * (s as u128) > t as u128
}

/// The total power of the committee, summed over every validator.
pub fn total_power(powers: &Vec<u64>) -> (r: u64)
    requires
        total_of(powers@) <= u64::MAX,
    ensures
        r == total_of(powers@),
{
    let mut acc: u64 = 0;
    let mut i: usize = 0;
    while i < powers.len()
        invariant
            i <= powers.len(),
            acc == sum_over(powers@, everyone(), i as int),
            total_of(powers@) <= u64::MAX,
        decreases powers.len() - i,
    {
        proof {
            assert(everyone().contains(i as int));
            assert(sum_over(powers@, everyone(), i as int + 1) == sum_over(
                powers@,
                everyone(),
                i as int,
            ) + powers@[i as int]);
            lemma_sum_nonneg(powers@, everyone(), i as int);
            lemma_sum_prefix(powers@, everyone(), i + 1, powers@.len() as int);
        }
        acc = acc + powers[i];
        i = i + 1;
    }
    acc
}

} // verus!

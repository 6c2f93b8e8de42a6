//! Swap mutation: two distinct positions of an individual exchange genes.
use vstd::prelude::*;

use crate::chance::{happens, random_below, Ratio};
use crate::copy_individual;
use crate::population::{genes_in_range, swapped};

verus! {

/// `t` is `s` with the genes at two distinct positions exchanged.
pub open spec fn is_swap_of(t: Seq<usize>, s: Seq<usize>) -> bool {
    exists|i: int, j: int|
        0 <= i < s.len() && 0 <= j < s.len() && i != j && t == swapped(s, i, j)
}

/// A copy of `ind` with the genes at `i1` and `i2` exchanged.
pub fn swap_at(ind: &Vec<usize>, i1: usize, i2: usize) -> (r: Vec<usize>)
    requires
        i1 < ind@.len(),
        i2 < ind@.len(),
    ensures
        r@ == swapped(ind@, i1 as int, i2 as int),
{
    let mut r = copy_individual(ind);
    let a: usize = r[i1];
    let b: usize = r[i2];
    r.set(i1, b);
    r.set(i2, a);
    assert(r@ =~= swapped(ind@, i1 as int, i2 as int));
    r
}

/// A copy of `ind` with the genes at two distinct, uniformly drawn positions
/// exchanged.
pub fn swap_mut(ind: &Vec<usize>) -> (r: Vec<usize>)
    requires
        ind@.len() >= 2,
    ensures
        is_swap_of(r@, ind@),
{
    let len: usize = ind.len();
    let i1: usize = random_below(len);
    // The `d`-th position other than `i1`: uniform among the others.
    let d: usize = random_below(len - 1);
    let i2: usize = if d < i1 { d } else { d + 1 };
    swap_at(ind, i1, i2)
}

/// The offspring after mutation. Each individual is swap-mutated with
/// probability `mut_prob` and copied unchanged otherwise.
pub fn mutate(offspring: &Vec<Vec<usize>>, mut_prob: Ratio) -> (r: Vec<Vec<usize>>)
    requires
        mut_prob.wf(),
        forall|k: int| 0 <= k < offspring@.len() ==> (#[trigger] offspring@[k])@.len() >= 2,
    ensures
        r@.len() == offspring@.len(),
        forall|k: int| 0 <= k < r@.len()
            ==> (#[trigger] r@[k])@ == offspring@[k]@ || is_swap_of(r@[k]@, offspring@[k]@),
        mut_prob.num == 0 ==> forall|k: int| 0 <= k < r@.len() ==> (#[trigger] r@[k])@ == offspring@[k]@,
        mut_prob.num == mut_prob.den ==> forall|k: int| 0 <= k < r@.len()
            ==> is_swap_of((#[trigger] r@[k])@, offspring@[k]@),
{
    let mut r: Vec<Vec<usize>> = Vec::new();
    let mut k: usize = 0;
    while k < offspring.len()
        invariant
            mut_prob.wf(),
            k <= offspring@.len(),
            r@.len() == k,
            forall|k: int| 0 <= k < offspring@.len() ==> (#[trigger] offspring@[k])@.len() >= 2,
            forall|t: int| 0 <= t < r@.len()
                ==> (#[trigger] r@[t])@ == offspring@[t]@ || is_swap_of(r@[t]@, offspring@[t]@),
            mut_prob.num == 0 ==> forall|t: int| 0 <= t < r@.len() ==> (#[trigger] r@[t])@ == offspring@[t]@,
            mut_prob.num == mut_prob.den ==> forall|t: int| 0 <= t < r@.len()
                ==> is_swap_of((#[trigger] r@[t])@, offspring@[t]@),
        decreases offspring@.len() - k,
    {
        if happens(mut_prob) {
            r.push(swap_mut(&offspring[k]));
        } else {
            r.push(copy_individual(&offspring[k]));
        }
        k = k + 1;
    }
    r
}

/// Swap mutation keeps a permutation a permutation.
pub proof fn lemma_swap_mut_keeps_permutation(t: Seq<usize>, s: Seq<usize>, n: nat)
    requires
        crate::population::is_permutation(s, n),
        is_swap_of(t, s),
    ensures
        crate::population::is_permutation(t, n),
{
    let (i, j) = choose|i: int, j: int|
        0 <= i < s.len() && 0 <= j < s.len() && i != j && t == swapped(s, i, j);
    crate::population::lemma_swap_keeps_permutation(s, n, i, j);
}

/// Mutation keeps the length of an individual, and each gene after it is a
/// gene from before.
pub proof fn lemma_mutation_shape(t: Seq<usize>, s: Seq<usize>, n: nat)
    requires
        t == s || is_swap_of(t, s),
    ensures
        t.len() == s.len(),
        genes_in_range(s, n) ==> genes_in_range(t, n),
{
    if t != s {
        let (i, j) = choose|i: int, j: int|
            0 <= i < s.len() && 0 <= j < s.len() && i != j && t == swapped(s, i, j);
        assert(t == swapped(s, i, j));
    }
}

} // verus!

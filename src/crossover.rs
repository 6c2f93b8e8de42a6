//! One-point crossover over consecutive members of a mating pool.
//!
//! Offspring take each gene from one parent or the other at the same
//! position and are not repaired: a child of two permutations may hold a gene
//! twice.
use vstd::prelude::*;

use crate::chance::{random_below, Ratio};
use crate::population::genes_in_range;

verus! {

/// The child that takes the genes of `p` before position `k` and those of `q`
/// from `k` on.
pub open spec fn cx_child(p: Seq<usize>, q: Seq<usize>, k: int) -> Seq<usize> {
    Seq::new(p.len(), |i: int| if i < k { p[i] } else { q[i] })
}

/// The two offspring of `p1` and `p2` cut at position `k`.
pub fn one_point_cx_at(p1: &Vec<usize>, p2: &Vec<usize>, k: usize) -> (r: (Vec<usize>, Vec<usize>))
    requires
        p1@.len() == p2@.len(),
    ensures
        r.0@ == cx_child(p1@, p2@, k as int),
        r.1@ == cx_child(p2@, p1@, k as int),
{
    let mut o1: Vec<usize> = Vec::new();
    let mut o2: Vec<usize> = Vec::new();
    let mut i: usize = 0;
    while i < p1.len()
        invariant
            p1@.len() == p2@.len(),
            i <= p1@.len(),
            o1@ == cx_child(p1@, p2@, k as int).subrange(0, i as int),
            o2@ == cx_child(p2@, p1@, k as int).subrange(0, i as int),
        decreases p1@.len() - i,
    {
        if i < k {
            o1.push(p1[i]);
            o2.push(p2[i]);
        } else {
            o1.push(p2[i]);
            o2.push(p1[i]);
        }
        i = i + 1;
        assert(o1@ =~= cx_child(p1@, p2@, k as int).subrange(0, i as int));
        assert(o2@ =~= cx_child(p2@, p1@, k as int).subrange(0, i as int));
    }
    assert(o1@ =~= cx_child(p1@, p2@, k as int));
    assert(o2@ =~= cx_child(p2@, p1@, k as int));
    (o1, o2)
}

/// The two offspring of `p1` and `p2` cut at a uniformly drawn position.
pub fn one_point_cx(p1: &Vec<usize>, p2: &Vec<usize>) -> (r: (Vec<usize>, Vec<usize>))
    requires
        p1@.len() == p2@.len(),
        p1@.len() > 0,
    ensures
        exists|k: int|
            0 <= k < p1@.len() && r.0@ == cx_child(p1@, p2@, k) && r.1@ == cx_child(p2@, p1@, k),
{
    let k: usize = random_below(p1.len());
    one_point_cx_at(p1, p2, k)
}

/// `o1` and `o2` are the offspring of `p1` and `p2` for some cut position.
pub open spec fn offspring_of(p1: Seq<usize>, p2: Seq<usize>, o1: Seq<usize>, o2: Seq<usize>) -> bool {
    exists|k: int| 0 <= k < p1.len() && o1 == cx_child(p1, p2, k) && o2 == cx_child(p2, p1, k)
}

/// The next generation before mutation. For each `i` below half the pool's
/// size, `pool[i]` and `pool[i + 1]` are recombined and their two offspring
/// appended, so consecutive pairs overlap and an odd pool loses a slot.
/// Recombination always happens: the crossover probability is not consulted.
pub fn crossover(pool: &Vec<Vec<usize>>, _cx_prob: Ratio) -> (r: Vec<Vec<usize>>)
    requires
        forall|i: int, j: int| 0 <= i < pool@.len() && 0 <= j < pool@.len()
            ==> (#[trigger] pool@[i])@.len() == (#[trigger] pool@[j])@.len(),
        forall|i: int| 0 <= i < pool@.len() ==> (#[trigger] pool@[i])@.len() > 0,
    ensures
        r@.len() == 2 * (pool@.len() / 2),
        forall|i: int| 0 <= i < pool@.len() / 2 ==> offspring_of(
            (#[trigger] pool@[i])@,
            pool@[i + 1]@,
            r@[2 * i]@,
            r@[2 * i + 1]@,
        ),
{
    let half: usize = pool.len() / 2;
    let mut r: Vec<Vec<usize>> = Vec::new();
    let mut i: usize = 0;
    while i < half
        invariant
            half == pool@.len() / 2,
            i <= half,
            r@.len() == 2 * i,
            forall|i: int, j: int| 0 <= i < pool@.len() && 0 <= j < pool@.len()
                ==> (#[trigger] pool@[i])@.len() == (#[trigger] pool@[j])@.len(),
            forall|i: int| 0 <= i < pool@.len() ==> (#[trigger] pool@[i])@.len() > 0,
            forall|t: int| 0 <= t < i ==> offspring_of(
                (#[trigger] pool@[t])@,
                pool@[t + 1]@,
                r@[2 * t]@,
                r@[2 * t + 1]@,
            ),
        decreases half - i,
    {
        let pair = one_point_cx(&pool[i], &pool[i + 1]);
        let ghost before = r@;
        r.push(pair.0);
        r.push(pair.1);
        assert forall|t: int| 0 <= t < i + 1 implies offspring_of(
            (#[trigger] pool@[t])@,
            pool@[t + 1]@,
            r@[2 * t]@,
            r@[2 * t + 1]@,
        ) by {
            if t < i {
                assert(r@[2 * t] == before[2 * t]);
                assert(r@[2 * t + 1] == before[2 * t + 1]);
            }
        }
        i = i + 1;
    }
    r
}

/// Offspring are as long as their parents, and each of their genes is a
/// gene of a parent: parents whose genes name points have offspring whose
/// genes name points.
pub proof fn lemma_offspring_shape(p1: Seq<usize>, p2: Seq<usize>, o1: Seq<usize>, o2: Seq<usize>, n: nat)
    requires
        p1.len() == p2.len(),
        offspring_of(p1, p2, o1, o2),
    ensures
        o1.len() == p1.len(),
        o2.len() == p1.len(),
        genes_in_range(p1, n) && genes_in_range(p2, n) ==> genes_in_range(o1, n) && genes_in_range(o2, n),
{
    let k = choose|k: int| 0 <= k < p1.len() && o1 == cx_child(p1, p2, k) && o2 == cx_child(p2, p1, k);
    assert(o1 == cx_child(p1, p2, k));
}

} // verus!

//! Individuals as permutations of point indices, and the seeding of the
//! first generation.
use vstd::prelude::*;

use crate::chance::random_below;
use crate::error::GaError;

verus! {

/// `s` lists each index of `0..n` exactly once.
pub open spec fn is_permutation(s: Seq<usize>, n: nat) -> bool {
    &&& s.len() == n
    &&& forall|i: int| 0 <= i < s.len() ==> s[i] < n
    &&& forall|i: int, j: int| 0 <= i < j < s.len() ==> s[i] != s[j]
}

/// Every gene of `ind` is below `n`: it names one of `n` points.
pub open spec fn genes_in_range(ind: Seq<usize>, n: nat) -> bool {
    forall|i: int| 0 <= i < ind.len() ==> ind[i] < n
}

/// Each member of `pop` has length `m`.
pub open spec fn all_of_length(pop: Seq<Vec<usize>>, m: nat) -> bool {
    forall|i: int| 0 <= i < pop.len() ==> (#[trigger] pop[i])@.len() == m
}

/// Every gene of every member of `pop` is below `n`.
pub open spec fn genes_below(pop: Seq<Vec<usize>>, n: nat) -> bool {
    forall|i: int| 0 <= i < pop.len() ==> genes_in_range((#[trigger] pop[i])@, n)
}

/// `s` with the genes at positions `i` and `j` exchanged.
pub open spec fn swapped(s: Seq<usize>, i: int, j: int) -> Seq<usize> {
    s.update(i, s[j]).update(j, s[i])
}

/// Exchanging two genes of a permutation leaves a permutation.
pub proof fn lemma_swap_keeps_permutation(s: Seq<usize>, n: nat, i: int, j: int)
    requires
        is_permutation(s, n),
        0 <= i < s.len(),
        0 <= j < s.len(),
    ensures
        is_permutation(swapped(s, i, j), n),
{
    let t = swapped(s, i, j);
    assert forall|a: int, b: int| 0 <= a < b < t.len() implies t[a] != t[b] by {
        let sa = if a == j { i } else if a == i { j } else { a };
        let sb = if b == j { i } else if b == i { j } else { b };
        assert(t[a] == s[sa]);
        assert(t[b] == s[sb]);
        assert(sa != sb);
        if sa < sb {
            assert(s[sa] != s[sb]);
        } else {
            assert(s[sb] != s[sa]);
        }
    }
}

/// A uniformly random permutation of `0..n`, drawn by the Fisher-Yates
/// shuffle.
pub fn random_order(n: usize) -> (r: Vec<usize>)
    ensures
        is_permutation(r@, n as nat),
{
    let mut r: Vec<usize> = Vec::new();
    let mut i: usize = 0;
    while i < n
        invariant
            i <= n,
            r@.len() == i,
            forall|k: int| 0 <= k < i ==> r@[k] == k,
        decreases n - i,
    {
        r.push(i);
        i = i + 1;
    }
    assert(is_permutation(r@, n as nat));
    let mut top: usize = n;
    while top > 1
        invariant
            top <= n,
            is_permutation(r@, n as nat),
        decreases top,
    {
        let j: usize = random_below(top);
        let a: usize = r[top - 1];
        let b: usize = r[j];
        let ghost before = r@;
        proof {
            lemma_swap_keeps_permutation(before, n as nat, top - 1, j as int);
        }
        r.set(top - 1, b);
        r.set(j, a);
        assert(r@ =~= swapped(before, top - 1, j as int));
        top = top - 1;
    }
    r
}

/// `amount` individuals, each a random permutation of `0..n_points`.
/// Fails with `EmptyInput` when there are no points or no individuals.
pub fn create_pop(amount: usize, n_points: usize) -> (r: Result<Vec<Vec<usize>>, GaError>)
    ensures
        r is Err <==> (amount == 0 || n_points == 0),
        r matches Err(e) ==> e == GaError::EmptyInput,
        r matches Ok(pop) ==> {
            &&& pop@.len() == amount
            &&& forall|k: int| 0 <= k < pop@.len() ==> is_permutation(#[trigger] pop@[k]@, n_points as nat)
        },
{
    if amount == 0 || n_points == 0 {
        return Err(GaError::EmptyInput);
    }
    let mut pop: Vec<Vec<usize>> = Vec::new();
    let mut i: usize = 0;
    while i < amount
        invariant
            i <= amount,
            pop@.len() == i,
            forall|k: int| 0 <= k < pop@.len() ==> is_permutation(#[trigger] pop@[k]@, n_points as nat),
        decreases amount - i,
    {
        pop.push(random_order(n_points));
        i = i + 1;
    }
    Ok(pop)
}

/// Whether `ind` lists each index of `0..n` exactly once.
pub fn check_permutation(ind: &Vec<usize>, n: usize) -> (r: bool)
    ensures
        r == is_permutation(ind@, n as nat),
{
    if ind.len() != n {
        return false;
    }
    let mut seen: Vec<bool> = Vec::new();
    let mut k: usize = 0;
    while k < n
        invariant
            k <= n,
            seen@.len() == k,
            forall|v: int| 0 <= v < k ==> !seen@[v],
        decreases n - k,
    {
        seen.push(false);
        k = k + 1;
    }
    let mut i: usize = 0;
    while i < n
        invariant
            i <= n,
            ind@.len() == n,
            seen@.len() == n,
            forall|a: int| 0 <= a < i ==> ind@[a] < n,
            forall|a: int, b: int| 0 <= a < b < i ==> ind@[a] != ind@[b],
            forall|v: int|
                0 <= v < n ==> (seen@[v] <==> exists|a: int| 0 <= a < i && ind@[a] == v),
        decreases n - i,
    {
        let g: usize = ind[i];
        if g >= n {
            return false;
        }
        if seen[g] {
            let ghost a = choose|a: int| 0 <= a < i && ind@[a] == g;
            assert(ind@[a] == ind@[i as int]);
            return false;
        }
        seen.set(g, true);
        i = i + 1;
    }
    true
}

} // verus!

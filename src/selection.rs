//! Tournament selection of size three, with replacement.
use vstd::prelude::*;

use crate::chance::random_below;
use crate::copy_individual;
use crate::population::{all_of_length, genes_below, genes_in_range};

verus! {

/// The winner of a tournament among the drawn indices `a`, `b`, `c`, in that
/// order: the one with the highest key, the earliest drawn among equals.
pub open spec fn winner(fits: Seq<u64>, a: int, b: int, c: int) -> int {
    let w = if fits[a] < fits[b] { b } else { a };
    if fits[w] < fits[c] { c } else { w }
}

/// The winner of one tournament among three drawn indices.
pub fn tournament_winner(fits: &Vec<u64>, a: usize, b: usize, c: usize) -> (r: usize)
    requires
        a < fits@.len(),
        b < fits@.len(),
        c < fits@.len(),
    ensures
        r as int == winner(fits@, a as int, b as int, c as int),
{
    let mut w: usize = a;
    if fits[w] < fits[b] {
        w = b;
    }
    if fits[w] < fits[c] {
        w = c;
    }
    w
}

/// A tournament that draws the strictly fittest individual selects it, and
/// the winner is never less fit than any drawn candidate.
pub proof fn lemma_tournament_favours_fittest(fits: Seq<u64>, a: int, b: int, c: int, best: int)
    requires
        0 <= a < fits.len(),
        0 <= b < fits.len(),
        0 <= c < fits.len(),
        0 <= best < fits.len(),
        forall|j: int| 0 <= j < fits.len() && j != best ==> fits[j] < fits[best],
    ensures
        (best == a || best == b || best == c) ==> winner(fits, a, b, c) == best,
        winner(fits, a, b, c) == a || winner(fits, a, b, c) == b || winner(fits, a, b, c) == c,
        fits[a] <= fits[winner(fits, a, b, c)],
        fits[b] <= fits[winner(fits, a, b, c)],
        fits[c] <= fits[winner(fits, a, b, c)],
{
}

/// `pool[k]` is a copy of the winner of a tournament on some three indices of
/// the population.
pub open spec fn selected(population: Seq<Vec<usize>>, fits: Seq<u64>, ind: Seq<usize>) -> bool {
    exists|a: int, b: int, c: int|
        0 <= a < population.len() && 0 <= b < population.len() && 0 <= c < population.len()
            && ind == population[winner(fits, a, b, c)]@
}

/// A tournament winner is a member of the population, so it has the shape
/// that all members share.
pub proof fn lemma_selected_shape(population: Seq<Vec<usize>>, fits: Seq<u64>, ind: Seq<usize>, m: nat, n: nat)
    requires
        fits.len() == population.len(),
        selected(population, fits, ind),
    ensures
        all_of_length(population, m) ==> ind.len() == m,
        genes_below(population, n) ==> genes_in_range(ind, n),
{
    let (a, b, c) = choose|a: int, b: int, c: int|
        0 <= a < population.len() && 0 <= b < population.len() && 0 <= c < population.len()
            && ind == population[winner(fits, a, b, c)]@;
    let w = winner(fits, a, b, c);
    assert(ind == population[w]@);
}

/// A mating pool as large as the population. Each slot holds a copy of the
/// fittest of three individuals drawn uniformly with replacement; `fits[i]`
/// is the order key of the fitness of `population[i]`, higher being fitter.
pub fn tournament_selection(population: &Vec<Vec<usize>>, fits: &Vec<u64>) -> (pool: Vec<Vec<usize>>)
    requires
        fits@.len() == population@.len(),
    ensures
        pool@.len() == population@.len(),
        forall|k: int| 0 <= k < pool@.len() ==> selected(population@, fits@, #[trigger] pool@[k]@),
{
    let n: usize = population.len();
    let mut pool: Vec<Vec<usize>> = Vec::new();
    let mut k: usize = 0;
    while k < n
        invariant
            n == population@.len(),
            fits@.len() == n,
            k <= n,
            pool@.len() == k,
            forall|i: int| 0 <= i < pool@.len() ==> selected(population@, fits@, #[trigger] pool@[i]@),
        decreases n - k,
    {
        let a: usize = random_below(n);
        let b: usize = random_below(n);
        let c: usize = random_below(n);
        let w: usize = tournament_winner(fits, a, b, c);
        let ind = copy_individual(&population[w]);
        assert(selected(population@, fits@, ind@)) by {
            assert(ind@ == population@[winner(fits@, a as int, b as int, c as int)]@);
        }
        pool.push(ind);
        k = k + 1;
    }
    pool
}

} // verus!

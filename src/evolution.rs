//! The replacement of one generation by the next: selection, crossover,
//! mutation, then a sort into lexicographic order.
use vstd::prelude::*;

use crate::chance::Ratio;
use crate::crossover::{crossover, lemma_offspring_shape, offspring_of};
use crate::error::GaError;
use crate::mutation::{is_swap_of, lemma_mutation_shape, mutate};
use crate::population::{all_of_length, create_pop, genes_below, genes_in_range, is_permutation};
use crate::selection::{lemma_selected_shape, selected, tournament_selection};

verus! {

/// The gene sequences of the members of `pop`.
pub open spec fn views(pop: Seq<Vec<usize>>) -> Seq<Seq<usize>> {
    pop.map_values(|v: Vec<usize>| v@)
}

/// `a` comes before `b`, or equals it, in lexicographic order.
pub open spec fn lex_le(a: Seq<usize>, b: Seq<usize>) -> bool
    decreases a.len(),
{
    if a.len() == 0 {
        true
    } else if b.len() == 0 {
        false
    } else if a[0] != b[0] {
        a[0] < b[0]
    } else {
        lex_le(a.drop_first(), b.drop_first())
    }
}

/// The members of `pop` are in ascending lexicographic order.
pub open spec fn sorted_ascending(pop: Seq<Vec<usize>>) -> bool {
    forall|i: int, j: int| 0 <= i < j < pop.len() ==> lex_le(pop[i]@, pop[j]@)
}

/// The members of `pop` are in descending lexicographic order.
pub open spec fn sorted_descending(pop: Seq<Vec<usize>>) -> bool {
    forall|i: int, j: int| 0 <= i < j < pop.len() ==> lex_le(pop[j]@, pop[i]@)
}

/// Relies on `slice::sort` with the order of `Vec<usize>`, which std
/// documents as lexicographic: the members are rearranged into ascending
/// order.
#[verifier::external_body]
fn sort_population(pop: &mut Vec<Vec<usize>>)
    ensures
        views(final(pop)@).to_multiset() == views(old(pop)@).to_multiset(),
        final(pop)@.len() == old(pop)@.len(),
        sorted_ascending(final(pop)@),
{
    pop.sort();
}

/// `pool`, `off` and `next` are what one generation can breed from `pop`: a
/// mating pool of tournament winners, the offspring of each pool member with
/// the next one, and those offspring after mutation.
pub open spec fn bred(
    pop: Seq<Vec<usize>>,
    fits: Seq<u64>,
    mut_prob: Ratio,
    pool: Seq<Seq<usize>>,
    off: Seq<Seq<usize>>,
    next: Seq<Seq<usize>>,
) -> bool {
    &&& pool.len() == pop.len()
    &&& forall|k: int| 0 <= k < pool.len() ==> selected(pop, fits, #[trigger] pool[k])
    &&& off.len() == 2 * (pool.len() / 2)
    &&& forall|i: int| 0 <= i < pool.len() / 2
        ==> offspring_of(#[trigger] pool[i], pool[i + 1], off[2 * i], off[2 * i + 1])
    &&& next.len() == off.len()
    &&& forall|k: int| 0 <= k < next.len() ==> #[trigger] next[k] == off[k] || is_swap_of(next[k], off[k])
    &&& mut_prob.num == 0 ==> next == off
    &&& mut_prob.num == mut_prob.den ==> forall|k: int| 0 <= k < next.len()
        ==> is_swap_of(#[trigger] next[k], off[k])
}

/// Each member of a rearrangement of `s` is a member of `s`.
proof fn lemma_member_of_rearranged(r: Seq<Vec<usize>>, s: Seq<Vec<usize>>, i: int)
    requires
        views(r).to_multiset() == views(s).to_multiset(),
        0 <= i < r.len(),
    ensures
        exists|j: int| 0 <= j < s.len() && r[i]@ == #[trigger] s[j]@,
{
    broadcast use vstd::seq_lib::group_seq_properties;

    assert(views(r)[i] == r[i]@);
    assert(views(r).contains(r[i]@));
    assert(views(s).to_multiset().count(r[i]@) > 0);
    assert(views(s).contains(r[i]@));
    let j = choose|j: int| 0 <= j < views(s).len() && views(s)[j] == r[i]@;
    assert(s[j]@ == r[i]@);
}

/// The population that follows `pop`. A mating pool is selected by
/// tournaments on the fitness keys `fits` (higher is fitter), consecutive
/// pool members are recombined, the offspring are mutated with probability
/// `mut_prob`, and the result is sorted into ascending lexicographic order.
/// Each generation keeps the common length of its individuals and the range
/// of their genes.
pub fn next_generation(pop: &Vec<Vec<usize>>, fits: &Vec<u64>, cx_prob: Ratio, mut_prob: Ratio) -> (r: Vec<Vec<usize>>)
    requires
        fits@.len() == pop@.len(),
        mut_prob.wf(),
        forall|i: int, j: int| 0 <= i < pop@.len() && 0 <= j < pop@.len()
            ==> (#[trigger] pop@[i])@.len() == (#[trigger] pop@[j])@.len(),
        forall|i: int| 0 <= i < pop@.len() ==> (#[trigger] pop@[i])@.len() >= 2,
    ensures
        r@.len() == 2 * (pop@.len() / 2),
        sorted_ascending(r@),
        exists|pool: Seq<Seq<usize>>, off: Seq<Seq<usize>>, next: Seq<Seq<usize>>|
            bred(pop@, fits@, mut_prob, pool, off, next) && views(r@).to_multiset() == next.to_multiset(),
        forall|m: nat| all_of_length(pop@, m) ==> #[trigger] all_of_length(r@, m),
        forall|n: nat| genes_below(pop@, n) ==> #[trigger] genes_below(r@, n),
{
    let pool = tournament_selection(pop, fits);
    let ghost m0: nat = if pop@.len() > 0 { pop@[0]@.len() } else { 2 };
    proof {
        assert(all_of_length(pop@, m0));
        assert forall|k: int| 0 <= k < pool@.len() implies (#[trigger] pool@[k])@.len() == m0 by {
            lemma_selected_shape(pop@, fits@, pool@[k]@, m0, 0);
        }
    }
    let off = crossover(&pool, cx_prob);
    proof {
        assert forall|t: int| 0 <= t < off@.len() implies (#[trigger] off@[t])@.len() == m0 by {
            let i = t / 2;
            assert(offspring_of(pool@[i]@, pool@[i + 1]@, off@[2 * i]@, off@[2 * i + 1]@));
            lemma_offspring_shape(pool@[i]@, pool@[i + 1]@, off@[2 * i]@, off@[2 * i + 1]@, 0);
        }
    }
    let mut next = mutate(&off, mut_prob);
    let ghost unsorted = next@;
    sort_population(&mut next);
    proof {
        let pv = views(pool@);
        let ov = views(off@);
        let nv = views(unsorted);
        assert forall|k: int| 0 <= k < pv.len() implies selected(pop@, fits@, #[trigger] pv[k]) by {
            assert(pv[k] == pool@[k]@);
        }
        assert forall|i: int| 0 <= i < pv.len() / 2
            implies offspring_of(#[trigger] pv[i], pv[i + 1], ov[2 * i], ov[2 * i + 1]) by {
            assert(offspring_of(pool@[i]@, pool@[i + 1]@, off@[2 * i]@, off@[2 * i + 1]@));
        }
        assert forall|k: int| 0 <= k < nv.len() implies #[trigger] nv[k] == ov[k] || is_swap_of(nv[k], ov[k]) by {
            assert(unsorted[k]@ == off@[k]@ || is_swap_of(unsorted[k]@, off@[k]@));
        }
        if mut_prob.num == 0 {
            assert(nv =~= ov);
        }
        if mut_prob.num == mut_prob.den {
            assert forall|k: int| 0 <= k < nv.len() implies is_swap_of(#[trigger] nv[k], ov[k]) by {
                assert(is_swap_of(unsorted[k]@, off@[k]@));
            }
        }
        assert(bred(pop@, fits@, mut_prob, pv, ov, nv));
        assert forall|m: nat| all_of_length(pop@, m) implies #[trigger] all_of_length(next@, m) by {
            if pop@.len() > 0 {
                assert(pop@[0]@.len() == m);
            }
            assert forall|i: int| 0 <= i < next@.len() implies (#[trigger] next@[i])@.len() == m by {
                lemma_member_of_rearranged(next@, unsorted, i);
                let j = choose|j: int| 0 <= j < unsorted.len() && next@[i]@ == #[trigger] unsorted[j]@;
                lemma_mutation_shape(unsorted[j]@, off@[j]@, 0);
            }
        }
        assert forall|n: nat| genes_below(pop@, n) implies #[trigger] genes_below(next@, n) by {
            assert forall|k: int| 0 <= k < pool@.len() implies genes_in_range((#[trigger] pool@[k])@, n) by {
                lemma_selected_shape(pop@, fits@, pool@[k]@, m0, n);
            }
            assert forall|t: int| 0 <= t < off@.len() implies genes_in_range((#[trigger] off@[t])@, n) by {
                let i = t / 2;
                assert(offspring_of(pool@[i]@, pool@[i + 1]@, off@[2 * i]@, off@[2 * i + 1]@));
                lemma_offspring_shape(pool@[i]@, pool@[i + 1]@, off@[2 * i]@, off@[2 * i + 1]@, n);
            }
            assert forall|i: int| 0 <= i < next@.len() implies genes_in_range((#[trigger] next@[i])@, n) by {
                lemma_member_of_rearranged(next@, unsorted, i);
                let j = choose|j: int| 0 <= j < unsorted.len() && next@[i]@ == #[trigger] unsorted[j]@;
                lemma_mutation_shape(unsorted[j]@, off@[j]@, n);
            }
        }
    }
    next
}

/// The first generation: `pop_size` random permutations of `0..n_points`,
/// in descending lexicographic order. Fails with `EmptyInput` when there are
/// no points or no individuals.
pub fn initial_population(pop_size: usize, n_points: usize) -> (r: Result<Vec<Vec<usize>>, GaError>)
    ensures
        r is Err <==> (pop_size == 0 || n_points == 0),
        r matches Err(e) ==> e == GaError::EmptyInput,
        r matches Ok(pop) ==> {
            &&& pop@.len() == pop_size
            &&& forall|k: int| 0 <= k < pop@.len() ==> is_permutation(#[trigger] pop@[k]@, n_points as nat)
            &&& sorted_descending(pop@)
        },
{
    let mut pop = match create_pop(pop_size, n_points) {
        Ok(pop) => pop,
        Err(e) => {
            return Err(e);
        },
    };
    let ghost created = pop@;
    sort_population(&mut pop);
    proof {
        assert forall|k: int| 0 <= k < pop@.len() implies is_permutation(#[trigger] pop@[k]@, n_points as nat) by {
            lemma_member_of_rearranged(pop@, created, k);
            let j = choose|j: int| 0 <= j < created.len() && pop@[k]@ == #[trigger] created[j]@;
            assert(is_permutation(created[j]@, n_points as nat));
        }
    }
    let len: usize = pop.len();
    let mut rev: Vec<Vec<usize>> = Vec::new();
    let mut i: usize = len;
    while i > 0
        invariant
            len == pop@.len(),
            i <= len,
            rev@.len() == len - i,
            forall|t: int| 0 <= t < rev@.len() ==> (#[trigger] rev@[t])@ == pop@[len - 1 - t]@,
        decreases i,
    {
        i = i - 1;
        rev.push(crate::copy_individual(&pop[i]));
    }
    proof {
        assert forall|a: int, b: int| 0 <= a < b < rev@.len() implies lex_le(rev@[b]@, rev@[a]@) by {
            assert(rev@[a]@ == pop@[len - 1 - a]@);
            assert(rev@[b]@ == pop@[len - 1 - b]@);
        }
        assert forall|k: int| 0 <= k < rev@.len() implies is_permutation(#[trigger] rev@[k]@, n_points as nat) by {
            assert(rev@[k]@ == pop@[len - 1 - k]@);
        }
    }
    Ok(rev)
}

} // verus!

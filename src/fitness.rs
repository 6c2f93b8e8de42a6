//! What the fitness of an individual is computed from: the edges of its
//! tour, and the comparison of objective keys.
//!
//! Lengths and fitness values are floating-point numbers and are summed by
//! the caller. Where the library compares them it takes order keys: integers
//! that compare as the values they stand for.
use vstd::prelude::*;

use crate::error::GaError;
use crate::population::genes_in_range;

verus! {

/// The edges whose lengths add up to the tour length of `ind`: each pair of
/// consecutive genes, then the closing edge from point `0` of the point set to
/// the point of the last gene.
pub open spec fn tour_edge_spec(ind: Seq<usize>, i: int) -> (usize, usize) {
    if i + 1 < ind.len() {
        (ind[i], ind[i + 1])
    } else {
        (0usize, ind[ind.len() - 1])
    }
}

/// The edges of the tour of `ind` over `n_points` points, as pairs of point
/// indices; see `tour_edge_spec`. Fails with `EmptyInput` when there are no
/// points and with `InvalidIndividual` when `ind` has fewer than two genes or
/// a gene that names no point.
pub fn tour_edges(ind: &Vec<usize>, n_points: usize) -> (r: Result<Vec<(usize, usize)>, GaError>)
    ensures
        n_points == 0 ==> (r matches Err(GaError::EmptyInput)),
        n_points > 0 && (ind@.len() < 2 || !genes_in_range(ind@, n_points as nat))
            ==> (r matches Err(GaError::InvalidIndividual)),
        r is Ok <==> (n_points > 0 && ind@.len() >= 2 && genes_in_range(ind@, n_points as nat)),
        r matches Ok(edges) ==> {
            &&& edges@.len() == ind@.len()
            &&& forall|i: int| 0 <= i < edges@.len() ==> #[trigger] edges@[i] == tour_edge_spec(ind@, i)
        },
{
    if n_points == 0 {
        return Err(GaError::EmptyInput);
    }
    let len: usize = ind.len();
    if len < 2 {
        return Err(GaError::InvalidIndividual);
    }
    let mut edges: Vec<(usize, usize)> = Vec::new();
    let mut i: usize = 0;
    while i < len
        invariant
            len == ind@.len(),
            len >= 2,
            n_points > 0,
            i <= len,
            edges@.len() == i,
            genes_in_range(ind@.subrange(0, i as int), n_points as nat),
            forall|t: int| 0 <= t < edges@.len() ==> #[trigger] edges@[t] == tour_edge_spec(ind@, t),
        decreases len - i,
    {
        if ind[i] >= n_points {
            assert(!genes_in_range(ind@, n_points as nat));
            return Err(GaError::InvalidIndividual);
        }
        if i + 1 < len {
            edges.push((ind[i], ind[i + 1]));
        } else {
            edges.push((0, ind[i]));
        }
        assert(genes_in_range(ind@.subrange(0, i + 1), n_points as nat)) by {
            assert forall|t: int| 0 <= t < i + 1 implies #[trigger] ind@.subrange(0, i + 1)[t]
                < n_points by {
                if t < i {
                    assert(ind@.subrange(0, i + 1)[t] == ind@.subrange(0, i as int)[t]);
                }
            }
        }
        i = i + 1;
    }
    assert(ind@.subrange(0, len as int) =~= ind@);
    Ok(edges)
}

/// The smallest of the keys, which must not be empty: with the order keys of
/// the objectives, the key of the best tour length.
pub fn min_key(keys: &Vec<u64>) -> (r: u64)
    requires
        keys@.len() > 0,
    ensures
        keys@.contains(r),
        forall|i: int| 0 <= i < keys@.len() ==> r <= keys@[i],
{
    let mut res: u64 = keys[0];
    let mut i: usize = 0;
    while i < keys.len()
        invariant
            i <= keys@.len(),
            keys@.len() > 0,
            keys@.contains(res),
            forall|t: int| 0 <= t < i ==> res <= keys@[t],
        decreases keys@.len() - i,
    {
        if keys[i] < res {
            res = keys[i];
        }
        i = i + 1;
    }
    res
}

} // verus!

//! A genetic-algorithm solver for the Euclidean travelling salesman problem.
//!
//! Individuals are visiting orders, written as sequences of point indices.
//! The library holds the evolutionary operators over those sequences:
//! seeding, tournament selection, one-point crossover, swap mutation and the
//! replacement of one generation by the next. Coordinates, distances and
//! fitness values are floating-point numbers and are handled by the caller,
//! which hands the library the order keys it needs to compare them.
use vstd::prelude::*;

pub mod chance;
pub mod crossover;
pub mod error;
pub mod evolution;
pub mod fitness;
pub mod mutation;
pub mod population;
pub mod selection;

verus! {

/// A copy of an individual.
pub fn copy_individual(v: &Vec<usize>) -> (r: Vec<usize>)
    ensures
        r@ == v@,
{
    let r = v.clone();
    assert(r@ =~= v@);
    r
}

} // verus!

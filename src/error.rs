//! Errors of the solver's operators.
use vstd::prelude::*;

verus! {

/// Why an operator refused its input.
#[derive(Debug, Clone, Copy, PartialEq, Eq, Structural)]
pub enum GaError {
    /// No points, or a population of size zero.
    EmptyInput,
    /// A tour shorter than two genes, or a gene that names no point.
    InvalidIndividual,
}

} // verus!

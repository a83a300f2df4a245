//! A generic evolutionary-optimisation engine: candidates with fixed-length
//! gene sequences, the standard selection, crossover and mutation operators,
//! and a generational loop with elitism.
use vstd::prelude::*;

pub mod genetic_algorithm;
pub mod individual;
pub mod random;

verus! {

} // verus!

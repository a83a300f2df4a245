//! Candidates: a non-empty gene sequence with a fitness score.
use crate::random::choose_from;
use rand::rngs::StdRng;
use vstd::prelude::*;

pub mod crossover;
pub mod mutation;
pub mod selection;

verus! {

/// The score a candidate carries until it is evaluated: the worst case.
pub const DEFAULT_FITNESS: u64 = 5_000_000;

/// A candidate solution. Genes are opaque values that the operators move
/// around but never inspect; the fitness is a non-negative integer score.
pub struct Individual<G> {
    pub genes: Vec<G>,
    pub fitness: u64,
}

/// `g` is a gene of some member of `pop`.
pub open spec fn gene_of<G>(g: G, pop: Seq<Individual<G>>) -> bool {
    exists|m: int, t: int|
        0 <= m < pop.len() && 0 <= t < pop[m].genes.len() && #[trigger] pop[m].genes@[t] == g
}

/// Every gene of `c` is a gene of some member of `pop`.
pub open spec fn genes_of<G>(c: Individual<G>, pop: Seq<Individual<G>>) -> bool {
    forall|j: int| 0 <= j < c.genes.len() ==> gene_of(#[trigger] c.genes@[j], pop)
}

/// Why a candidate could not be built.
#[derive(Debug, PartialEq, Eq, Structural)]
pub enum IndividualError {
    /// The gene sequence was empty.
    EmptyGenes,
}

impl<G> Individual<G> {
    /// A candidate is well formed when it has at least one gene.
    pub open spec fn wf(&self) -> bool {
        self.genes.len() > 0
    }

    /// Same genes and same fitness: what a duplicate shares with its source.
    pub open spec fn same_as(&self, other: &Individual<G>) -> bool {
        self.genes@ == other.genes@ && self.fitness == other.fitness
    }
}

impl<G: Copy> Individual<G> {
    /// A fresh candidate with the given genes and the default fitness.
    pub fn new(genes: Vec<G>) -> (r: Result<Individual<G>, IndividualError>)
        ensures
            genes@.len() == 0 <==> r == Err::<Individual<G>, IndividualError>(
                IndividualError::EmptyGenes,
            ),
            r matches Ok(ind) ==> ind.genes@ == genes@ && ind.fitness == DEFAULT_FITNESS,
    {
        if genes.len() == 0 {
            return Err(IndividualError::EmptyGenes);
        }
        Ok(Individual { genes, fitness: Self::default_fitness() })
    }

    /// The sentinel score of an unevaluated candidate.
    pub fn default_fitness() -> (r: u64)
        ensures
            r == DEFAULT_FITNESS,
    {
        DEFAULT_FITNESS
    }

    /// `population_size` candidates, each with `gene_size` genes drawn
    /// independently, with replacement, from `gene_pool`.
    pub fn random_population(
        rng: &mut StdRng,
        population_size: usize,
        gene_size: usize,
        gene_pool: Vec<G>,
    ) -> (r: Result<Vec<Individual<G>>, IndividualError>)
        requires
            gene_pool.len() > 0,
        ensures
            (gene_size == 0 && population_size > 0) <==> r == Err::<
                Vec<Individual<G>>,
                IndividualError,
            >(IndividualError::EmptyGenes),
            r matches Ok(pop) ==> {
                &&& pop.len() == population_size
                &&& forall|i: int|
                    0 <= i < pop.len() ==> {
                        &&& (#[trigger] pop[i]).genes.len() == gene_size
                        &&& pop[i].fitness == DEFAULT_FITNESS
                        &&& forall|j: int|
                            0 <= j < gene_size ==> gene_pool@.contains(#[trigger] pop[i].genes[j])
                    }
            },
    {
        let mut population: Vec<Individual<G>> = Vec::new();
        let mut k: usize = 0;
        while k < population_size
            invariant
                k <= population_size,
                k > 0 ==> gene_size > 0,
                gene_pool.len() > 0,
                population.len() == k,
                forall|i: int|
                    0 <= i < k ==> {
                        &&& (#[trigger] population[i]).genes.len() == gene_size
                        &&& population[i].fitness == DEFAULT_FITNESS
                        &&& forall|j: int|
                            0 <= j < gene_size ==> gene_pool@.contains(
                                #[trigger] population[i].genes[j],
                            )
                    },
            decreases population_size - k,
        {
            let mut genes: Vec<G> = Vec::new();
            let mut j: usize = 0;
            while j < gene_size
                invariant
                    j <= gene_size,
                    gene_pool.len() > 0,
                    genes.len() == j,
                    forall|t: int| 0 <= t < j ==> gene_pool@.contains(#[trigger] genes[t]),
                decreases gene_size - j,
            {
                genes.push(choose_from(rng, &gene_pool));
                j += 1;
            }
            match Individual::new(genes) {
                Ok(ind) => population.push(ind),
                Err(e) => return Err(e),
            }
            k += 1;
        }
        Ok(population)
    }
}

impl<G: Copy> Clone for Individual<G> {
    /// An independent copy: same genes, same fitness, no shared state.
    fn clone(&self) -> (r: Self)
        ensures
            r.same_as(self),
    {
        let mut genes: Vec<G> = Vec::new();
        let mut i: usize = 0;
        while i < self.genes.len()
            invariant
                i <= self.genes.len(),
                genes@ == self.genes@.subrange(0, i as int),
            decreases self.genes.len() - i,
        {
            genes.push(self.genes[i]);
            i += 1;
        }
        assert(genes@ =~= self.genes@);
        Individual { genes, fitness: self.fitness }
    }
}

} // verus!

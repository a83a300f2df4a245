//! The evolutionary engine: a validated configuration and the generational
//! loop (evaluate, rank, keep the elites, refill by selection, crossover and
//! mutation, replace).
use crate::individual::crossover::{
    mix, single_point_crossover, splice, two_point_crossover, uniform_crossover,
};
use crate::individual::mutation::{
    drawn_from, inversion_mutation, lemma_reordered_drawn_from, reordered_within, reversed_range,
    scramble_mutation, swap_mutation, swapped,
};
use crate::individual::selection::{
    copy_of_member, roulette_wheel_selection, total_fitness, tournament, tournament_selection,
};
use crate::individual::{gene_of, genes_of, Individual};
use crate::random::random_below;
use core::marker::PhantomData;
use rand::rngs::StdRng;
use vstd::prelude::*;

verus! {

/// Mutation rates are integers in millionths: `RATE_SCALE` is probability 1.
pub const RATE_SCALE: i64 = 1_000_000;

/// The crossover strategy of an engine.
#[derive(Clone, Copy, Debug, PartialEq, Eq, Structural)]
pub enum Crossover {
    SinglePoint,
    TwoPoint,
    Uniform,
}

/// The mutation strategy of an engine.
#[derive(Clone, Copy, Debug, PartialEq, Eq, Structural)]
pub enum Mutation {
    Swap,
    Scramble,
    Inversion,
}

/// The selection strategy of an engine.
#[derive(Clone, Copy, Debug, PartialEq, Eq, Structural)]
pub enum Selection {
    RouletteWheel,
    Tournament,
}

/// Why a configuration was refused.
#[derive(Debug, PartialEq, Eq, Structural)]
pub enum ConfigError {
    /// Elitism is on and keeps more candidates than the population holds.
    ElitismCountTooLarge,
    /// The mutation rate lies outside `[0, RATE_SCALE]`.
    MutationRateOutOfRange,
    /// The population size is below 2.
    PopulationTooSmall,
}

/// Which error, if any, a configuration earns; the checks come in this order.
pub open spec fn config_error(
    population_size: usize,
    mutation_rate: i64,
    elitism: bool,
    elitism_count: usize,
) -> Option<ConfigError> {
    if elitism && elitism_count > population_size {
        Some(ConfigError::ElitismCountTooLarge)
    } else if mutation_rate < 0 || mutation_rate > RATE_SCALE {
        Some(ConfigError::MutationRateOutOfRange)
    } else if population_size < 2 {
        Some(ConfigError::PopulationTooSmall)
    } else {
        None
    }
}

/// Every member has exactly `len` genes.
pub open spec fn gene_length_is<G>(pop: Seq<Individual<G>>, len: int) -> bool {
    forall|i: int| 0 <= i < pop.len() ==> (#[trigger] pop[i]).genes.len() == len
}

/// `r` is `s` ranked by descending fitness through the index map `perm`
/// (`r[k]` is a copy of `s[perm[k]]`), and equal scores keep their order.
pub open spec fn ranked_by<G>(r: Seq<Individual<G>>, s: Seq<Individual<G>>, perm: Seq<int>) -> bool {
    &&& r.len() == s.len()
    &&& perm.len() == r.len()
    &&& forall|k: int|
        0 <= k < r.len() ==> 0 <= #[trigger] perm[k] < s.len() && r[k].same_as(&s[perm[k]])
    &&& forall|k: int, l: int| 0 <= k < l < r.len() ==> #[trigger] perm[k] != #[trigger] perm[l]
    &&& forall|k: int, l: int|
        0 <= k < l < r.len() ==> (#[trigger] r[k]).fitness >= (#[trigger] r[l]).fitness
    &&& forall|k: int, l: int|
        0 <= k < l < r.len() && (#[trigger] r[k]).fitness == (#[trigger] r[l]).fitness ==> perm[k]
            < perm[l]
}

/// `r` is a stable ranking of `s` by descending fitness.
pub open spec fn is_ranking<G>(r: Seq<Individual<G>>, s: Seq<Individual<G>>) -> bool {
    exists|perm: Seq<int>| ranked_by(r, s, perm)
}

/// The population ranked by descending fitness; a stable insertion sort,
/// so that equal scores keep their relative order.
pub fn rank<G: Copy>(population: &Vec<Individual<G>>) -> (r: Vec<Individual<G>>)
    ensures
        is_ranking(r@, population@),
{
    let mut ranked: Vec<Individual<G>> = Vec::new();
    let ghost mut perm: Seq<int> = Seq::empty();
    let mut i: usize = 0;
    while i < population.len()
        invariant
            i <= population.len(),
            ranked_by(ranked@, population@.subrange(0, i as int), perm),
            forall|k: int| 0 <= k < ranked.len() ==> #[trigger] perm[k] < i,
        decreases population.len() - i,
    {
        let x = population[i].clone();
        let mut j: usize = 0;
        while j < ranked.len() && ranked[j].fitness >= x.fitness
            invariant
                j <= ranked.len(),
                forall|k: int| 0 <= k < j ==> (#[trigger] ranked[k]).fitness >= x.fitness,
            decreases ranked.len() - j,
        {
            j += 1;
        }
        let ghost old_ranked = ranked@;
        let ghost old_perm = perm;
        let ghost s = population@.subrange(0, i as int + 1);
        ranked.insert(j, x);
        proof {
            perm = old_perm.insert(j as int, i as int);
            assert forall|k: int| 0 <= k < ranked.len() implies 0 <= #[trigger] perm[k] < s.len()
                && ranked@[k].same_as(&s[perm[k]]) by {
                if k < j {
                    assert(ranked@[k] == old_ranked[k]);
                } else if k > j {
                    assert(ranked@[k] == old_ranked[k - 1]);
                }
            }
            if j < old_ranked.len() {
                assert(old_ranked[j as int].fitness < x.fitness);
            }
            assert forall|k: int, l: int| 0 <= k < l < ranked.len() implies #[trigger] perm[k]
                != #[trigger] perm[l] by {
                if k != j && l != j {
                    let k0 = if k < j { k } else { k - 1 };
                    let l0 = if l < j { l } else { l - 1 };
                    assert(old_perm[k0] != old_perm[l0]);
                }
            }
            assert(ranked_by(ranked@, s, perm));
        }
        i += 1;
    }
    assert(population@.subrange(0, i as int) =~= population@);
    ranked
}

/// `p` is a parent that the selection strategy `kind` can draw from `pop`.
pub open spec fn selectable<G>(kind: Selection, p: Individual<G>, pop: Seq<Individual<G>>) -> bool {
    match kind {
        Selection::RouletteWheel => copy_of_member(p, pop) && (total_fitness(pop) > 0
            ==> p.fitness > 0),
        Selection::Tournament => exists|a: int, b: int|
            0 <= a < pop.len() && 0 <= b < pop.len() && p.same_as(&pop[tournament(pop, a, b)]),
    }
}

/// `g` is the genes of the first child that the crossover `kind` can make of
/// parents with genes `a` and `b` (the second child swaps `a` and `b`).
pub open spec fn child_genes<G>(kind: Crossover, a: Seq<G>, b: Seq<G>, g: Seq<G>) -> bool {
    match kind {
        Crossover::SinglePoint => exists|p: int|
            0 <= p < a.len() && g == splice(a, b, p, a.len() as int),
        Crossover::TwoPoint => exists|s: int, e: int|
            0 <= s <= e < a.len() && g == splice(a, b, s, e),
        Crossover::Uniform => exists|mask: Seq<bool>| mask.len() == a.len() && g == mix(a, b, mask),
    }
}

/// `c` is one of the two children that the crossover `kind` can make of
/// `p1` and `p2`; a child keeps the fitness of the parent it was copied from.
pub open spec fn crossover_child<G>(
    kind: Crossover,
    p1: Individual<G>,
    p2: Individual<G>,
    c: Individual<G>,
) -> bool {
    ||| c.fitness == p1.fitness && child_genes(kind, p1.genes@, p2.genes@, c.genes@)
    ||| c.fitness == p2.fitness && child_genes(kind, p2.genes@, p1.genes@, c.genes@)
}

/// `m` is a mutant that the mutation `kind` can make of `c`.
pub open spec fn mutant_of<G>(kind: Mutation, c: Individual<G>, m: Individual<G>) -> bool {
    let g = c.genes@;
    &&& m.fitness == c.fitness
    &&& match kind {
        Mutation::Swap => exists|i: int, j: int|
            0 <= i < g.len() && 0 <= j < g.len() && m.genes@ == swapped(g, i, j),
        Mutation::Scramble => exists|s: int, e: int|
            0 <= s <= e < g.len() && reordered_within(m.genes@, g, s, e),
        Mutation::Inversion => exists|s: int, e: int|
            0 <= s <= e < g.len() && m.genes@ == reversed_range(g, s, e),
    }
}

/// `x` is offspring bred from `ranked`: a crossover child `c` of two
/// selected parents, or a mutant of it. With rate 0 it is `c` itself; with
/// rate `RATE_SCALE` it is a mutant of `c`.
pub open spec fn bred_from<G>(
    selection: Selection,
    crossover: Crossover,
    mutation: Mutation,
    rate: i64,
    ranked: Seq<Individual<G>>,
    x: Individual<G>,
) -> bool {
    exists|p1: Individual<G>, p2: Individual<G>, c: Individual<G>|
        {
            &&& selectable(selection, p1, ranked)
            &&& selectable(selection, p2, ranked)
            &&& #[trigger] crossover_child(crossover, p1, p2, c)
            &&& x.same_as(&c) || mutant_of(mutation, c, x)
            &&& rate == 0 ==> x.same_as(&c)
            &&& rate == RATE_SCALE ==> mutant_of(mutation, c, x)
        }
}

/// Genes of genes of `start` are genes of `start`.
pub proof fn lemma_genes_of_transitive<G>(
    c: Individual<G>,
    mid: Seq<Individual<G>>,
    start: Seq<Individual<G>>,
)
    requires
        genes_of(c, mid),
        forall|k: int| 0 <= k < mid.len() ==> genes_of(#[trigger] mid[k], start),
    ensures
        genes_of(c, start),
{
    assert forall|j: int| 0 <= j < c.genes.len() implies gene_of(#[trigger] c.genes@[j], start) by {
        assert(gene_of(c.genes@[j], mid));
        let (m, t) = choose|m: int, t: int|
            0 <= m < mid.len() && 0 <= t < mid[m].genes.len() && mid[m].genes@[t] == c.genes@[j];
        assert(genes_of(mid[m], start));
        assert(gene_of(mid[m].genes@[t], start));
    }
}

/// Every member's genes are genes of the population itself.
pub proof fn lemma_genes_of_self<G>(pop: Seq<Individual<G>>)
    ensures
        forall|k: int| 0 <= k < pop.len() ==> genes_of(#[trigger] pop[k], pop),
{
    assert forall|k: int| 0 <= k < pop.len() implies genes_of(#[trigger] pop[k], pop) by {
        assert forall|j: int| 0 <= j < pop[k].genes.len() implies gene_of(
            #[trigger] pop[k].genes@[j],
            pop,
        ) by {
            assert(pop[k].genes@[j] == pop[k].genes@[j]);
        }
    }
}

/// An engine: a validated configuration and the fitness function.
///
/// Fitness direction: ranking and elitism treat a higher score as better,
/// as does roulette-wheel selection; tournament selection treats the score
/// as a cost and keeps the lower one. A run stops once the best-ranked
/// candidate scores exactly 0. Pair the strategies with a fitness function
/// whose direction suits them.
pub struct GeneticAlgorithm<G, F> {
    /// Scores a candidate.
    pub fitness: F,
    pub crossover: Crossover,
    pub mutation: Mutation,
    pub selection: Selection,
    pub population_size: usize,
    /// The probability, in millionths, that a child is mutated.
    pub mutation_rate: i64,
    pub elitism: bool,
    pub elitism_count: usize,
    pub gene_type: PhantomData<G>,
}

impl<G: Copy, F: Fn(&Individual<G>) -> u64> GeneticAlgorithm<G, F> {
    /// The configuration passes its checks.
    pub open spec fn wf(&self) -> bool {
        config_error(self.population_size, self.mutation_rate, self.elitism, self.elitism_count)
            is None
    }

    /// The fitness function accepts every candidate.
    pub open spec fn fitness_total(&self) -> bool {
        forall|c: &Individual<G>| #[trigger] call_requires(self.fitness, (c,))
    }

    /// What `evolve` asks of a population: non-empty, every member with the
    /// same positive gene length, and room for the elites.
    pub open spec fn accepts(&self, pop: Seq<Individual<G>>) -> bool {
        &&& pop.len() > 0
        &&& pop[0].wf()
        &&& gene_length_is(pop, pop[0].genes.len() as int)
        &&& self.elitism ==> self.elitism_count <= pop.len()
    }

    /// How many leading members a generation keeps unchanged.
    pub open spec fn elite_count(&self) -> int {
        if self.elitism {
            self.elitism_count as int
        } else {
            0
        }
    }

    /// What one generation makes of `before`: `after` holds `population_size`
    /// members of the same gene length whose genes all come from `before`; it
    /// starts with the elites of a stable ranking of `before` by its new
    /// scores, and every later member is bred from that ranking.
    pub open spec fn evolve_post(&self, before: Seq<Individual<G>>, after: Seq<Individual<G>>) -> bool {
        &&& after.len() == self.population_size
        &&& gene_length_is(after, before[0].genes.len() as int)
        &&& forall|k: int| 0 <= k < after.len() ==> genes_of(#[trigger] after[k], before)
        &&& exists|scored: Seq<Individual<G>>, ranked: Seq<Individual<G>>|
            {
                &&& scored.len() == before.len()
                &&& forall|i: int|
                    0 <= i < scored.len() ==> (#[trigger] scored[i]).genes@ == before[i].genes@
                        && call_ensures(self.fitness, (&before[i],), scored[i].fitness)
                &&& #[trigger] is_ranking(ranked, scored)
                &&& forall|i: int|
                    0 <= i < self.elite_count() ==> (#[trigger] after[i]).same_as(&ranked[i])
                &&& forall|i: int|
                    self.elite_count() <= i < after.len() ==> bred_from(
                        self.selection,
                        self.crossover,
                        self.mutation,
                        self.mutation_rate,
                        ranked,
                        #[trigger] after[i],
                    )
            }
    }

    /// Generation `j` of a run: `pops[j + 1]` is one `evolve` step from
    /// `pops[j]`, and `bests[j]` is a copy of its first member.
    pub open spec fn run_step(
        &self,
        pops: Seq<Seq<Individual<G>>>,
        bests: Seq<Individual<G>>,
        j: int,
    ) -> bool {
        self.evolve_post(pops[j], pops[j + 1]) && bests[j].same_as(&pops[j + 1][0])
    }

    /// A validated engine, or the first check that the configuration fails.
    pub fn new(
        fitness: F,
        crossover: Crossover,
        mutation: Mutation,
        selection: Selection,
        population_size: usize,
        mutation_rate: i64,
        elitism: bool,
        elitism_count: usize,
    ) -> (r: Result<GeneticAlgorithm<G, F>, ConfigError>)
        ensures
            match r {
                Ok(ga) => {
                    &&& config_error(population_size, mutation_rate, elitism, elitism_count)
                        is None
                    &&& ga.wf()
                    &&& ga.fitness == fitness
                    &&& ga.crossover == crossover
                    &&& ga.mutation == mutation
                    &&& ga.selection == selection
                    &&& ga.population_size == population_size
                    &&& ga.mutation_rate == mutation_rate
                    &&& ga.elitism == elitism
                    &&& ga.elitism_count == elitism_count
                },
                Err(e) => config_error(population_size, mutation_rate, elitism, elitism_count)
                    == Some(e),
            },
    {
        if elitism && elitism_count > population_size {
            return Err(ConfigError::ElitismCountTooLarge);
        }
        if mutation_rate < 0 || mutation_rate > RATE_SCALE {
            return Err(ConfigError::MutationRateOutOfRange);
        }
        if population_size < 2 {
            return Err(ConfigError::PopulationTooSmall);
        }
        Ok(GeneticAlgorithm {
            fitness,
            crossover,
            mutation,
            selection,
            population_size,
            mutation_rate,
            elitism,
            elitism_count,
            gene_type: PhantomData,
        })
    }

    /// Scores every candidate in place; genes and order are unchanged.
    pub fn evaluate(&self, population: &mut Vec<Individual<G>>)
        requires
            self.fitness_total(),
        ensures
            final(population).len() == old(population).len(),
            forall|i: int|
                0 <= i < old(population).len() ==> (#[trigger] final(population)[i]).genes@ == old(
                    population,
                )[i].genes@ && call_ensures(
                    self.fitness,
                    (&old(population)[i],),
                    final(population)[i].fitness,
                ),
    {
        let mut scored: Vec<Individual<G>> = Vec::new();
        let mut i: usize = 0;
        while i < population.len()
            invariant
                self.fitness_total(),
                i <= population.len(),
                scored.len() == i,
                forall|k: int|
                    0 <= k < i ==> (#[trigger] scored[k]).genes@ == population[k].genes@
                        && call_ensures(self.fitness, (&population[k],), scored[k].fitness),
            decreases population.len() - i,
        {
            let score = (self.fitness)(&population[i]);
            let mut ind = population[i].clone();
            ind.fitness = score;
            scored.push(ind);
            i += 1;
        }
        *population = scored;
    }

    /// Two parents by the configured selection strategy.
    fn select(&self, rng: &mut StdRng, population: &Vec<Individual<G>>) -> (r: Vec<Individual<G>>)
        requires
            population.len() > 0,
        ensures
            r.len() == 2,
            copy_of_member(r[0], population@),
            copy_of_member(r[1], population@),
            selectable(self.selection, r[0], population@),
            selectable(self.selection, r[1], population@),
    {
        match self.selection {
            Selection::RouletteWheel => roulette_wheel_selection(rng, population),
            Selection::Tournament => {
                let r = tournament_selection(rng, population);
                assert forall|k: int| 0 <= k < 2 implies copy_of_member(#[trigger] r[k], population@) by {
                    let (a, b) = choose|a: int, b: int|
                        0 <= a < population.len() && 0 <= b < population.len() && r[k].same_as(
                            &population[tournament(population@, a, b)],
                        );
                    assert(r[k].same_as(&population@[tournament(population@, a, b)]));
                }
                r
            },
        }
    }

    /// Two children by the configured crossover strategy.
    fn cross(&self, rng: &mut StdRng, parent1: &Individual<G>, parent2: &Individual<G>) -> (r: Vec<
        Individual<G>,
    >)
        requires
            parent1.wf(),
            parent1.genes.len() == parent2.genes.len(),
        ensures
            r.len() == 2,
            r[0].genes.len() == parent1.genes.len(),
            r[1].genes.len() == parent1.genes.len(),
            crossover_child(self.crossover, *parent1, *parent2, r[0]),
            crossover_child(self.crossover, *parent1, *parent2, r[1]),
            forall|h: int, j: int|
                0 <= h < 2 && 0 <= j < parent1.genes.len() ==> #[trigger] r[h].genes@[j]
                    == parent1.genes@[j] || r[h].genes@[j] == parent2.genes@[j],
    {
        let ghost a = parent1.genes@;
        let ghost b = parent2.genes@;
        let ghost n = a.len() as int;
        match self.crossover {
            Crossover::SinglePoint => {
                let r = single_point_crossover(rng, parent1, parent2);
                proof {
                    let p = choose|p: int|
                        0 <= p < n && r[0].genes@ == splice(a, b, p, n) && r[1].genes@ == splice(
                            b,
                            a,
                            p,
                            n,
                        );
                    assert(r[1].genes@ == splice(b, a, p, b.len() as int));
                    assert(child_genes(self.crossover, a, b, r[0].genes@));
                    assert(child_genes(self.crossover, b, a, r[1].genes@));
                }
                r
            },
            Crossover::TwoPoint => {
                let r = two_point_crossover(rng, parent1, parent2);
                proof {
                    let (s, e) = choose|s: int, e: int|
                        0 <= s <= e < n && r[0].genes@ == splice(a, b, s, e) && r[1].genes@
                            == splice(b, a, s, e);
                    assert(child_genes(self.crossover, a, b, r[0].genes@));
                    assert(child_genes(self.crossover, b, a, r[1].genes@));
                }
                r
            },
            Crossover::Uniform => {
                let r = uniform_crossover(rng, parent1, parent2);
                proof {
                    let mask = choose|mask: Seq<bool>|
                        mask.len() == n && r[0].genes@ == mix(a, b, mask) && r[1].genes@ == mix(
                            b,
                            a,
                            mask,
                        );
                    assert(child_genes(self.crossover, a, b, r[0].genes@));
                    assert(child_genes(self.crossover, b, a, r[1].genes@));
                }
                r
            },
        }
    }

    /// A mutant by the configured mutation strategy.
    fn mutate(&self, rng: &mut StdRng, individual: &Individual<G>) -> (r: Individual<G>)
        requires
            individual.wf(),
        ensures
            r.genes.len() == individual.genes.len(),
            drawn_from(r.genes@, individual.genes@),
            mutant_of(self.mutation, *individual, r),
    {
        let ghost g = individual.genes@;
        match self.mutation {
            Mutation::Swap => {
                let r = swap_mutation(rng, individual);
                assert forall|k: int| 0 <= k < r.genes.len() implies g.contains(
                    #[trigger] r.genes@[k],
                ) by {
                    let (i, j) = choose|i: int, j: int|
                        0 <= i < g.len() && 0 <= j < g.len() && r.genes@ == swapped(g, i, j);
                    if k == j {
                        assert(g[i] == r.genes@[k]);
                    } else if k == i {
                        assert(g[j] == r.genes@[k]);
                    } else {
                        assert(g[k] == r.genes@[k]);
                    }
                }
                r
            },
            Mutation::Scramble => {
                let r = scramble_mutation(rng, individual);
                proof {
                    let (s, e) = choose|s: int, e: int|
                        0 <= s <= e < g.len() && crate::individual::mutation::reordered_within(
                            r.genes@,
                            g,
                            s,
                            e,
                        );
                    lemma_reordered_drawn_from(r.genes@, g, s, e);
                }
                r
            },
            Mutation::Inversion => {
                let r = inversion_mutation(rng, individual);
                assert forall|k: int| 0 <= k < r.genes.len() implies g.contains(
                    #[trigger] r.genes@[k],
                ) by {
                    let (s, e) = choose|s: int, e: int|
                        0 <= s <= e < g.len() && r.genes@ == reversed_range(g, s, e);
                    if s <= k < e {
                        assert(g[s + e - 1 - k] == r.genes@[k]);
                    } else {
                        assert(g[k] == r.genes@[k]);
                    }
                }
                r
            },
        }
    }

    /// One generation: score, rank, keep the elites, then refill to
    /// `population_size` with children of selected parents, each mutated with
    /// probability `mutation_rate`, and replace the population.
    pub fn evolve(&self, rng: &mut StdRng, population: &mut Vec<Individual<G>>)
        requires
            self.wf(),
            self.fitness_total(),
            self.accepts(old(population)@),
        ensures
            self.evolve_post(old(population)@, final(population)@),
    {
        let ghost len: int = old(population)[0].genes.len() as int;
        let ghost original = old(population)@;
        self.evaluate(population);
        let ranked = rank(population);
        let ghost scored = population@;
        assert(gene_length_is(ranked@, len)) by {
            let perm = choose|perm: Seq<int>| ranked_by(ranked@, scored, perm);
            assert forall|i: int| 0 <= i < ranked.len() implies (#[trigger] ranked@[i]).genes.len()
                == len by {
                assert(ranked@[i].same_as(&scored[perm[i]]));
                assert(original[perm[i]].genes.len() == len);
            }
        }
        assert forall|k: int| 0 <= k < ranked.len() implies genes_of(
            #[trigger] ranked@[k],
            original,
        ) by {
            let perm = choose|perm: Seq<int>| ranked_by(ranked@, scored, perm);
            assert(ranked@[k].same_as(&scored[perm[k]]));
            assert forall|j: int| 0 <= j < ranked@[k].genes.len() implies gene_of(
                #[trigger] ranked@[k].genes@[j],
                original,
            ) by {
                assert(original[perm[k]].genes@[j] == ranked@[k].genes@[j]);
            }
        }
        let mut next: Vec<Individual<G>> = Vec::new();
        if self.elitism {
            let mut i: usize = 0;
            while i < self.elitism_count
                invariant
                    self.elitism_count <= ranked.len(),
                    i <= self.elitism_count,
                    next.len() == i,
                    gene_length_is(ranked@, len),
                    gene_length_is(next@, len),
                    forall|k: int| 0 <= k < i ==> (#[trigger] next[k]).same_as(&ranked[k]),
                    forall|k: int| 0 <= k < ranked.len() ==> genes_of(#[trigger] ranked@[k], original),
                    forall|k: int| 0 <= k < next.len() ==> genes_of(#[trigger] next@[k], original),
                decreases self.elitism_count - i,
            {
                let elite = ranked[i].clone();
                assert(genes_of(ranked@[i as int], original));
                assert(genes_of(elite, original));
                next.push(elite);
                i += 1;
            }
        }
        let ghost elites = next@;
        while next.len() < self.population_size
            invariant
                self.wf(),
                ranked.len() > 0,
                len > 0,
                gene_length_is(ranked@, len),
                gene_length_is(next@, len),
                next.len() <= self.population_size,
                elites.len() <= next.len(),
                forall|k: int| 0 <= k < elites.len() ==> #[trigger] next[k] == elites[k],
                forall|k: int| 0 <= k < ranked.len() ==> genes_of(#[trigger] ranked@[k], original),
                forall|k: int| 0 <= k < next.len() ==> genes_of(#[trigger] next@[k], original),
                elites.len() == self.elite_count(),
                forall|k: int|
                    elites.len() <= k < next.len() ==> bred_from(
                        self.selection,
                        self.crossover,
                        self.mutation,
                        self.mutation_rate,
                        ranked@,
                        #[trigger] next@[k],
                    ),
            decreases self.population_size - next.len(),
        {
            let parents = self.select(rng, &ranked);
            proof {
                assert forall|p: int| 0 <= p < 2 implies genes_of(#[trigger] parents@[p], original) by {
                    let i = choose|i: int| 0 <= i < ranked.len() && parents@[p].same_as(&ranked@[i]);
                    assert(genes_of(ranked@[i], original));
                    assert forall|j: int| 0 <= j < parents@[p].genes.len() implies gene_of(
                        #[trigger] parents@[p].genes@[j],
                        original,
                    ) by {
                        assert(parents@[p].genes@[j] == ranked@[i].genes@[j]);
                    }
                }
            }
            let children = self.cross(rng, &parents[0], &parents[1]);
            proof {
                assert forall|h: int| 0 <= h < 2 implies genes_of(#[trigger] children@[h], original) by {
                    assert forall|j: int| 0 <= j < children@[h].genes.len() implies gene_of(
                        #[trigger] children@[h].genes@[j],
                        original,
                    ) by {
                        assert(genes_of(parents@[0], original));
                        assert(genes_of(parents@[1], original));
                        assert(gene_of(parents@[0].genes@[j], original));
                        assert(gene_of(parents@[1].genes@[j], original));
                        let x = children@[h].genes@[j];
                        assert(x == parents@[0].genes@[j] || x == parents@[1].genes@[j]);
                    }
                }
            }
            let ghost before = next.len();
            let mut c: usize = 0;
            while c < 2 && next.len() < self.population_size
                invariant
                    self.wf(),
                    children.len() == 2,
                    children[0].genes.len() == len,
                    children[1].genes.len() == len,
                    len > 0,
                    gene_length_is(next@, len),
                    next.len() <= self.population_size,
                    elites.len() <= next.len(),
                    forall|k: int| 0 <= k < elites.len() ==> #[trigger] next[k] == elites[k],
                    c <= 2,
                    before + c == next.len(),
                    forall|h: int| 0 <= h < 2 ==> genes_of(#[trigger] children@[h], original),
                    forall|k: int| 0 <= k < next.len() ==> genes_of(#[trigger] next@[k], original),
                    selectable(self.selection, parents@[0], ranked@),
                    selectable(self.selection, parents@[1], ranked@),
                    crossover_child(self.crossover, parents@[0], parents@[1], children@[0]),
                    crossover_child(self.crossover, parents@[0], parents@[1], children@[1]),
                    forall|k: int|
                        elites.len() <= k < next.len() ==> bred_from(
                            self.selection,
                            self.crossover,
                            self.mutation,
                            self.mutation_rate,
                            ranked@,
                            #[trigger] next@[k],
                        ),
                decreases 2 - c,
            {
                let draw = random_below(rng, RATE_SCALE as usize);
                let child = if (draw as i64) < self.mutation_rate {
                    let mutant = self.mutate(rng, &children[c]);
                    assert(genes_of(children@[c as int], original));
                    assert forall|j: int| 0 <= j < mutant.genes.len() implies gene_of(
                        #[trigger] mutant.genes@[j],
                        original,
                    ) by {
                        let g = children@[c as int].genes@;
                        assert(g.contains(mutant.genes@[j]));
                        let t = choose|t: int| 0 <= t < g.len() && g[t] == mutant.genes@[j];
                        assert(gene_of(g[t], original));
                    }
                    mutant
                } else {
                    let copy = children[c].clone();
                    assert(genes_of(children@[c as int], original));
                    assert forall|j: int| 0 <= j < copy.genes.len() implies gene_of(
                        #[trigger] copy.genes@[j],
                        original,
                    ) by {
                        assert(copy.genes@[j] == children@[c as int].genes@[j]);
                    }
                    copy
                };
                assert(genes_of(child, original));
                proof {
                    let ch = children@[c as int];
                    assert(crossover_child(self.crossover, parents@[0], parents@[1], ch));
                    assert(bred_from(
                        self.selection,
                        self.crossover,
                        self.mutation,
                        self.mutation_rate,
                        ranked@,
                        child,
                    ));
                }
                next.push(child);
                c += 1;
            }
        }
        proof {
            assert(forall|k: int|
                0 <= k < self.elite_count() ==> (#[trigger] next@[k]).same_as(&ranked@[k]));
            assert(is_ranking(ranked@, scored));
        }
        *population = next;
    }

    /// Runs `evolve` for up to `generations` generations and returns a copy
    /// of the best candidate (index 0) after each one. It stops early after
    /// the first generation whose best candidate has fitness exactly 0.
    pub fn run(&self, rng: &mut StdRng, population: &mut Vec<Individual<G>>, generations: usize) -> (r:
        Vec<Individual<G>>)
        requires
            self.wf(),
            self.fitness_total(),
            self.accepts(old(population)@),
        ensures
            r.len() <= generations,
            generations > 0 ==> r.len() > 0,
            forall|i: int| 0 <= i < r.len() - 1 ==> (#[trigger] r[i]).fitness != 0,
            r.len() < generations ==> r[r.len() - 1].fitness == 0,
            r.len() > 0 ==> final(population)[0].same_as(&r[r.len() - 1]),
            r.len() > 0 ==> final(population).len() == self.population_size,
            r.len() == 0 ==> final(population)@ == old(population)@,
            exists|pops: Seq<Seq<Individual<G>>>|
                {
                    &&& pops.len() == r.len() + 1
                    &&& pops[0] == old(population)@
                    &&& pops[r.len() as int] == final(population)@
                    &&& forall|j: int| 0 <= j < r.len() ==> #[trigger] self.run_step(pops, r@, j)
                },
            forall|k: int|
                0 <= k < final(population).len() ==> genes_of(
                    #[trigger] final(population)[k],
                    old(population)@,
                ),
    {
        let ghost original = old(population)@;
        proof {
            lemma_genes_of_self(original);
        }
        let mut history: Vec<Individual<G>> = Vec::new();
        let mut done = false;
        let mut generation: usize = 0;
        let ghost mut pops: Seq<Seq<Individual<G>>> = seq![original];
        while generation < generations && !done
            invariant
                self.wf(),
                self.fitness_total(),
                self.accepts(population@),
                history.len() == generation,
                generation <= generations,
                forall|i: int| 0 <= i < history.len() - 1 ==> (#[trigger] history[i]).fitness != 0,
                done ==> history.len() > 0 && history[history.len() - 1].fitness == 0,
                !done && history.len() > 0 ==> history[history.len() - 1].fitness != 0,
                history.len() > 0 ==> population[0].same_as(&history[history.len() - 1]),
                history.len() > 0 ==> population.len() == self.population_size,
                history.len() == 0 ==> population@ == old(population)@,
                forall|k: int| 0 <= k < population.len() ==> genes_of(#[trigger] population@[k], original),
                pops.len() == history.len() + 1,
                pops[0] == original,
                pops[history.len() as int] == population@,
                forall|j: int| 0 <= j < history.len() ==> #[trigger] self.run_step(pops, history@, j),
            decreases generations - generation,
        {
            let ghost before = population@;
            self.evolve(rng, population);
            proof {
                assert forall|k: int| 0 <= k < population.len() implies genes_of(
                    #[trigger] population@[k],
                    original,
                ) by {
                    lemma_genes_of_transitive(population@[k], before, original);
                }
            }
            let best = population[0].clone();
            done = best.fitness == 0;
            let ghost old_history = history@;
            history.push(best);
            proof {
                let old_pops = pops;
                pops = pops.push(population@);
                assert(old_pops[old_history.len() as int] == before);
                assert forall|j: int| 0 <= j < history.len() implies #[trigger] self.run_step(
                    pops,
                    history@,
                    j,
                ) by {
                    if j < old_history.len() {
                        assert(self.run_step(old_pops, old_history, j));
                        assert(history@[j] == old_history[j]);
                        assert(pops[j] == old_pops[j] && pops[j + 1] == old_pops[j + 1]);
                    } else {
                        assert(pops[j] == before && pops[j + 1] == population@);
                    }
                }
            }
            generation += 1;
        }
        history
    }
}

} // verus!

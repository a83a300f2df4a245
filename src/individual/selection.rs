//! Selection: two parents drawn from a population, each a copy of a member.
use crate::individual::Individual;
use crate::random::{random_below, random_below_wide};
use rand::rngs::StdRng;
use vstd::prelude::*;

verus! {

/// `c` is a copy of some member of `pop`.
pub open spec fn copy_of_member<G>(c: Individual<G>, pop: Seq<Individual<G>>) -> bool {
    exists|i: int| 0 <= i < pop.len() && c.same_as(&pop[i])
}

/// The sum of the fitness of the first `k` members of `pop`.
pub open spec fn fitness_sum<G>(pop: Seq<Individual<G>>, k: int) -> int
    decreases k,
{
    if k <= 0 {
        0
    } else {
        fitness_sum(pop, k - 1) + pop[k - 1].fitness
    }
}

/// The sum of the fitness of the whole population.
pub open spec fn total_fitness<G>(pop: Seq<Individual<G>>) -> int {
    fitness_sum(pop, pop.len() as int)
}

/// Prefix sums grow with `k`, and never beyond `k` times the largest score.
pub proof fn lemma_fitness_sum_bounds<G>(pop: Seq<Individual<G>>, j: int, k: int)
    requires
        0 <= j <= k <= pop.len(),
    ensures
        0 <= fitness_sum(pop, j) <= fitness_sum(pop, k) <= k * 0xffff_ffff_ffff_ffff,
    decreases k,
{
    if k > 0 {
        if j < k {
            lemma_fitness_sum_bounds(pop, j, k - 1);
        } else {
            lemma_fitness_sum_bounds(pop, j - 1, k - 1);
        }
        assert((k - 1) * 0xffff_ffff_ffff_ffff + 0xffff_ffff_ffff_ffff == k * 0xffff_ffff_ffff_ffff)
            by (nonlinear_arith);
    }
}

/// The sum of all fitness scores, which always fits in a `u128`.
pub fn fitness_total<G>(population: &Vec<Individual<G>>) -> (r: u128)
    ensures
        r == total_fitness(population@),
{
    let mut acc: u128 = 0;
    let mut i: usize = 0;
    while i < population.len()
        invariant
            i <= population.len(),
            acc == fitness_sum(population@, i as int),
        decreases population.len() - i,
    {
        proof {
            lemma_fitness_sum_bounds(population@, i as int + 1, i as int + 1);
            assert((i + 1) * 0xffff_ffff_ffff_ffff <= 0xffff_ffff_ffff_ffff * 0xffff_ffff_ffff_ffff)
                by (nonlinear_arith)
                requires
                    i + 1 <= 0xffff_ffff_ffff_ffff,
            ;
        }
        acc = acc + population[i].fitness as u128;
        i += 1;
    }
    acc
}

/// The member whose slice of the wheel holds `draw`: the index `i` with
/// `fitness_sum(i) <= draw < fitness_sum(i + 1)`.
pub fn roulette_index<G>(population: &Vec<Individual<G>>, draw: u128) -> (r: usize)
    requires
        draw < total_fitness(population@),
    ensures
        r < population.len(),
        fitness_sum(population@, r as int) <= draw < fitness_sum(population@, r as int + 1),
{
    let mut acc: u128 = 0;
    let mut i: usize = 0;
    while i < population.len()
        invariant
            i <= population.len(),
            acc == fitness_sum(population@, i as int),
            acc <= draw,
            draw < total_fitness(population@),
        decreases population.len() - i,
    {
        proof {
            lemma_fitness_sum_bounds(population@, i as int + 1, population.len() as int);
        }
        acc = acc + population[i].fitness as u128;
        if draw < acc {
            return i;
        }
        i += 1;
    }
    i
}

/// A member whose fitness is positive, chosen with probability proportional
/// to its fitness; any member, uniformly, when all scores are zero.
pub fn roulette_pick<G: Copy>(rng: &mut StdRng, population: &Vec<Individual<G>>) -> (r: usize)
    requires
        population.len() > 0,
    ensures
        r < population.len(),
        total_fitness(population@) > 0 ==> population[r as int].fitness > 0,
{
    let total = fitness_total(population);
    if total == 0 {
        random_below(rng, population.len())
    } else {
        let draw = random_below_wide(rng, total);
        roulette_index(population, draw)
    }
}

/// Two parents by fitness-proportional (roulette-wheel) selection. This
/// strategy treats fitness as a reward: a member is drawn with probability
/// proportional to its score, and a member scoring 0 is never drawn unless
/// every member scores 0.
pub fn roulette_wheel_selection<G: Copy>(rng: &mut StdRng, population: &Vec<Individual<G>>) -> (r:
    Vec<Individual<G>>)
    requires
        population.len() > 0,
    ensures
        r.len() == 2,
        copy_of_member(r[0], population@),
        copy_of_member(r[1], population@),
        total_fitness(population@) > 0 ==> r[0].fitness > 0 && r[1].fitness > 0,
{
    let a = roulette_pick(rng, population);
    let b = roulette_pick(rng, population);
    let parents = vec![population[a].clone(), population[b].clone()];
    assert(parents[0].same_as(&population[a as int]));
    assert(parents[1].same_as(&population[b as int]));
    parents
}

/// The index that wins a tournament between the drawn members `a` and `b`:
/// the lower fitness wins, and `b` displaces `a` only when strictly lower.
pub open spec fn tournament<G>(pop: Seq<Individual<G>>, a: int, b: int) -> int {
    if pop[b].fitness < pop[a].fitness {
        b
    } else {
        a
    }
}

/// The winner of the tournament between the members `a` and `b`.
pub fn tournament_winner<G>(population: &Vec<Individual<G>>, a: usize, b: usize) -> (r: usize)
    requires
        a < population.len(),
        b < population.len(),
    ensures
        r == tournament(population@, a as int, b as int),
{
    if population[b].fitness < population[a].fitness {
        b
    } else {
        a
    }
}

/// Two parents, each the winner of a tournament between two members drawn
/// with replacement. This strategy treats fitness as a cost: the lower
/// score wins.
pub fn tournament_selection<G: Copy>(rng: &mut StdRng, population: &Vec<Individual<G>>) -> (r:
    Vec<Individual<G>>)
    requires
        population.len() > 0,
    ensures
        r.len() == 2,
        forall|k: int|
            0 <= k < 2 ==> exists|a: int, b: int|
                0 <= a < population.len() && 0 <= b < population.len() && (#[trigger] r[k]).same_as(
                    &population[tournament(population@, a, b)],
                ),
{
    let n = population.len();
    let a1 = random_below(rng, n);
    let b1 = random_below(rng, n);
    let w1 = tournament_winner(population, a1, b1);
    let a2 = random_below(rng, n);
    let b2 = random_below(rng, n);
    let w2 = tournament_winner(population, a2, b2);
    let parents = vec![population[w1].clone(), population[w2].clone()];
    assert(parents[0].same_as(&population[tournament(population@, a1 as int, b1 as int)]));
    assert(parents[1].same_as(&population[tournament(population@, a2 as int, b2 as int)]));
    parents
}

} // verus!

//! Crossover: two parents of equal gene length give exactly two children.
//! Parents are never changed; the children are fresh copies.
use crate::individual::Individual;
use crate::random::{random_below, random_bool};
use rand::rngs::StdRng;
use vstd::prelude::*;

verus! {

/// `a` with the positions `start <= i < end` taken from `b`.
pub open spec fn splice<G>(a: Seq<G>, b: Seq<G>, start: int, end: int) -> Seq<G> {
    Seq::new(a.len(), |i: int| if start <= i < end { b[i] } else { a[i] })
}

/// `a` with each position `i` where `mask[i]` holds taken from `b`.
pub open spec fn mix<G>(a: Seq<G>, b: Seq<G>, mask: Seq<bool>) -> Seq<G> {
    Seq::new(a.len(), |i: int| if mask[i] { b[i] } else { a[i] })
}

/// Two parents that crossover accepts: well formed, with equal gene lengths.
pub open spec fn parents_ok<G>(parent1: &Individual<G>, parent2: &Individual<G>) -> bool {
    parent1.wf() && parent1.genes.len() == parent2.genes.len()
}

/// The children of exchanging the genes at `start <= i < end`: the first
/// child is `parent1` with that range from `parent2`, the second the converse.
/// Each child keeps the fitness of the parent it was copied from.
pub fn splice_children<G: Copy>(
    parent1: &Individual<G>,
    parent2: &Individual<G>,
    start: usize,
    end: usize,
) -> (r: Vec<Individual<G>>)
    requires
        parents_ok(parent1, parent2),
        start <= end <= parent1.genes.len(),
    ensures
        r.len() == 2,
        r[0].genes@ == splice(parent1.genes@, parent2.genes@, start as int, end as int),
        r[1].genes@ == splice(parent2.genes@, parent1.genes@, start as int, end as int),
        r[0].fitness == parent1.fitness,
        r[1].fitness == parent2.fitness,
{
    let mut child1 = parent1.clone();
    let mut child2 = parent2.clone();
    let mut i: usize = start;
    assert(child1.genes@ =~= splice(parent1.genes@, parent2.genes@, start as int, i as int));
    assert(child2.genes@ =~= splice(parent2.genes@, parent1.genes@, start as int, i as int));
    while i < end
        invariant
            start <= i <= end <= parent1.genes.len(),
            parents_ok(parent1, parent2),
            child1.fitness == parent1.fitness,
            child2.fitness == parent2.fitness,
            child1.genes@ == splice(parent1.genes@, parent2.genes@, start as int, i as int),
            child2.genes@ == splice(parent2.genes@, parent1.genes@, start as int, i as int),
        decreases end - i,
    {
        child1.genes.set(i, parent2.genes[i]);
        child2.genes.set(i, parent1.genes[i]);
        i += 1;
        assert(child1.genes@ =~= splice(parent1.genes@, parent2.genes@, start as int, i as int));
        assert(child2.genes@ =~= splice(parent2.genes@, parent1.genes@, start as int, i as int));
    }
    vec![child1, child2]
}

/// Exchanges the genes from one random cut point `p` to the end.
pub fn single_point_crossover<G: Copy>(
    rng: &mut StdRng,
    parent1: &Individual<G>,
    parent2: &Individual<G>,
) -> (r: Vec<Individual<G>>)
    requires
        parents_ok(parent1, parent2),
    ensures
        r.len() == 2,
        exists|p: int|
            0 <= p < parent1.genes.len() && r[0].genes@ == splice(
                parent1.genes@,
                parent2.genes@,
                p,
                parent1.genes.len() as int,
            ) && r[1].genes@ == splice(
                parent2.genes@,
                parent1.genes@,
                p,
                parent1.genes.len() as int,
            ),
        r[0].fitness == parent1.fitness,
        r[1].fitness == parent2.fitness,
{
    let n = parent1.genes.len();
    let point = random_below(rng, n);
    splice_children(parent1, parent2, point, n)
}

/// Exchanges the genes between two random cut points (which may coincide):
/// from the smaller, inclusive, to the larger, exclusive.
pub fn two_point_crossover<G: Copy>(
    rng: &mut StdRng,
    parent1: &Individual<G>,
    parent2: &Individual<G>,
) -> (r: Vec<Individual<G>>)
    requires
        parents_ok(parent1, parent2),
    ensures
        r.len() == 2,
        exists|s: int, e: int|
            0 <= s <= e < parent1.genes.len() && r[0].genes@ == splice(
                parent1.genes@,
                parent2.genes@,
                s,
                e,
            ) && r[1].genes@ == splice(parent2.genes@, parent1.genes@, s, e),
        r[0].fitness == parent1.fitness,
        r[1].fitness == parent2.fitness,
{
    let n = parent1.genes.len();
    let point1 = random_below(rng, n);
    let point2 = random_below(rng, n);
    let (start, end) = if point1 <= point2 {
        (point1, point2)
    } else {
        (point2, point1)
    };
    splice_children(parent1, parent2, start, end)
}

/// The children of exchanging the genes at each position where `mask` holds.
pub fn mix_children<G: Copy>(
    parent1: &Individual<G>,
    parent2: &Individual<G>,
    mask: &Vec<bool>,
) -> (r: Vec<Individual<G>>)
    requires
        parents_ok(parent1, parent2),
        mask.len() == parent1.genes.len(),
    ensures
        r.len() == 2,
        r[0].genes@ == mix(parent1.genes@, parent2.genes@, mask@),
        r[1].genes@ == mix(parent2.genes@, parent1.genes@, mask@),
        r[0].fitness == parent1.fitness,
        r[1].fitness == parent2.fitness,
{
    let mut child1 = parent1.clone();
    let mut child2 = parent2.clone();
    let n = parent1.genes.len();
    let mut i: usize = 0;
    while i < n
        invariant
            i <= n == parent1.genes.len() == mask.len(),
            parents_ok(parent1, parent2),
            child1.fitness == parent1.fitness,
            child2.fitness == parent2.fitness,
            child1.genes@ == mix(
                parent1.genes@,
                parent2.genes@,
                Seq::new(n as nat, |t: int| t < i && mask@[t]),
            ),
            child2.genes@ == mix(
                parent2.genes@,
                parent1.genes@,
                Seq::new(n as nat, |t: int| t < i && mask@[t]),
            ),
        decreases n - i,
    {
        if mask[i] {
            child1.genes.set(i, parent2.genes[i]);
            child2.genes.set(i, parent1.genes[i]);
        }
        i += 1;
        assert(child1.genes@ =~= mix(
            parent1.genes@,
            parent2.genes@,
            Seq::new(n as nat, |t: int| t < i && mask@[t]),
        ));
        assert(child2.genes@ =~= mix(
            parent2.genes@,
            parent1.genes@,
            Seq::new(n as nat, |t: int| t < i && mask@[t]),
        ));
    }
    assert(child1.genes@ =~= mix(parent1.genes@, parent2.genes@, mask@));
    assert(child2.genes@ =~= mix(parent2.genes@, parent1.genes@, mask@));
    vec![child1, child2]
}

/// Flips a fair coin for each position and exchanges the genes there on heads.
pub fn uniform_crossover<G: Copy>(
    rng: &mut StdRng,
    parent1: &Individual<G>,
    parent2: &Individual<G>,
) -> (r: Vec<Individual<G>>)
    requires
        parents_ok(parent1, parent2),
    ensures
        r.len() == 2,
        exists|mask: Seq<bool>|
            mask.len() == parent1.genes.len() && r[0].genes@ == mix(
                parent1.genes@,
                parent2.genes@,
                mask,
            ) && r[1].genes@ == mix(parent2.genes@, parent1.genes@, mask),
        r[0].fitness == parent1.fitness,
        r[1].fitness == parent2.fitness,
{
    let n = parent1.genes.len();
    let mut mask: Vec<bool> = Vec::new();
    let mut i: usize = 0;
    while i < n
        invariant
            i <= n,
            mask.len() == i,
        decreases n - i,
    {
        mask.push(random_bool(rng));
        i += 1;
    }
    mix_children(parent1, parent2, &mask)
}

} // verus!

//! Mutation: one candidate in, one fresh perturbed copy out; the input is
//! never changed.
use crate::individual::Individual;
use crate::random::{random_below, shuffle_range};
use rand::rngs::StdRng;
use vstd::prelude::*;

verus! {

/// `g` with the genes at `i` and `j` exchanged.
pub open spec fn swapped<G>(g: Seq<G>, i: int, j: int) -> Seq<G> {
    g.update(i, g[j]).update(j, g[i])
}

/// `g` with the range `start <= k < end` in reverse order.
pub open spec fn reversed_range<G>(g: Seq<G>, start: int, end: int) -> Seq<G> {
    Seq::new(g.len(), |k: int| if start <= k < end { g[start + end - 1 - k] } else { g[k] })
}

/// `r` is `g` with at most the range `start <= k < end` reordered.
pub open spec fn reordered_within<G>(r: Seq<G>, g: Seq<G>, start: int, end: int) -> bool {
    &&& r.len() == g.len()
    &&& r.subrange(0, start) == g.subrange(0, start)
    &&& r.subrange(end, r.len() as int) == g.subrange(end, g.len() as int)
    &&& r.subrange(start, end).to_multiset() == g.subrange(start, end).to_multiset()
}

/// Every gene of `r` is one of the genes of `g`.
pub open spec fn drawn_from<G>(r: Seq<G>, g: Seq<G>) -> bool {
    forall|k: int| 0 <= k < r.len() ==> g.contains(#[trigger] r[k])
}

/// A reordering within a range keeps every gene among the original genes.
pub proof fn lemma_reordered_drawn_from<G>(r: Seq<G>, g: Seq<G>, start: int, end: int)
    requires
        0 <= start <= end <= g.len(),
        reordered_within(r, g, start, end),
    ensures
        drawn_from(r, g),
{
    let mid_r = r.subrange(start, end);
    let mid_g = g.subrange(start, end);
    mid_r.to_multiset_ensures();
    mid_g.to_multiset_ensures();
    assert forall|k: int| 0 <= k < r.len() implies g.contains(#[trigger] r[k]) by {
        if k < start {
            assert(r.subrange(0, start)[k] == g.subrange(0, start)[k]);
            assert(g[k] == r[k]);
        } else if k >= end {
            assert(r.subrange(end, r.len() as int)[k - end] == g.subrange(end, g.len() as int)[k
                - end]);
            assert(g[k] == r[k]);
        } else {
            assert(mid_r.len() == end - start);
            assert(mid_r[k - start] == r[k]);
            assert(mid_r.contains(r[k]));
            assert(mid_r.to_multiset().count(r[k]) > 0);
            assert(mid_g.to_multiset().count(r[k]) > 0);
            assert(mid_g.contains(r[k]));
            let t = choose|t: int| 0 <= t < mid_g.len() && mid_g[t] == r[k];
            assert(g[start + t] == r[k]);
        }
    }
}

/// A copy of `individual` with the genes at `i` and `j` exchanged.
pub fn swap_at<G: Copy>(individual: &Individual<G>, i: usize, j: usize) -> (r: Individual<G>)
    requires
        i < individual.genes.len(),
        j < individual.genes.len(),
    ensures
        r.genes@ == swapped(individual.genes@, i as int, j as int),
        r.fitness == individual.fitness,
{
    let mut child = individual.clone();
    let a = child.genes[i];
    let b = child.genes[j];
    child.genes.set(i, b);
    child.genes.set(j, a);
    child
}

/// Exchanges the genes at two random positions (which may coincide).
pub fn swap_mutation<G: Copy>(rng: &mut StdRng, individual: &Individual<G>) -> (r: Individual<G>)
    requires
        individual.wf(),
    ensures
        exists|i: int, j: int|
            0 <= i < individual.genes.len() && 0 <= j < individual.genes.len() && r.genes@
                == swapped(individual.genes@, i, j),
        r.fitness == individual.fitness,
{
    let n = individual.genes.len();
    let point1 = random_below(rng, n);
    let point2 = random_below(rng, n);
    swap_at(individual, point1, point2)
}

/// Picks two random positions and shuffles the genes from the smaller,
/// inclusive, to the larger, exclusive.
pub fn scramble_mutation<G: Copy>(rng: &mut StdRng, individual: &Individual<G>) -> (r: Individual<
    G,
>)
    requires
        individual.wf(),
    ensures
        exists|s: int, e: int|
            0 <= s <= e < individual.genes.len() && reordered_within(
                r.genes@,
                individual.genes@,
                s,
                e,
            ),
        r.fitness == individual.fitness,
{
    let n = individual.genes.len();
    let point1 = random_below(rng, n);
    let point2 = random_below(rng, n);
    let (start, end) = if point1 <= point2 {
        (point1, point2)
    } else {
        (point2, point1)
    };
    let mut child = individual.clone();
    shuffle_range(rng, &mut child.genes, start, end);
    assert(reordered_within(child.genes@, individual.genes@, start as int, end as int));
    child
}

/// A copy of `individual` with the genes from `start`, inclusive, to `end`,
/// exclusive, in reverse order.
pub fn invert_range<G: Copy>(individual: &Individual<G>, start: usize, end: usize) -> (r:
    Individual<G>)
    requires
        start <= end <= individual.genes.len(),
    ensures
        r.genes@ == reversed_range(individual.genes@, start as int, end as int),
        r.fitness == individual.fitness,
{
    let ghost g = individual.genes@;
    let mut child = individual.clone();
    let mut lo: usize = start;
    let mut hi: usize = end;
    while hi - lo > 1
        invariant
            start <= lo <= hi <= end <= g.len(),
            lo - start == end - hi,
            child.fitness == individual.fitness,
            child.genes.len() == g.len(),
            forall|k: int|
                0 <= k < g.len() ==> #[trigger] child.genes@[k] == if (start <= k < lo || hi <= k
                    < end) {
                    g[start + end - 1 - k]
                } else {
                    g[k]
                },
        decreases hi - lo,
    {
        let a = child.genes[lo];
        let b = child.genes[hi - 1];
        child.genes.set(lo, b);
        child.genes.set(hi - 1, a);
        lo += 1;
        hi -= 1;
    }
    assert(child.genes@ =~= reversed_range(g, start as int, end as int));
    child
}

/// Picks two random positions and reverses the genes from the smaller,
/// inclusive, to the larger, exclusive.
pub fn inversion_mutation<G: Copy>(rng: &mut StdRng, individual: &Individual<G>) -> (r:
    Individual<G>)
    requires
        individual.wf(),
    ensures
        exists|s: int, e: int|
            0 <= s <= e < individual.genes.len() && r.genes@ == reversed_range(
                individual.genes@,
                s,
                e,
            ),
        r.fitness == individual.fitness,
{
    let n = individual.genes.len();
    let point1 = random_below(rng, n);
    let point2 = random_below(rng, n);
    let (start, end) = if point1 <= point2 {
        (point1, point2)
    } else {
        (point2, point1)
    };
    invert_range(individual, start, end)
}

} // verus!

use darwin::individual::selection::{
    fitness_total, roulette_index, roulette_wheel_selection, tournament_selection,
    tournament_winner,
};
use darwin::individual::Individual;
use darwin::random::{random_below, random_below_wide};
use rand::rngs::StdRng;
use rand::SeedableRng;

fn scored(fitness: &[u64]) -> Vec<Individual<f64>> {
    fitness
        .iter()
        .enumerate()
        .map(|(i, f)| {
            let mut x = Individual::new(vec![i as f64]).unwrap();
            x.fitness = *f;
            x
        })
        .collect()
}

#[test]
fn total_of_scores() {
    assert_eq!(fitness_total(&scored(&[1, 2, 3])), 6);
    assert_eq!(fitness_total(&scored(&[])), 0);
    assert_eq!(fitness_total(&scored(&[u64::MAX, u64::MAX])), 2 * (u64::MAX as u128));
}

#[test]
fn roulette_index_finds_the_slice() {
    let pop = scored(&[2, 0, 3]);
    assert_eq!(roulette_index(&pop, 0), 0);
    assert_eq!(roulette_index(&pop, 1), 0);
    assert_eq!(roulette_index(&pop, 2), 2);
    assert_eq!(roulette_index(&pop, 4), 2);
}

#[test]
fn roulette_never_picks_zero_fitness() {
    let pop = scored(&[0, 5, 0, 1]);
    for seed in 0..30u64 {
        let mut rng = StdRng::seed_from_u64(seed);
        let parents = roulette_wheel_selection(&mut rng, &pop);
        assert_eq!(parents.len(), 2);
        for p in &parents {
            assert!(p.fitness > 0);
        }
    }
}

#[test]
fn roulette_with_all_zero_scores_still_picks() {
    let pop = scored(&[0, 0, 0]);
    let mut rng = StdRng::seed_from_u64(4);
    let parents = roulette_wheel_selection(&mut rng, &pop);
    assert_eq!(parents.len(), 2);
}

#[test]
fn tournament_winner_prefers_lower() {
    let pop = scored(&[5, 3, 1, 3]);
    assert_eq!(tournament_winner(&pop, 1, 2), 2);
    assert_eq!(tournament_winner(&pop, 2, 1), 2);
    assert_eq!(tournament_winner(&pop, 1, 3), 1);
    assert_eq!(tournament_winner(&pop, 3, 1), 3);
    assert_eq!(tournament_winner(&pop, 0, 0), 0);
    assert_eq!(tournament_winner(&pop, 0, 1), 1);
}

#[test]
fn tournament_ignores_undrawn_members() {
    let pop = scored(&[1, 5]);
    assert_eq!(tournament_winner(&pop, 1, 1), 1);
}

#[test]
fn tournament_parents_are_members() {
    let pop = scored(&[5, 9, 1, 7]);
    let mut best_seen = false;
    for seed in 0..30u64 {
        let mut rng = StdRng::seed_from_u64(seed);
        let parents = tournament_selection(&mut rng, &pop);
        assert_eq!(parents.len(), 2);
        for p in &parents {
            assert_eq!(pop[p.genes[0] as usize].fitness, p.fitness);
            best_seen |= p.fitness == 1;
        }
    }
    assert!(best_seen);
}

#[test]
fn draws_stay_in_range_and_vary() {
    let mut rng = StdRng::seed_from_u64(11);
    let draws: Vec<usize> = (0..50).map(|_| random_below(&mut rng, 7)).collect();
    assert!(draws.iter().all(|d| *d < 7));
    assert!(draws.iter().any(|d| *d != draws[0]));
    let wide = random_below_wide(&mut rng, 3);
    assert!(wide < 3);
}

use darwin::genetic_algorithm::{rank, Crossover, GeneticAlgorithm, Mutation, Selection};
use darwin::individual::Individual;
use rand::rngs::StdRng;
use rand::SeedableRng;

type Fitness = fn(&Individual<f64>) -> u64;

fn distance_to_ten(individual: &Individual<f64>) -> u64 {
    individual.genes.iter().map(|g| (10.0 - g).abs() as u64).sum()
}

fn gene_sum(individual: &Individual<f64>) -> u64 {
    individual.genes.iter().sum::<f64>() as u64
}

fn engine(fitness: Fitness, size: usize, elites: usize) -> GeneticAlgorithm<f64, Fitness> {
    GeneticAlgorithm::new(
        fitness,
        Crossover::TwoPoint,
        Mutation::Swap,
        Selection::Tournament,
        size,
        200_000,
        elites > 0,
        elites,
    )
    .unwrap()
}

fn start(seed: u64, size: usize) -> Vec<Individual<f64>> {
    let mut rng = StdRng::seed_from_u64(seed);
    Individual::random_population(&mut rng, size, 4, vec![0.0, 5.0, 10.0, 15.0]).unwrap()
}

#[test]
fn rank_is_stable_and_descending() {
    let pop: Vec<Individual<f64>> = [3u64, 7, 3, 9, 7]
        .iter()
        .enumerate()
        .map(|(i, f)| {
            let mut x = Individual::new(vec![i as f64]).unwrap();
            x.fitness = *f;
            x
        })
        .collect();
    let ranked = rank(&pop);
    let order: Vec<f64> = ranked.iter().map(|x| x.genes[0]).collect();
    assert_eq!(order, vec![3.0, 1.0, 4.0, 0.0, 2.0]);
    assert!(rank::<f64>(&vec![]).is_empty());
}

#[test]
fn evolve_fills_to_size_and_keeps_elites() {
    let ga = engine(gene_sum, 7, 3);
    let mut population = start(1, 5);
    let mut scored = population.clone();
    ga.evaluate(&mut scored);
    let best = rank(&scored);
    let mut rng = StdRng::seed_from_u64(2);
    ga.evolve(&mut rng, &mut population);
    assert_eq!(population.len(), 7);
    for i in 0..3 {
        assert_eq!(population[i].genes, best[i].genes);
        assert_eq!(population[i].fitness, best[i].fitness);
    }
    assert!(population.iter().all(|x| x.genes.len() == 4));
}

#[test]
fn evolve_reaches_an_odd_size_exactly() {
    let ga = engine(gene_sum, 3, 0);
    let mut population = start(4, 6);
    let mut rng = StdRng::seed_from_u64(4);
    ga.evolve(&mut rng, &mut population);
    assert_eq!(population.len(), 3);
}

#[test]
fn run_stops_at_zero_fitness() {
    let ga = engine(distance_to_ten, 10, 2);
    let mut population = vec![Individual::new(vec![10.0, 10.0, 10.0, 10.0]).unwrap(); 10];
    let mut rng = StdRng::seed_from_u64(0);
    let history = ga.run(&mut rng, &mut population, 50);
    assert_eq!(history.len(), 1);
    assert_eq!(history[0].fitness, 0);
    assert_eq!(population[0].fitness, 0);
}

#[test]
fn run_does_at_most_the_given_generations() {
    let ga = engine(gene_sum, 6, 1);
    let mut population = start(8, 6);
    let mut rng = StdRng::seed_from_u64(8);
    let history = ga.run(&mut rng, &mut population, 5);
    assert!(history.len() <= 5);
    assert!(!history.is_empty());
    for (i, best) in history.iter().enumerate() {
        if i + 1 < history.len() {
            assert_ne!(best.fitness, 0);
        }
    }
    if history.len() < 5 {
        assert_eq!(history.last().unwrap().fitness, 0);
    }
    let none = ga.run(&mut rng, &mut population, 0);
    assert!(none.is_empty());
}

#[test]
fn seeded_runs_repeat_exactly() {
    let ga = GeneticAlgorithm::new(
        distance_to_ten as Fitness,
        Crossover::Uniform,
        Mutation::Scramble,
        Selection::RouletteWheel,
        8,
        500_000,
        true,
        2,
    )
    .unwrap();
    let trace = |seed: u64| {
        let mut population = start(21, 8);
        let mut rng = StdRng::seed_from_u64(seed);
        let history = ga.run(&mut rng, &mut population, 12);
        let bests: Vec<(Vec<f64>, u64)> =
            history.iter().map(|b| (b.genes.clone(), b.fitness)).collect();
        let last: Vec<Vec<f64>> = population.iter().map(|x| x.genes.clone()).collect();
        (bests, last)
    };
    assert_eq!(trace(77), trace(77));
}

#[test]
fn every_strategy_keeps_gene_length() {
    let crossovers = [Crossover::SinglePoint, Crossover::TwoPoint, Crossover::Uniform];
    let mutations = [Mutation::Swap, Mutation::Scramble, Mutation::Inversion];
    let selections = [Selection::RouletteWheel, Selection::Tournament];
    for c in crossovers {
        for m in mutations {
            for s in selections {
                let ga = GeneticAlgorithm::new(gene_sum as Fitness, c, m, s, 5, 1_000_000, false, 0)
                    .unwrap();
                let mut population = start(3, 4);
                let mut rng = StdRng::seed_from_u64(3);
                ga.evolve(&mut rng, &mut population);
                assert_eq!(population.len(), 5);
                assert!(population.iter().all(|x| x.genes.len() == 4));
            }
        }
    }
}

#[test]
fn generations_only_reuse_existing_genes() {
    let pool = vec![0.0, 5.0, 10.0, 15.0];
    for m in [Mutation::Swap, Mutation::Scramble, Mutation::Inversion] {
        let ga = GeneticAlgorithm::new(
            gene_sum as Fitness,
            Crossover::Uniform,
            m,
            Selection::RouletteWheel,
            9,
            1_000_000,
            true,
            1,
        )
        .unwrap();
        let mut population = start(13, 9);
        let mut rng = StdRng::seed_from_u64(13);
        ga.run(&mut rng, &mut population, 6);
        assert_eq!(population.len(), 9);
        assert!(population.iter().all(|x| x.genes.iter().all(|g| pool.contains(g))));
    }
}

#[test]
fn rate_zero_only_recombines_in_place() {
    let ga = GeneticAlgorithm::new(
        gene_sum as Fitness,
        Crossover::Uniform,
        Mutation::Inversion,
        Selection::Tournament,
        12,
        0,
        false,
        0,
    )
    .unwrap();
    let before: Vec<Individual<f64>> = (0..6)
        .map(|i| Individual::new(vec![i as f64, 10.0 + i as f64, 20.0 + i as f64]).unwrap())
        .collect();
    let mut population = before.clone();
    let mut rng = StdRng::seed_from_u64(31);
    ga.evolve(&mut rng, &mut population);
    assert_eq!(population.len(), 12);
    for x in &population {
        for j in 0..3 {
            assert!(before.iter().any(|b| b.genes[j] == x.genes[j]));
        }
    }
}

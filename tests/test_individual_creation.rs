use darwin::individual::{Individual, IndividualError, DEFAULT_FITNESS};
use darwin::individual::mutation::swap_mutation;
use rand::rngs::StdRng;
use rand::SeedableRng;

#[test]
fn test_individual_creation_success() {
    let genes: Vec<f64> = vec![1.0, 2.0, 3.0];
    let individual = Individual::new(genes).unwrap();
    assert_eq!(individual.genes, vec![1.0, 2.0, 3.0]);
    assert_eq!(individual.fitness, Individual::<f64>::default_fitness());
}

#[test]
fn test_individual_creation_fail_empty_genes() {
    let genes: Vec<f64> = vec![];
    assert_eq!(Individual::new(genes).err(), Some(IndividualError::EmptyGenes));
}

#[test]
fn test_individual_random_population_success() {
    let mut rng = StdRng::seed_from_u64(1);
    let gene_pool = vec![1.0, 2.0, 3.0, 4.0, 5.0];
    let population = Individual::random_population(&mut rng, 10, 3, gene_pool).unwrap();
    assert_eq!(population.len(), 10);
    for individual in population {
        assert_eq!(individual.genes.len(), 3);
        assert!(individual.genes[0] >= 1.0);
        assert!(individual.genes[0] <= 5.0);
        assert!(individual.genes[1] >= 1.0);
        assert!(individual.genes[1] <= 5.0);
        assert!(individual.genes[2] >= 1.0);
        assert!(individual.genes[2] <= 5.0);
    }
}

#[test]
fn default_fitness_is_five_million() {
    assert_eq!(Individual::<f64>::default_fitness(), 5_000_000);
    assert_eq!(DEFAULT_FITNESS, 5_000_000);
}

#[test]
fn random_population_genes_come_from_pool() {
    let pool = vec![2.5, 7.0];
    for seed in 0..20u64 {
        let mut rng = StdRng::seed_from_u64(seed);
        let population = Individual::random_population(&mut rng, 4, 6, pool.clone()).unwrap();
        assert_eq!(population.len(), 4);
        for individual in &population {
            assert_eq!(individual.genes.len(), 6);
            assert_eq!(individual.fitness, DEFAULT_FITNESS);
            assert!(individual.genes.iter().all(|g| pool.contains(g)));
        }
    }
}

#[test]
fn random_population_draws_vary() {
    let mut rng = StdRng::seed_from_u64(3);
    let population = Individual::random_population(&mut rng, 20, 5, vec![1.0, 2.0]).unwrap();
    let ones = population.iter().flat_map(|i| i.genes.iter()).filter(|g| **g == 1.0).count();
    assert!(ones > 0 && ones < 100);
}

#[test]
fn random_population_zero_gene_length_fails() {
    let mut rng = StdRng::seed_from_u64(0);
    let r = Individual::random_population(&mut rng, 3, 0, vec![1.0]);
    assert_eq!(r.err(), Some(IndividualError::EmptyGenes));
    let empty = Individual::random_population(&mut rng, 0, 0, vec![1.0]).unwrap();
    assert!(empty.is_empty());
}

#[test]
fn mutating_a_duplicate_leaves_the_original() {
    let mut rng = StdRng::seed_from_u64(9);
    let mut original = Individual::new(vec![1.0, 2.0, 3.0, 4.0]).unwrap();
    original.fitness = 42;
    let copy = original.clone();
    for _ in 0..10 {
        let _mutant = swap_mutation(&mut rng, &copy);
    }
    assert_eq!(original.genes, vec![1.0, 2.0, 3.0, 4.0]);
    assert_eq!(original.fitness, 42);
    assert_eq!(copy.genes, original.genes);
}

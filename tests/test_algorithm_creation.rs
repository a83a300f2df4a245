use darwin::genetic_algorithm::{ConfigError, Crossover, GeneticAlgorithm, Mutation, Selection};
use darwin::individual::Individual;

fn first_gene(individual: &Individual<f64>) -> u64 {
    individual.genes[0] as u64
}

fn engine(
    population_size: usize,
    mutation_rate: i64,
    elitism: bool,
    elitism_count: usize,
) -> Result<GeneticAlgorithm<f64, fn(&Individual<f64>) -> u64>, ConfigError> {
    GeneticAlgorithm::new(
        first_gene as fn(&Individual<f64>) -> u64,
        Crossover::SinglePoint,
        Mutation::Inversion,
        Selection::Tournament,
        population_size,
        mutation_rate,
        elitism,
        elitism_count,
    )
}

#[test]
fn test_ga_creation_success() {
    let ga = engine(10, 100_000, true, 2).unwrap();
    assert_eq!(ga.population_size, 10);
    assert_eq!(ga.mutation_rate, 100_000);
    assert_eq!(ga.elitism, true);
    assert_eq!(ga.elitism_count, 2);
}

#[test]
fn test_ga_creation_fail_elitism_count() {
    assert_eq!(engine(10, 100_000, true, 11).err(), Some(ConfigError::ElitismCountTooLarge));
}

#[test]
fn test_ga_creation_fail_mutation_rate() {
    assert_eq!(engine(10, 1_100_000, true, 2).err(), Some(ConfigError::MutationRateOutOfRange));
}

#[test]
fn test_ga_creation_fail_population_size() {
    assert_eq!(engine(1, 100_000, false, 0).err(), Some(ConfigError::PopulationTooSmall));
}

#[test]
fn test_ga_evaluate() {
    let ga = engine(10, 100_000, true, 2).unwrap();
    let mut population = vec![
        Individual::new(vec![1.0]).unwrap(),
        Individual::new(vec![2.0]).unwrap(),
        Individual::new(vec![3.0]).unwrap(),
    ];
    ga.evaluate(&mut population);
    assert_eq!(population[2].fitness, 3);
    assert_eq!(population[1].fitness, 2);
    assert_eq!(population[0].fitness, 1);
    assert_eq!(population[2].genes, vec![3.0]);
    assert_eq!(population[0].genes, vec![1.0]);
}

#[test]
fn config_boundaries() {
    assert!(engine(2, 100_000, false, 0).is_ok());
    assert!(engine(10, 0, false, 0).is_ok());
    assert!(engine(10, 1_000_000, false, 0).is_ok());
    assert_eq!(engine(10, -100_000, false, 0).err(), Some(ConfigError::MutationRateOutOfRange));
    assert!(engine(10, 100_000, true, 10).is_ok());
    assert!(engine(10, 100_000, false, 11).is_ok());
}

#[test]
fn config_errors_come_in_order() {
    assert_eq!(engine(1, -1, true, 2).err(), Some(ConfigError::ElitismCountTooLarge));
    assert_eq!(engine(1, -1, false, 2).err(), Some(ConfigError::MutationRateOutOfRange));
}

use evolution::genome::{
    count_set_genes, crossover_at, genome_from_bools, genome_to_bools, mutate_with,
};
use evolution::variation::{is_mutation, MUTATION_RATE_DENOMINATOR, MUTATION_RATE_NUMERATOR};
use evolution::{Genetics, Genome, GENOME_LEN};

fn genome_with_prefix(set: usize) -> Genome {
    let mut states = [false; GENOME_LEN];
    for state in states.iter_mut().take(set) {
        *state = true;
    }
    genome_from_bools(&states)
}

fn ratio(count: usize) -> f64 {
    count as f64 / GENOME_LEN as f64
}

#[test]
fn genome_length_is_140() {
    assert_eq!(GENOME_LEN, 140);
    assert_eq!(genome_to_bools(&genome_with_prefix(3)).len(), 140);
}

#[test]
fn genome_round_trips_through_bools() {
    let mut states = [false; GENOME_LEN];
    states[0] = true;
    states[17] = true;
    states[139] = true;
    let genome = genome_from_bools(&states);
    assert_eq!(genome_to_bools(&genome), states.to_vec());
}

#[test]
fn fitness_of_all_false_genome_is_zero() {
    let genome = genome_from_bools(&[false; GENOME_LEN]);
    assert_eq!(count_set_genes(&genome), 0);
    assert_eq!(ratio(count_set_genes(&genome)), 0.0);
}

#[test]
fn fitness_of_all_true_genome_is_one() {
    let genome = genome_from_bools(&[true; GENOME_LEN]);
    assert_eq!(count_set_genes(&genome), 140);
    assert_eq!(ratio(count_set_genes(&genome)), 1.0);
}

#[test]
fn fitness_is_the_fraction_of_set_genes() {
    assert_eq!(count_set_genes(&genome_with_prefix(70)), 70);
    assert_eq!(ratio(count_set_genes(&genome_with_prefix(70))), 0.5);
    assert_eq!(count_set_genes(&genome_with_prefix(35)), 35);
    assert_eq!(ratio(count_set_genes(&genome_with_prefix(35))), 0.25);
    let mut states = [false; GENOME_LEN];
    states[139] = true;
    assert_eq!(count_set_genes(&genome_from_bools(&states)), 1);
}

#[test]
fn engine_fitness_agrees_with_the_count() {
    let engine = Genetics::start();
    for set in [0, 1, 69, 139, 140] {
        let genome = genome_with_prefix(set);
        assert_eq!(engine.fitness(&genome), set);
    }
}

#[test]
fn crossover_at_zero_copies_parent_b() {
    let a = genome_from_bools(&[true; GENOME_LEN]);
    let b = genome_with_prefix(20);
    let child = crossover_at(&a, &b, 0);
    assert_eq!(genome_to_bools(&child), genome_to_bools(&b));
}

#[test]
fn crossover_at_last_point_takes_only_the_last_gene_from_parent_b() {
    let a = genome_from_bools(&[true; GENOME_LEN]);
    let b = genome_from_bools(&[false; GENOME_LEN]);
    let child = genome_to_bools(&crossover_at(&a, &b, GENOME_LEN - 1));
    let mut expected = vec![true; GENOME_LEN];
    expected[GENOME_LEN - 1] = false;
    assert_eq!(child, expected);
}

#[test]
fn crossover_in_the_middle_splices_the_parents() {
    let a = genome_from_bools(&[true; GENOME_LEN]);
    let b = genome_from_bools(&[false; GENOME_LEN]);
    let child = genome_to_bools(&crossover_at(&a, &b, 57));
    for (i, state) in child.iter().enumerate() {
        assert_eq!(*state, i < 57, "gene {}", i);
    }
}

#[test]
fn crossover_beyond_the_end_copies_parent_a() {
    let a = genome_with_prefix(99);
    let b = genome_from_bools(&[false; GENOME_LEN]);
    assert_eq!(genome_to_bools(&crossover_at(&a, &b, GENOME_LEN)), genome_to_bools(&a));
    assert_eq!(genome_to_bools(&crossover_at(&a, &b, usize::MAX)), genome_to_bools(&a));
}

#[test]
fn crossover_leaves_the_parents_alone() {
    let a = genome_with_prefix(99);
    let b = genome_with_prefix(3);
    let _child = crossover_at(&a, &b, 50);
    assert_eq!(count_set_genes(&a), 99);
    assert_eq!(count_set_genes(&b), 3);
}

#[test]
fn mutation_without_flips_changes_nothing() {
    let genome = genome_with_prefix(41);
    let mutated = mutate_with(genome, &[false; GENOME_LEN]);
    assert_eq!(genome_to_bools(&mutated), genome_to_bools(&genome));
}

#[test]
fn mutation_toggles_exactly_the_flipped_genes() {
    let genome = genome_with_prefix(2);
    let mut flips = [false; GENOME_LEN];
    flips[1] = true;
    flips[5] = true;
    let mutated = genome_to_bools(&mutate_with(genome, &flips));
    let mut expected = vec![false; GENOME_LEN];
    expected[0] = true;
    expected[5] = true;
    assert_eq!(mutated, expected);
}

#[test]
fn mutation_with_every_flip_inverts_the_genome() {
    let genome = genome_with_prefix(100);
    let mutated = mutate_with(genome, &[true; GENOME_LEN]);
    assert_eq!(count_set_genes(&mutated), 40);
    let restored = mutate_with(mutated, &[true; GENOME_LEN]);
    assert_eq!(genome_to_bools(&restored), genome_to_bools(&genome));
}

#[test]
fn mutation_rate_is_three_in_a_thousand() {
    assert_eq!(MUTATION_RATE_NUMERATOR, 3);
    assert_eq!(MUTATION_RATE_DENOMINATOR, 1000);
    assert_eq!(MUTATION_RATE_NUMERATOR as f64 / MUTATION_RATE_DENOMINATOR as f64, 0.003);
    assert!(is_mutation(0));
    assert!(is_mutation(2));
    assert!(!is_mutation(3));
    assert!(!is_mutation(999));
    let flipping = (0..MUTATION_RATE_DENOMINATOR).filter(|drawn| is_mutation(*drawn)).count();
    assert_eq!(flipping, 3);
}

#[test]
fn random_crossover_splices_at_a_point_inside_the_genome() {
    let engine = Genetics::start();
    let a = genome_from_bools(&[true; GENOME_LEN]);
    let b = genome_from_bools(&[false; GENOME_LEN]);
    let mut seen_before_end = false;
    for _ in 0..2000 {
        let child = genome_to_bools(&engine.crossover(&a, &b));
        let point = child.iter().take_while(|state| **state).count();
        assert!(point < GENOME_LEN, "the point never lies at the end");
        assert!(child[point..].iter().all(|state| !*state));
        assert!(!child[GENOME_LEN - 1]);
        seen_before_end = seen_before_end || point + 1 < GENOME_LEN;
    }
    assert!(seen_before_end);
}

#[test]
fn random_crossover_draws_a_point_for_every_child() {
    let engine = Genetics::start();
    let a = genome_from_bools(&[true; GENOME_LEN]);
    let b = genome_from_bools(&[false; GENOME_LEN]);
    let first = count_set_genes(&engine.crossover(&a, &b));
    let varied = (0..200).any(|_| count_set_genes(&engine.crossover(&a, &b)) != first);
    assert!(varied);
}

#[test]
fn random_mutation_flips_about_three_genes_in_a_thousand() {
    let engine = Genetics::start();
    let genome = genome_from_bools(&[false; GENOME_LEN]);
    let rounds = 2000;
    let mut flipped = 0;
    for _ in 0..rounds {
        flipped += count_set_genes(&engine.mutate(genome));
    }
    let genes = rounds * GENOME_LEN;
    assert!(flipped > genes / 1000, "{} of {} genes flipped", flipped, genes);
    assert!(flipped < genes * 6 / 1000, "{} of {} genes flipped", flipped, genes);
}

use evolution::genome::genome_from_bools;
use evolution::roulette::{roulette_wheel_pick, wheel_width};
use evolution::selection::rank;
use evolution::{Genetics, Genome, GENOME_LEN};

fn genome_with_prefix(set: usize) -> Genome {
    let mut states = [false; GENOME_LEN];
    for state in states.iter_mut().take(set) {
        *state = true;
    }
    genome_from_bools(&states)
}

fn population(scores: &[usize]) -> Vec<Genome> {
    scores.iter().map(|set| genome_with_prefix(*set)).collect()
}

#[test]
fn rank_sorts_by_fitness_descending() {
    let ranking = rank(&population(&[10, 100, 50, 120, 0]));
    assert_eq!(ranking, vec![(3, 120), (1, 100), (2, 50), (0, 10), (4, 0)]);
}

#[test]
fn rank_keeps_equal_scores_in_index_order() {
    let ranking = rank(&population(&[7, 90, 7, 90, 7]));
    assert_eq!(ranking, vec![(1, 90), (3, 90), (0, 7), (2, 7), (4, 7)]);
}

#[test]
fn rank_of_a_uniform_population_is_the_index_order() {
    let ranking = rank(&population(&[140, 140, 140, 140, 140]));
    assert_eq!(ranking, vec![(0, 140), (1, 140), (2, 140), (3, 140), (4, 140)]);
}

#[test]
fn rank_of_an_ascending_population_is_reversed() {
    let ranking = rank(&population(&[1, 2, 3, 4, 5]));
    assert_eq!(ranking, vec![(4, 5), (3, 4), (2, 3), (1, 2), (0, 1)]);
}

#[test]
fn rank_of_small_populations() {
    assert_eq!(rank(&population(&[])), vec![]);
    assert_eq!(rank(&population(&[33])), vec![(0, 33)]);
    assert_eq!(rank(&population(&[33, 34])), vec![(1, 34), (0, 33)]);
}

#[test]
fn engine_ranking_lists_every_individual_once() {
    let engine = Genetics::start();
    let ranking = engine.fitness_scores();
    assert_eq!(ranking.len(), 5);
    let mut indices: Vec<usize> = ranking.iter().map(|entry| entry.0).collect();
    indices.sort();
    assert_eq!(indices, vec![0, 1, 2, 3, 4]);
    for pair in ranking.windows(2) {
        assert!(pair[0].1 > pair[1].1 || (pair[0].1 == pair[1].1 && pair[0].0 < pair[1].0));
    }
    for entry in ranking.iter() {
        assert!(entry.1 <= GENOME_LEN);
    }
}

#[test]
fn wheel_pick_lands_on_the_sector_of_the_number() {
    let entries = [(0, 2), (1, 0), (2, 3)];
    assert_eq!(roulette_wheel_pick(&entries, 0), Some(0));
    assert_eq!(roulette_wheel_pick(&entries, 1), Some(0));
    assert_eq!(roulette_wheel_pick(&entries, 2), Some(2));
    assert_eq!(roulette_wheel_pick(&entries, 3), Some(2));
    assert_eq!(roulette_wheel_pick(&entries, 4), Some(2));
}

#[test]
fn wheel_pick_names_the_individual_not_the_position() {
    let entries = [(4, 1), (2, 1), (3, 1)];
    assert_eq!(roulette_wheel_pick(&entries, 0), Some(4));
    assert_eq!(roulette_wheel_pick(&entries, 1), Some(2));
    assert_eq!(roulette_wheel_pick(&entries, 2), Some(3));
}

#[test]
fn wheel_pick_beyond_the_wheel_falls_back_to_the_first_entry() {
    let entries = [(3, 2), (1, 0), (2, 3)];
    assert_eq!(roulette_wheel_pick(&entries, 5), Some(3));
    assert_eq!(roulette_wheel_pick(&entries, usize::MAX), Some(3));
    assert_eq!(roulette_wheel_pick(&[(9, 0)], 0), Some(9));
}

#[test]
fn wheel_pick_without_entries_gives_nothing() {
    assert_eq!(roulette_wheel_pick(&[], 0), None);
    assert_eq!(roulette_wheel_pick(&[], 17), None);
}

#[test]
fn wheel_width_is_the_sum_of_the_scores() {
    assert_eq!(wheel_width(&[]), Some(0));
    assert_eq!(wheel_width(&[(0, 2), (1, 0), (2, 3)]), Some(5));
    assert_eq!(wheel_width(&[(0, usize::MAX)]), Some(usize::MAX));
}

#[test]
fn wheel_width_beyond_the_machine_word_is_refused() {
    assert_eq!(wheel_width(&[(0, usize::MAX), (1, 1)]), None);
    assert_eq!(wheel_width(&[(0, usize::MAX), (1, 0), (2, usize::MAX)]), None);
}

#[test]
fn roulette_wheel_selects_in_proportion_to_fitness() {
    let engine = Genetics::start();
    let entries = [(0, 30), (1, 0), (2, 10)];
    let mut picked = [0usize; 3];
    for _ in 0..4000 {
        let individual = engine.roulette_wheel_select(&entries).expect("the wheel has width");
        picked[individual] += 1;
    }
    assert_eq!(picked[1], 0);
    assert!(picked[0] > 2600 && picked[0] < 3400, "{:?}", picked);
    assert!(picked[2] > 600 && picked[2] < 1400, "{:?}", picked);
}

#[test]
fn roulette_wheel_without_width_selects_nothing() {
    let engine = Genetics::start();
    assert_eq!(engine.roulette_wheel_select(&[]), None);
    assert_eq!(engine.roulette_wheel_select(&[(0, 0), (1, 0)]), None);
}

#[test]
fn roulette_wheel_wider_than_the_machine_word_selects_nothing() {
    let engine = Genetics::start();
    assert_eq!(engine.roulette_wheel_select(&[(0, usize::MAX), (1, 1)]), None);
}

#[test]
fn roulette_wheel_with_one_sector_selects_its_individual() {
    let engine = Genetics::start();
    for _ in 0..100 {
        assert_eq!(engine.roulette_wheel_select(&[(3, 0), (4, 7), (0, 0)]), Some(4));
    }
}

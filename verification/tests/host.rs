use evolution::genome::{genome_from_bools, genome_to_bools};
use evolution::{AppLogic, Genetics, Logic, GENOME_LEN, POP_SIZE};

fn drive<T: Logic>(logic: &mut T, ticks: usize) -> (usize, Vec<bool>) {
    for _ in 0..ticks {
        logic.update();
    }
    logic.get_gen()
}

#[test]
fn host_sees_generation_zero_at_the_start() {
    let mut logic = AppLogic::start();
    let (generation, genome) = logic.get_gen();
    assert_eq!(generation, 0);
    assert_eq!(genome.len(), GENOME_LEN);
}

#[test]
fn host_sees_one_generation_per_tick() {
    let mut logic = AppLogic::start();
    assert_eq!(drive(&mut logic, 1).0, 1);
    assert_eq!(drive(&mut logic, 41).0, 42);
    assert_eq!(drive(&mut logic, 0).0, 42);
}

#[test]
fn host_sees_the_last_genome_of_the_engine() {
    let mut states = [false; GENOME_LEN];
    states[3] = true;
    let marked = genome_from_bools(&states);
    let blank = genome_from_bools(&[false; GENOME_LEN]);
    let engine = Genetics::with_population(&[blank, blank, blank, blank, marked]);
    let mut logic = AppLogic::with_engine(engine);
    assert_eq!(logic.get_gen(), (0, genome_to_bools(&marked)));
}

#[test]
fn host_report_follows_the_engine() {
    let all = genome_from_bools(&[true; GENOME_LEN]);
    let mut logic = AppLogic::with_engine(Genetics::with_population(&[all; POP_SIZE]));
    assert_eq!(logic.report(), Some((0, (0, 140))));
    logic.update();
    assert_eq!(logic.report(), None);
}

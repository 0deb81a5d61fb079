//! Laws of evolution: what holds of every population under every draw.

use vstd::prelude::*;
use crate::genetics::{admissible, EngineState, POP_SIZE};
use crate::genome::{all_false, all_true, GENOME_LEN};
use crate::selection::{fittest, lemma_runner_up_exists, runner_up, scores_of};
use crate::variation::Draw;

verus! {

/// The state after a run of generations, bred with one sequence of draws
/// per generation.
pub open spec fn evolved(state: EngineState, rounds: Seq<Seq<Draw>>) -> EngineState
    decreases rounds.len(),
{
    if rounds.len() == 0 {
        state
    } else {
        evolved(state, rounds.drop_last()).stepped(rounds.last())
    }
}

/// Every generation of a run is bred with admissible draws.
pub open spec fn all_admissible(rounds: Seq<Seq<Draw>>) -> bool {
    forall|r: int| 0 <= r < rounds.len() ==> admissible(#[trigger] rounds[r])
}

/// None of the draws flips a gene, as under a mutation rate of zero.
pub open spec fn without_mutation(draws: Seq<Draw>) -> bool {
    forall|k: int| 0 <= k < draws.len() ==> all_false((#[trigger] draws[k]).flips)
}

/// No generation of a run is bred with a draw that flips a gene.
pub open spec fn never_mutating(rounds: Seq<Seq<Draw>>) -> bool {
    forall|r: int| 0 <= r < rounds.len() ==> without_mutation(#[trigger] rounds[r])
}

/// Every genome of the population has all of its genes set.
pub open spec fn all_genomes_true(population: Seq<Seq<bool>>) -> bool {
    forall|i: int| 0 <= i < population.len() ==> all_true(#[trigger] population[i])
}

/// The two parents of a well-formed population are genomes of it.
pub proof fn lemma_parents_are_members(state: EngineState)
    requires
        state.well_formed(),
    ensures
        0 <= fittest(scores_of(state.population)) < POP_SIZE,
        0 <= runner_up(scores_of(state.population)) < POP_SIZE,
        fittest(scores_of(state.population)) != runner_up(scores_of(state.population)),
        state.parent_a().len() == GENOME_LEN,
        state.parent_b().len() == GENOME_LEN,
{
    lemma_runner_up_exists(scores_of(state.population));
}

/// One generation keeps the shape of the population and raises the
/// generation number by exactly one.
pub proof fn lemma_step_keeps_shape(state: EngineState, draws: Seq<Draw>)
    requires
        state.well_formed(),
        admissible(draws),
    ensures
        state.stepped(draws).well_formed(),
        state.stepped(draws).generation == state.generation + 1,
{
    lemma_parents_are_members(state);
}

/// However many generations are bred, the population keeps its shape, and
/// the generation number has grown by the number of generations bred.
pub proof fn lemma_evolution_keeps_shape(state: EngineState, rounds: Seq<Seq<Draw>>)
    requires
        state.well_formed(),
        all_admissible(rounds),
    ensures
        evolved(state, rounds).well_formed(),
        evolved(state, rounds).generation == state.generation + rounds.len(),
    decreases rounds.len(),
{
    if rounds.len() > 0 {
        let earlier = rounds.drop_last();
        lemma_evolution_keeps_shape(state, earlier);
        lemma_step_keeps_shape(evolved(state, earlier), rounds.last());
    }
}

/// The generation number never decreases: after some of the generations of
/// a run it is no greater than after all of them.
pub proof fn lemma_generation_never_decreases(
    state: EngineState,
    rounds: Seq<Seq<Draw>>,
    bred: int,
)
    requires
        0 <= bred <= rounds.len(),
    ensures
        evolved(state, rounds.take(bred)).generation <= evolved(state, rounds).generation,
    decreases rounds.len() - bred,
{
    if bred < rounds.len() {
        assert(rounds.take(bred + 1).drop_last() =~= rounds.take(bred));
        lemma_generation_never_decreases(state, rounds, bred + 1);
    } else {
        assert(rounds.take(bred) =~= rounds);
    }
}

/// Without mutation, two parents that have all genes set have only children
/// with all genes set.
pub proof fn lemma_true_parents_breed_true(state: EngineState, draws: Seq<Draw>)
    requires
        state.well_formed(),
        admissible(draws),
        without_mutation(draws),
        all_true(state.parent_a()),
        all_true(state.parent_b()),
    ensures
        all_genomes_true(state.stepped(draws).population),
        state.stepped(draws).well_formed(),
{
    lemma_step_keeps_shape(state, draws);
    lemma_parents_are_members(state);
    let next = state.stepped(draws).population;
    assert forall|k: int| 0 <= k < next.len() implies all_true(#[trigger] next[k]) by {}
}

/// In a population whose genomes have all genes set, so have both parents.
pub proof fn lemma_true_population_has_true_parents(state: EngineState)
    requires
        state.well_formed(),
        all_genomes_true(state.population),
    ensures
        all_true(state.parent_a()),
        all_true(state.parent_b()),
{
    lemma_parents_are_members(state);
}

/// Fixed point: without mutation, a population whose two fittest genomes
/// have all genes set turns, with the first generation bred, into one whose
/// genomes all have all genes set, and stays so for every generation after.
pub proof fn lemma_all_true_is_fixed_point(state: EngineState, rounds: Seq<Seq<Draw>>)
    requires
        state.well_formed(),
        all_true(state.parent_a()),
        all_true(state.parent_b()),
        rounds.len() >= 1,
        all_admissible(rounds),
        never_mutating(rounds),
    ensures
        all_genomes_true(evolved(state, rounds).population),
        evolved(state, rounds).well_formed(),
    decreases rounds.len(),
{
    let earlier = rounds.drop_last();
    if earlier.len() == 0 {
        lemma_true_parents_breed_true(state, rounds.last());
    } else {
        lemma_all_true_is_fixed_point(state, earlier);
        lemma_true_population_has_true_parents(evolved(state, earlier));
        lemma_true_parents_breed_true(evolved(state, earlier), rounds.last());
    }
}

} // verus!

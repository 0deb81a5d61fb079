//! The evolutionary engine: a population and its generation counter.

use vstd::prelude::*;
use crate::gene::{Gene, Unit};
use crate::genome::{
    all_false,
    all_true,
    count_set_genes,
    count_true,
    crossed,
    crossover_at,
    genes,
    genome_to_bools,
    lemma_count_true_bounded,
    lemma_count_true_full,
    lemma_count_true_zero,
    mutate_with,
    mutated,
    population_genes,
    Genome,
    GENOME_LEN,
};
use crate::random::{random_below, random_bool};
use crate::roulette::{lands_on, roulette_wheel_pick, total_score, wheel_width};
use crate::selection::{fittest, is_ranking, lemma_ranking_heads, rank, runner_up, scores_of};
use crate::variation::{draws_of, random_flips, Draw, Variation};

verus! {

/// Number of genomes in every generation.
pub const POP_SIZE: usize = 5;

/// A report on the fittest individual is due whenever the generation number
/// is a multiple of this.
pub const REPORT_INTERVAL: usize = 10;

/// What an engine holds, as mathematical values: the gene states of every
/// genome of the current generation, and the number of generations bred.
pub struct EngineState {
    /// The gene states of every genome, in the order of the population.
    pub population: Seq<Seq<bool>>,
    /// The number of generations bred so far.
    pub generation: nat,
}

impl EngineState {
    /// The population has `POP_SIZE` genomes of `GENOME_LEN` genes each.
    pub open spec fn well_formed(self) -> bool {
        &&& self.population.len() == POP_SIZE
        &&& forall|i: int|
            0 <= i < self.population.len() ==> (#[trigger] self.population[i]).len() == GENOME_LEN
    }

    /// The genome of the fittest individual: parent A of the next generation.
    pub open spec fn parent_a(self) -> Seq<bool> {
        self.population[fittest(scores_of(self.population))]
    }

    /// The genome of the runner-up: parent B of the next generation.
    pub open spec fn parent_b(self) -> Seq<bool> {
        self.population[runner_up(scores_of(self.population))]
    }

    /// What a host sees of the engine: the generation number and the last
    /// genome of the population; nothing if the population is empty.
    pub open spec fn snapshot(self) -> Option<(nat, Seq<bool>)> {
        if self.population.len() == 0 {
            None
        } else {
            Some((self.generation, self.population.last()))
        }
    }

    /// What the engine reports of itself: at every `REPORT_INTERVAL`-th
    /// generation the generation number, the index of the fittest individual
    /// and its score; nothing in between.
    pub open spec fn report(self) -> Option<(nat, (int, nat))> {
        if self.generation % (REPORT_INTERVAL as nat) == 0 {
            let best = fittest(scores_of(self.population));
            Some((self.generation, (best, scores_of(self.population)[best])))
        } else {
            None
        }
    }

    /// The state after one generation: every draw gives one child of the two
    /// fittest individuals, the children replace the population, and the
    /// counter goes up by one.
    pub open spec fn stepped(self, draws: Seq<Draw>) -> EngineState {
        EngineState {
            population: Seq::new(
                draws.len(),
                |k: int| draws[k].child(self.parent_a(), self.parent_b()),
            ),
            generation: self.generation + 1,
        }
    }
}

/// The configuration admits selection and crossover: a population has two
/// parents to give, and a genome has a gene to cut at.
pub proof fn lemma_configuration_is_sound()
    ensures
        POP_SIZE >= 2,
        GENOME_LEN >= 1,
{
}

/// One draw per child of a generation, each of them admissible.
pub open spec fn admissible(draws: Seq<Draw>) -> bool {
    &&& draws.len() == POP_SIZE
    &&& forall|k: int| 0 <= k < draws.len() ==> (#[trigger] draws[k]).admissible()
}

/// The evolutionary engine.
pub struct Genetics {
    population: Vec<Genome>,
    generation: usize,
}

impl View for Genetics {
    type V = EngineState;

    closed spec fn view(&self) -> EngineState {
        EngineState {
            population: population_genes(self.population@),
            generation: self.generation as nat,
        }
    }
}

impl Genetics {
    /// An engine always holds a full population.
    #[verifier::type_invariant]
    spec fn population_is_full(&self) -> bool {
        self.population.len() == POP_SIZE
    }

    /// An engine at generation zero whose genes are drawn independently and
    /// uniformly at random.
    pub fn start() -> (engine: Self)
        ensures
            engine@.generation == 0,
            engine@.well_formed(),
    {
        let mut population: Vec<Genome> = Vec::new();
        let mut n: usize = 0;
        while n < POP_SIZE
            invariant
                n <= POP_SIZE,
                population.len() == n,
            decreases POP_SIZE - n,
        {
            let mut genome: Genome = [Unit::new(); GENOME_LEN];
            let mut i: usize = 0;
            while i < GENOME_LEN
                invariant
                    i <= GENOME_LEN,
                decreases GENOME_LEN - i,
            {
                genome[i] = Unit::from_legacy(random_bool());
                i += 1;
            }
            population.push(genome);
            n += 1;
        }
        Self { population, generation: 0 }
    }

    /// An engine at generation zero with the given population.
    pub fn with_population(population: &[Genome; POP_SIZE]) -> (engine: Self)
        ensures
            engine@.generation == 0,
            engine@.population == population_genes(population@),
            engine@.well_formed(),
    {
        let mut genomes: Vec<Genome> = Vec::new();
        let mut n: usize = 0;
        while n < POP_SIZE
            invariant
                n <= POP_SIZE,
                genomes.len() == n,
                forall|i: int| 0 <= i < n ==> genomes[i] == population[i],
            decreases POP_SIZE - n,
        {
            genomes.push(population[n]);
            n += 1;
        }
        Self { population: genomes, generation: 0 }
    }

    /// The number of generations bred so far.
    pub fn generation(&self) -> (generation: usize)
        ensures
            generation == self@.generation,
            self@.well_formed(),
    {
        proof {
            use_type_invariant(self);
        }
        self.generation
    }

    /// The fitness of a genome, as the number of its set genes. As a
    /// fraction this is the count over `GENOME_LEN`: zero exactly for the
    /// genome with no gene set, one exactly for the genome with every gene
    /// set.
    pub fn fitness(&self, genome: &Genome) -> (count: usize)
        ensures
            count == count_true(genes(*genome)),
            count <= GENOME_LEN,
            count == 0 <==> all_false(genes(*genome)),
            count == GENOME_LEN <==> all_true(genes(*genome)),
    {
        proof {
            lemma_count_true_bounded(genes(*genome));
            lemma_count_true_zero(genes(*genome));
            lemma_count_true_full(genes(*genome));
        }
        count_set_genes(genome)
    }

    /// The population ranked by fitness: every individual's index and
    /// fitness, fittest first.
    pub fn fitness_scores(&self) -> (ranking: Vec<(usize, usize)>)
        ensures
            is_ranking(ranking@, scores_of(self@.population)),
            ranking.len() == POP_SIZE,
            self@.well_formed(),
    {
        proof {
            use_type_invariant(self);
        }
        rank(&self.population)
    }

    /// The indices of the two parents of the next generation: the fittest
    /// individual and the runner-up.
    fn parents(&self) -> (pair: (usize, usize))
        ensures
            pair.0 == fittest(scores_of(self@.population)),
            pair.1 == runner_up(scores_of(self@.population)),
            pair.0 < POP_SIZE,
            pair.1 < POP_SIZE,
            pair.0 < self.population.len(),
            pair.1 < self.population.len(),
    {
        proof {
            use_type_invariant(self);
        }
        let ranking = self.fitness_scores();
        proof {
            lemma_ranking_heads(ranking@, scores_of(self@.population));
        }
        (ranking[0].0, ranking[1].0)
    }

    /// The report that is due at the current generation, if any: the
    /// generation number, then index and fitness of the fittest individual.
    pub fn report(&self) -> (report: Option<(usize, (usize, usize))>)
        ensures
            match report {
                Some(due) => self@.report() == Some(
                    (due.0 as nat, (due.1.0 as int, due.1.1 as nat)),
                ),
                None => self@.report() is None,
            },
            self@.well_formed(),
    {
        proof {
            use_type_invariant(self);
        }
        if self.generation % REPORT_INTERVAL == 0 {
            let ranking = self.fitness_scores();
            proof {
                lemma_ranking_heads(ranking@, scores_of(self@.population));
            }
            Some((self.generation, ranking[0]))
        } else {
            None
        }
    }

    /// Fitness-proportional selection: spins a wheel on which every entry,
    /// an individual and its fitness, holds a sector as wide as its fitness,
    /// and gives the individual on whose sector the wheel stops. Gives
    /// nothing where the wheel has no width, or more than `usize::MAX`.
    pub fn roulette_wheel_select(&self, fitness_scores: &[(usize, usize)]) -> (picked: Option<
        usize,
    >)
        ensures
            picked is Some <==> 0 < total_score(fitness_scores@) <= usize::MAX,
            picked is Some ==> exists|drawn: nat, k: int|
                drawn < total_score(fitness_scores@) && #[trigger] lands_on(
                    fitness_scores@,
                    drawn,
                    k,
                ) && picked == Some(fitness_scores@[k].0),
    {
        match wheel_width(fitness_scores) {
            Some(width) => {
                if width == 0 {
                    None
                } else {
                    roulette_wheel_pick(fitness_scores, random_below(width))
                }
            },
            None => None,
        }
    }

    /// Single-point crossover at a random point inside the genome: the child
    /// takes the genes of `parent_a` before the point and those of
    /// `parent_b` from the point on.
    pub fn crossover(&self, parent_a: &Genome, parent_b: &Genome) -> (child: Genome)
        ensures
            exists|point: int|
                0 <= point < GENOME_LEN && genes(child) == #[trigger] crossed(
                    genes(*parent_a),
                    genes(*parent_b),
                    point,
                ),
    {
        crossover_at(parent_a, parent_b, random_below(GENOME_LEN))
    }

    /// Mutation: every gene flips independently with the mutation rate.
    pub fn mutate(&self, genome: Genome) -> (mutated_genome: Genome)
        ensures
            exists|flips: Seq<bool>|
                flips.len() == GENOME_LEN && genes(mutated_genome) == #[trigger] mutated(
                    genes(genome),
                    flips,
                ),
    {
        mutate_with(genome, &random_flips())
    }

    /// Breeds the next generation with the given variations: child `k` is
    /// the crossover of the fittest individual with the runner-up at
    /// `variations[k].point`, mutated by `variations[k].flips`.
    pub fn evolve_with(&mut self, variations: &[Variation; POP_SIZE])
        requires
            old(self)@.generation < usize::MAX,
        ensures
            final(self)@ == old(self)@.stepped(draws_of(variations@)),
            final(self)@.well_formed(),
    {
        let (a, b) = self.parents();
        let ghost before = self@;
        let mut offspring: Vec<Genome> = Vec::new();
        let mut k: usize = 0;
        while k < POP_SIZE
            invariant
                k <= POP_SIZE,
                offspring.len() == k,
                a < self.population.len(),
                b < self.population.len(),
                before == self@,
                genes(self.population[a as int]) == before.parent_a(),
                genes(self.population[b as int]) == before.parent_b(),
                forall|j: int|
                    0 <= j < k ==> genes(#[trigger] offspring[j]) == variations[j]@.child(
                        before.parent_a(),
                        before.parent_b(),
                    ),
            decreases POP_SIZE - k,
        {
            let child = crossover_at(&self.population[a], &self.population[b], variations[k].point);
            offspring.push(mutate_with(child, &variations[k].flips));
            k += 1;
        }
        self.population = offspring;
        self.generation = self.generation + 1;
        assert(self@.population =~= before.stepped(draws_of(variations@)).population);
    }

    /// Breeds the next generation: every child is the crossover of the
    /// fittest individual with the runner-up at a random point of its own,
    /// then mutated.
    pub fn evolve(&mut self)
        requires
            old(self)@.generation < usize::MAX,
        ensures
            exists|draws: Seq<Draw>|
                admissible(draws) && final(self)@ == #[trigger] old(self)@.stepped(draws),
            final(self)@.generation == old(self)@.generation + 1,
            final(self)@.well_formed(),
    {
        let (a, b) = self.parents();
        let ghost before = self@;
        let ghost mut draws: Seq<Draw> = Seq::empty();
        let mut offspring: Vec<Genome> = Vec::new();
        let mut k: usize = 0;
        while k < POP_SIZE
            invariant
                k <= POP_SIZE,
                offspring.len() == k,
                draws.len() == k,
                a < self.population.len(),
                b < self.population.len(),
                before == self@,
                genes(self.population[a as int]) == before.parent_a(),
                genes(self.population[b as int]) == before.parent_b(),
                forall|j: int| 0 <= j < k ==> (#[trigger] draws[j]).admissible(),
                forall|j: int|
                    0 <= j < k ==> genes(#[trigger] offspring[j]) == draws[j].child(
                        before.parent_a(),
                        before.parent_b(),
                    ),
            decreases POP_SIZE - k,
        {
            let child = self.crossover(&self.population[a], &self.population[b]);
            let mutated_child = self.mutate(child);
            proof {
                let point = choose|point: int|
                    0 <= point < GENOME_LEN && genes(child) == #[trigger] crossed(
                        before.parent_a(),
                        before.parent_b(),
                        point,
                    );
                let flips = choose|flips: Seq<bool>|
                    flips.len() == GENOME_LEN && genes(mutated_child) == #[trigger] mutated(
                        genes(child),
                        flips,
                    );
                draws = draws.push(Draw { point, flips });
            }
            offspring.push(mutated_child);
            k += 1;
        }
        self.population = offspring;
        self.generation = self.generation + 1;
        assert(self@.population =~= before.stepped(draws).population);
    }

    /// The current generation number together with the gene states of the
    /// last genome of the population; nothing if the population is empty.
    pub fn get_last_population(&mut self) -> (snapshot: Option<(usize, Vec<bool>)>)
        ensures
            final(self)@ == old(self)@,
            final(self)@.well_formed(),
            match snapshot {
                Some(pair) => old(self)@.snapshot() == Some((pair.0 as nat, pair.1@)),
                None => old(self)@.snapshot() is None,
            },
    {
        proof {
            use_type_invariant(&*self);
        }
        let size: usize = self.population.len();
        if size == 0 {
            None
        } else {
            Some((self.generation, genome_to_bools(&self.population[size - 1])))
        }
    }
}

} // verus!

//! Genomes: fixed-length sequences of genes, their fitness, and the two
//! operators that derive a child from its parents.

use vstd::prelude::*;
use crate::gene::{Gene, Unit};

verus! {

/// Number of genes in every genome.
pub const GENOME_LEN: usize = 140;

/// One candidate solution: an ordered, fixed-length sequence of genes.
pub type Genome = [Unit; GENOME_LEN];

/// The gene states of a genome, in order.
pub open spec fn genes(genome: Genome) -> Seq<bool> {
    Seq::new(GENOME_LEN as nat, |i: int| genome[i]@)
}

/// The gene states of every genome of a population, in order.
pub open spec fn population_genes(population: Seq<Genome>) -> Seq<Seq<bool>> {
    Seq::new(population.len(), |i: int| genes(population[i]))
}

/// Number of set genes in a sequence of gene states.
pub open spec fn count_true(genes: Seq<bool>) -> nat
    decreases genes.len(),
{
    if genes.len() == 0 {
        0
    } else {
        count_true(genes.drop_last()) + if genes.last() { 1nat } else { 0nat }
    }
}

/// Every gene is set.
pub open spec fn all_true(genes: Seq<bool>) -> bool {
    forall|i: int| 0 <= i < genes.len() ==> genes[i]
}

/// No gene is set.
pub open spec fn all_false(genes: Seq<bool>) -> bool {
    forall|i: int| 0 <= i < genes.len() ==> !genes[i]
}

/// The child of single-point crossover: the genes of `a` before `point`,
/// the genes of `b` from `point` on.
pub open spec fn crossed(a: Seq<bool>, b: Seq<bool>, point: int) -> Seq<bool> {
    Seq::new(a.len(), |i: int| if i < point { a[i] } else { b[i] })
}

/// The genes after mutation: gene `i` is toggled exactly where `flips[i]` holds.
pub open spec fn mutated(genes: Seq<bool>, flips: Seq<bool>) -> Seq<bool> {
    Seq::new(genes.len(), |i: int| genes[i] != flips[i])
}

/// The number of set genes never exceeds the number of genes.
pub proof fn lemma_count_true_bounded(genes: Seq<bool>)
    ensures
        count_true(genes) <= genes.len(),
    decreases genes.len(),
{
    if genes.len() > 0 {
        lemma_count_true_bounded(genes.drop_last());
    }
}

/// A genome scores zero exactly when none of its genes is set.
pub proof fn lemma_count_true_zero(genes: Seq<bool>)
    ensures
        count_true(genes) == 0 <==> all_false(genes),
    decreases genes.len(),
{
    if genes.len() > 0 {
        let init = genes.drop_last();
        lemma_count_true_zero(init);
        if count_true(genes) == 0 {
            assert forall|i: int| 0 <= i < genes.len() implies !genes[i] by {
                if i < init.len() {
                    assert(init[i] == genes[i]);
                }
            }
        }
    }
}

/// A genome reaches the full score, one point per gene, exactly when all of
/// its genes are set.
pub proof fn lemma_count_true_full(genes: Seq<bool>)
    ensures
        count_true(genes) == genes.len() <==> all_true(genes),
    decreases genes.len(),
{
    if genes.len() > 0 {
        let init = genes.drop_last();
        lemma_count_true_full(init);
        lemma_count_true_bounded(init);
        if count_true(genes) == genes.len() {
            assert forall|i: int| 0 <= i < genes.len() implies genes[i] by {
                if i < init.len() {
                    assert(init[i] == genes[i]);
                }
            }
        }
    }
}

/// Crossover at point zero yields the second parent.
pub proof fn lemma_crossover_at_zero(a: Seq<bool>, b: Seq<bool>)
    requires
        a.len() == b.len(),
    ensures
        crossed(a, b, 0) == b,
{
}

/// Crossover at the last position yields the first parent with its last gene
/// replaced by that of the second parent.
pub proof fn lemma_crossover_at_last(a: Seq<bool>, b: Seq<bool>)
    requires
        a.len() == b.len(),
        a.len() > 0,
    ensures
        crossed(a, b, a.len() - 1) == a.update(a.len() - 1, b.last()),
        forall|i: int| 0 <= i < a.len() - 1 ==> crossed(a, b, a.len() - 1)[i] == a[i],
{
}

/// Crossover at or beyond the end yields the first parent.
pub proof fn lemma_crossover_at_end(a: Seq<bool>, b: Seq<bool>, point: int)
    requires
        point >= a.len(),
    ensures
        crossed(a, b, point) == a,
{
}

/// Mutation that flips nothing leaves the genes as they are.
pub proof fn lemma_mutation_without_flips(genes: Seq<bool>, flips: Seq<bool>)
    requires
        flips.len() == genes.len(),
        all_false(flips),
    ensures
        mutated(genes, flips) == genes,
{
}

/// Applying the same flips twice restores the genes.
pub proof fn lemma_mutation_is_involution(genes: Seq<bool>, flips: Seq<bool>)
    ensures
        mutated(mutated(genes, flips), flips) == genes,
{
}

/// The genome with the given gene states.
pub fn genome_from_bools(states: &[bool; GENOME_LEN]) -> (genome: Genome)
    ensures
        genes(genome) == states@,
{
    let mut genome: Genome = [Unit::new(); GENOME_LEN];
    let mut i: usize = 0;
    while i < GENOME_LEN
        invariant
            i <= GENOME_LEN,
            forall|j: int| 0 <= j < i ==> genome[j]@ == states[j],
        decreases GENOME_LEN - i,
    {
        genome[i] = Unit::from_legacy(states[i]);
        i += 1;
    }
    genome
}

/// The gene states of a genome, as a vector.
pub fn genome_to_bools(genome: &Genome) -> (states: Vec<bool>)
    ensures
        states@ == genes(*genome),
{
    let mut states: Vec<bool> = Vec::new();
    let mut i: usize = 0;
    while i < GENOME_LEN
        invariant
            i <= GENOME_LEN,
            states.len() == i,
            forall|j: int| 0 <= j < i ==> states[j] == genome[j]@,
        decreases GENOME_LEN - i,
    {
        states.push(genome[i].legacy());
        i += 1;
    }
    states
}

/// The fitness of a genome, as the number of its set genes; as a fraction of
/// the genome this is the count over `GENOME_LEN`.
pub fn count_set_genes(genome: &Genome) -> (count: usize)
    ensures
        count == count_true(genes(*genome)),
{
    let ghost all = genes(*genome);
    let mut count: usize = 0;
    let mut i: usize = 0;
    while i < GENOME_LEN
        invariant
            i <= GENOME_LEN,
            all == genes(*genome),
            count == count_true(all.take(i as int)),
            count <= i,
        decreases GENOME_LEN - i,
    {
        assert(all.take(i + 1).drop_last() =~= all.take(i as int));
        if genome[i].legacy() {
            count += 1;
        }
        i += 1;
    }
    assert(all.take(GENOME_LEN as int) =~= all);
    count
}

/// Single-point crossover at a given point: the child takes the genes of
/// `parent_a` before `point` and those of `parent_b` from `point` on.
pub fn crossover_at(parent_a: &Genome, parent_b: &Genome, point: usize) -> (child: Genome)
    ensures
        genes(child) == crossed(genes(*parent_a), genes(*parent_b), point as int),
{
    let mut child: Genome = [Unit::new(); GENOME_LEN];
    let mut i: usize = 0;
    while i < GENOME_LEN
        invariant
            i <= GENOME_LEN,
            forall|j: int|
                0 <= j < i ==> child[j]@ == (if j < point { parent_a[j]@ } else { parent_b[j]@ }),
        decreases GENOME_LEN - i,
    {
        child[i] = if i < point { parent_a[i] } else { parent_b[i] };
        i += 1;
    }
    child
}

/// Mutation with given flips: gene `i` is toggled exactly where `flips[i]`
/// holds.
pub fn mutate_with(genome: Genome, flips: &[bool; GENOME_LEN]) -> (mutated_genome: Genome)
    ensures
        genes(mutated_genome) == mutated(genes(genome), flips@),
{
    let mut mutated_genome: Genome = genome;
    let mut i: usize = 0;
    while i < GENOME_LEN
        invariant
            i <= GENOME_LEN,
            forall|j: int| 0 <= j < i ==> mutated_genome[j]@ == (genome[j]@ != flips[j]),
            forall|j: int| i <= j < GENOME_LEN ==> mutated_genome[j] == genome[j],
        decreases GENOME_LEN - i,
    {
        if flips[i] {
            let mut gene: Unit = mutated_genome[i];
            gene.mutate();
            mutated_genome[i] = gene;
        }
        i += 1;
    }
    mutated_genome
}

} // verus!

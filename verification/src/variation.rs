//! Variation: the random choices that turn two parents into one child.

use vstd::prelude::*;
use crate::genome::{crossed, mutated, GENOME_LEN};
use crate::random::random_below;

verus! {

/// The mutation rate is `MUTATION_RATE_NUMERATOR` in
/// `MUTATION_RATE_DENOMINATOR`: the probability with which a gene flips.
pub const MUTATION_RATE_NUMERATOR: usize = 3;

/// The denominator of the mutation rate.
pub const MUTATION_RATE_DENOMINATOR: usize = 1000;

/// The choices made for one child: where the parents are spliced, and which
/// genes flip afterwards.
#[derive(Debug, Clone, Copy)]
pub struct Variation {
    /// The crossover point: the first gene taken from the second parent.
    pub point: usize,
    /// For every gene, whether it flips after crossover.
    pub flips: [bool; GENOME_LEN],
}

/// The choices made for one child, as mathematical values.
pub struct Draw {
    /// The crossover point.
    pub point: int,
    /// For every gene, whether it flips.
    pub flips: Seq<bool>,
}

impl View for Variation {
    type V = Draw;

    open spec fn view(&self) -> Draw {
        Draw { point: self.point as int, flips: self.flips@ }
    }
}

impl Draw {
    /// A draw that the engine itself can make: the point lies inside the
    /// genome, and there is one flip decision per gene.
    pub open spec fn admissible(self) -> bool {
        0 <= self.point < GENOME_LEN && self.flips.len() == GENOME_LEN
    }

    /// The child of parents `a` and `b` under this draw: crossover at the
    /// point, then mutation by the flips.
    pub open spec fn child(self, a: Seq<bool>, b: Seq<bool>) -> Seq<bool> {
        mutated(crossed(a, b, self.point), self.flips)
    }
}

/// The draws behind a sequence of variations.
pub open spec fn draws_of(variations: Seq<Variation>) -> Seq<Draw> {
    Seq::new(variations.len(), |k: int| variations[k]@)
}

/// Whether a number drawn uniformly below `MUTATION_RATE_DENOMINATOR` means
/// that the gene flips.
pub fn is_mutation(drawn: usize) -> (flip: bool)
    ensures
        flip == (drawn < MUTATION_RATE_NUMERATOR),
{
    drawn < MUTATION_RATE_NUMERATOR
}

/// Draws, for every gene independently, whether it flips.
pub(crate) fn random_flips() -> (flips: [bool; GENOME_LEN])
    ensures
        exists|drawn: Seq<usize>|
            drawn.len() == GENOME_LEN && below_denominator(drawn) && flips@ == #[trigger] flips_of(
                drawn,
            ),
{
    let mut flips: [bool; GENOME_LEN] = [false; GENOME_LEN];
    let ghost mut drawn: Seq<usize> = Seq::empty();
    let mut i: usize = 0;
    while i < GENOME_LEN
        invariant
            i <= GENOME_LEN,
            drawn.len() == i,
            below_denominator(drawn),
            forall|j: int| 0 <= j < i ==> flips[j] == (drawn[j] < MUTATION_RATE_NUMERATOR),
        decreases GENOME_LEN - i,
    {
        let number: usize = random_below(MUTATION_RATE_DENOMINATOR);
        flips[i] = is_mutation(number);
        proof {
            drawn = drawn.push(number);
        }
        i += 1;
    }
    assert(flips@ =~= flips_of(drawn));
    flips
}

/// Every number of the sequence lies below `MUTATION_RATE_DENOMINATOR`, as
/// the numbers do that the mutation rate is applied to.
pub open spec fn below_denominator(drawn: Seq<usize>) -> bool {
    forall|i: int| 0 <= i < drawn.len() ==> drawn[i] < MUTATION_RATE_DENOMINATOR
}

/// The flip decisions that a sequence of drawn numbers stands for: gene `i`
/// flips exactly where `drawn[i]` lies below `MUTATION_RATE_NUMERATOR`.
pub open spec fn flips_of(drawn: Seq<usize>) -> Seq<bool> {
    Seq::new(drawn.len(), |i: int| drawn[i] < MUTATION_RATE_NUMERATOR)
}

} // verus!

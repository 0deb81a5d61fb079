//! A minimal evolutionary engine over fixed-length binary genomes.
//!
//! The engine keeps a population of genomes, scores each by the number of
//! set genes, and breeds every new generation from the two fittest
//! individuals by single-point crossover followed by per-gene mutation.

pub mod gene;
pub mod genetics;
pub mod genome;
pub mod laws;
pub mod logic;
mod random;
pub mod roulette;
pub mod selection;
pub mod variation;

pub use gene::{Gene, Unit};
pub use genetics::{Genetics, POP_SIZE};
pub use genome::{Genome, GENOME_LEN};
pub use logic::{AppLogic, Logic};
pub use variation::Variation;

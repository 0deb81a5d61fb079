//! Genes: the atomic units of a genome.

use vstd::prelude::*;

verus! {

/// A gene carries one boolean state and can be flipped.
pub trait Gene: Sized {
    /// The boolean state this gene stands for.
    spec fn state(&self) -> bool;

    /// A gene in the unset state.
    fn new() -> (gene: Self)
        ensures
            !gene.state(),
    ;

    /// Toggles the state of the gene.
    fn mutate(&mut self)
        ensures
            final(self).state() == !old(self).state(),
    ;
}

/// The gene of a binary genome.
#[derive(Debug, Copy, Clone)]
pub struct Unit {
    legacy: bool,
}

impl View for Unit {
    type V = bool;

    closed spec fn view(&self) -> bool {
        self.legacy
    }
}

impl Gene for Unit {
    open spec fn state(&self) -> bool {
        self@
    }

    fn new() -> (gene: Self) {
        Self { legacy: false }
    }

    fn mutate(&mut self) {
        self.legacy = !self.legacy;
    }
}

impl Unit {
    /// A gene with the given state.
    pub fn from_legacy(legacy: bool) -> (unit: Self)
        ensures
            unit@ == legacy,
    {
        Unit { legacy }
    }

    /// The state of the gene.
    pub fn legacy(&self) -> (legacy: bool)
        ensures
            legacy == self@,
    {
        self.legacy
    }
}

} // verus!

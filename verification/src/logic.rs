//! The face the engine shows to a host that drives it tick by tick.

use vstd::prelude::*;
use crate::genetics::{admissible, EngineState, Genetics};
use crate::variation::Draw;

verus! {

/// What a host loop needs of the thing it drives: a step to take on every
/// tick, and something to show.
pub trait Logic {
    /// Advances by one tick.
    fn update(&mut self);

    /// The current generation number and one genome to display.
    fn get_gen(&mut self) -> (usize, Vec<bool>);
}

/// An evolutionary engine behind the host interface.
pub struct AppLogic {
    genetics: Genetics,
}

impl View for AppLogic {
    type V = EngineState;

    closed spec fn view(&self) -> EngineState {
        self.genetics@
    }
}

impl AppLogic {
    /// A host interface over a freshly started engine.
    pub fn start() -> (logic: Self)
        ensures
            logic@.generation == 0,
            logic@.well_formed(),
    {
        Self { genetics: Genetics::start() }
    }

    /// A host interface over the given engine.
    pub fn with_engine(genetics: Genetics) -> (logic: Self)
        ensures
            logic@ == genetics@,
    {
        Self { genetics }
    }

    /// The report that is due at the current generation, if any; see
    /// `Genetics::report`.
    pub fn report(&self) -> (report: Option<(usize, (usize, usize))>)
        ensures
            match report {
                Some(due) => self@.report() == Some(
                    (due.0 as nat, (due.1.0 as int, due.1.1 as nat)),
                ),
                None => self@.report() is None,
            },
            self@.well_formed(),
    {
        self.genetics.report()
    }
}

impl Logic for AppLogic {
    /// Breeds the next generation. An engine whose generation counter has
    /// reached `usize::MAX` stays as it is.
    fn update(&mut self)
        ensures
            old(self)@.generation < usize::MAX ==> exists|draws: Seq<Draw>|
                admissible(draws) && final(self)@ == #[trigger] old(self)@.stepped(draws),
            old(self)@.generation < usize::MAX ==> final(self)@.generation == old(self)@.generation
                + 1,
            old(self)@.generation >= usize::MAX ==> final(self)@ == old(self)@,
            final(self)@.well_formed(),
    {
        if self.genetics.generation() < usize::MAX {
            self.genetics.evolve();
        }
    }

    /// The snapshot of the engine; generation zero and no genes where the
    /// engine has none to show.
    fn get_gen(&mut self) -> (shown: (usize, Vec<bool>))
        ensures
            final(self)@ == old(self)@,
            final(self)@.well_formed(),
            match old(self)@.snapshot() {
                Some(snapshot) => shown.0 == snapshot.0 && shown.1@ == snapshot.1,
                None => shown.0 == 0 && shown.1@.len() == 0,
            },
    {
        match self.genetics.get_last_population() {
            Some((count, population)) => (count, population),
            None => (0, Vec::new()),
        }
    }
}

} // verus!

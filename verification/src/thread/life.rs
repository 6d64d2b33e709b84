//! The kill switch: a flag that goes from `Life` to `Die` and never back.

use vstd::prelude::*;

verus! {

/// The two states of a kill switch.
#[derive(Clone, Copy, Debug, PartialEq, Eq, Structural)]
pub enum WorkerLifeState {
    Life,
    Die,
}

/// A kill switch. It starts in `Life`; [`WorkerLife::die`] is its only
/// transition, so a switch that has reached `Die` stays there.
///
/// A switch is a plain value. Threads that have to watch the same switch keep
/// it behind a lock of their own.
#[derive(Debug)]
pub struct WorkerLife {
    state: WorkerLifeState,
}

impl View for WorkerLife {
    type V = WorkerLifeState;

    closed spec fn view(&self) -> WorkerLifeState {
        self.state
    }
}

impl WorkerLife {
    /// A fresh switch, in `Life`.
    pub fn new() -> (life: Self)
        ensures
            life@ == WorkerLifeState::Life,
    {
        WorkerLife { state: WorkerLifeState::Life }
    }

    /// The current state.
    pub fn get(&self) -> (state: WorkerLifeState)
        ensures
            state == self@,
    {
        self.state
    }

    /// Moves the switch to `Die`. Doing so again changes nothing.
    pub fn die(&mut self)
        ensures
            final(self)@ == WorkerLifeState::Die,
    {
        self.state = WorkerLifeState::Die;
    }

    /// Whether the switch has reached `Die`.
    pub fn is_die(&self) -> (dead: bool)
        ensures
            dead == (self@ == WorkerLifeState::Die),
    {
        match self.state {
            WorkerLifeState::Die => true,
            WorkerLifeState::Life => false,
        }
    }
}

} // verus!

//! The phases that loading and checking a program go through.

use vstd::prelude::*;

verus! {

/// The phases in the order they come: files are loaded, then their
/// definitions are made, then their methods are checked.
#[derive(Copy, Clone, Debug, PartialEq, Eq)]
pub enum Phase {
    Load,
    Define,
    TypeCheck,
}

impl Phase {
    /// Files may be loaded only in the load phase.
    pub fn can_load(self) -> (r: bool)
        ensures
            r == (self is Load),
    {
        match self {
            Phase::Load => true,
            Phase::Define => false,
            Phase::TypeCheck => false,
        }
    }
}

/// Whether the phase may go from `current` to `next`: only to the phase
/// that follows.
pub open spec fn valid_transition(current: Phase, next: Phase) -> bool {
    (current is Load && next is Define) || (current is Define && next is TypeCheck)
}

/// The current phase.
pub struct PhaseCell {
    phase: Phase,
}

impl PhaseCell {
    pub closed spec fn current(&self) -> Phase {
        self.phase
    }

    pub fn new(phase: Phase) -> (r: Self)
        ensures
            r.current() == phase,
    {
        PhaseCell { phase }
    }

    pub fn get(&self) -> (r: Phase)
        ensures
            r == self.current(),
    {
        self.phase
    }

    /// Moves to the next phase.
    pub fn set(&mut self, phase: Phase)
        requires
            valid_transition(old(self).current(), phase),
        ensures
            final(self).current() == phase,
    {
        self.phase = phase
    }
}

/// Phases only go forward, one at a time, so after a transition files can
/// no longer be loaded.
pub proof fn lemma_no_load_after_transition(current: Phase, next: Phase)
    requires
        valid_transition(current, next),
    ensures
        !(next is Load),
{
}

} // verus!

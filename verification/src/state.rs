//! The phase of a round.
use vstd::prelude::*;

verus! {

/// The phase a round is in. Exactly one value is authoritative at a time.
#[derive(Clone, Copy, Debug, PartialEq, Eq, Structural)]
pub enum State {
    /// No contact is on the surface.
    Idle,
    /// Contacts are present and the machine waits for them to settle.
    Preparing,
    /// The countdown towards the draw is running.
    Selecting,
    /// The winner is shown and the radius grows.
    Revealing,
    /// The radius shrinks back before the next round.
    Resetting,
}

impl State {
    /// How far a phase is from the end of the round: only timers move
    /// a round to a phase of lower rank.
    pub open spec fn rank(self) -> nat {
        match self {
            State::Preparing => 4,
            State::Selecting => 3,
            State::Revealing => 2,
            State::Resetting => 1,
            State::Idle => 0,
        }
    }

    /// Whether pointer input is ignored in this phase.
    pub open spec fn frozen(self) -> bool {
        self == State::Revealing || self == State::Resetting
    }

    /// Whether pointer input is ignored in this phase.
    pub fn is_frozen(&self) -> (b: bool)
        ensures
            b == self.frozen(),
    {
        match self {
            State::Revealing | State::Resetting => true,
            _ => false,
        }
    }
}

} // verus!

//! The mark a player leaves on a cell, and the cycle a click drives it through.

use vstd::prelude::*;

verus! {

/// What a cell holds. The flag of a king is never set by the player: the
/// engine sets it when the king breaks a placement rule.
#[derive(Clone, Copy, Debug, PartialEq, Eq, Structural)]
pub enum ClickState {
    Empty,
    Eliminated,
    King(bool),
}

impl ClickState {
    /// Whether the cell holds a king, flagged or not.
    pub open spec fn holds_king(self) -> bool {
        self is King
    }

    /// The mark that follows this one: empty, eliminated, king, empty again.
    /// A king gives way to an empty cell whatever its flag says.
    pub open spec fn successor(self) -> ClickState {
        match self {
            ClickState::Empty => ClickState::Eliminated,
            ClickState::Eliminated => ClickState::King(false),
            ClickState::King(_) => ClickState::Empty,
        }
    }

    /// Whether the cell holds a king, flagged or not.
    pub fn is_king(&self) -> (r: bool)
        ensures
            r == self.holds_king(),
    {
        match self {
            ClickState::King(_) => true,
            _ => false,
        }
    }

    /// Advances the mark one step along the cycle.
    pub fn cycle(self) -> (next: ClickState)
        ensures
            next == self.successor(),
    {
        match self {
            ClickState::Empty => ClickState::Eliminated,
            ClickState::Eliminated => ClickState::King(false),
            ClickState::King(_) => ClickState::Empty,
        }
    }
}

} // verus!

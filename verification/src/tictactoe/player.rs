//! The players.

use vstd::prelude::*;

verus! {

/// A player, or nobody: the owner of a cell, the player to move, the winner.
#[allow(non_camel_case_types)]
#[derive(Debug, Clone, Copy, PartialEq, Eq, Structural)]
pub enum Player {
    ONE,
    TWO,
    NONE,
}

impl Player {
    /// The player who moves after this one. Nobody is followed by player one.
    pub open spec fn next(self) -> Player {
        match self {
            Player::ONE => Player::TWO,
            Player::TWO => Player::ONE,
            Player::NONE => Player::ONE,
        }
    }

    /// The player's name in texts.
    pub open spec fn name_text(self) -> Seq<char> {
        match self {
            Player::ONE => "ONE"@,
            Player::TWO => "TWO"@,
            Player::NONE => "NONE"@,
        }
    }

    /// The player's name in texts.
    pub fn name(&self) -> (name: &'static str)
        ensures
            name@ == self.name_text(),
    {
        match self {
            Player::ONE => "ONE",
            Player::TWO => "TWO",
            Player::NONE => "NONE",
        }
    }
}

} // verus!

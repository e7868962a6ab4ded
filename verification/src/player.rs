//! The two sides of the game.

use vstd::prelude::*;

verus! {

/// One of the two sides. `X` moves first.
#[derive(Clone, Copy, Debug, PartialEq, Eq, Structural)]
pub enum Player {
    X,
    O,
}

impl Player {
    /// The side that plays against `self`.
    pub open spec fn toggle(self) -> Player {
        match self {
            Player::X => Player::O,
            Player::O => Player::X,
        }
    }

    /// The character that stands for `self` on a rendered board.
    pub open spec fn symbol(self) -> char {
        match self {
            Player::X => 'X',
            Player::O => 'O',
        }
    }

    /// Returns the character that stands for this player: `'X'` or `'O'`.
    pub fn get_player_string_representation(&self) -> (symbol: char)
        ensures
            symbol == self.symbol(),
    {
        match self {
            Player::O => 'O',
            Player::X => 'X',
        }
    }
}

/// Hands the turn to the other side.
pub fn toggle_player(current_player: &mut Player)
    ensures
        *final(current_player) == old(current_player).toggle(),
{
    match current_player {
        Player::X => *current_player = Player::O,
        Player::O => *current_player = Player::X,
    }
}

} // verus!

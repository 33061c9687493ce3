//! The two players, and the "no player" value that marks an empty cell or an
//! undecided or drawn game.

use vstd::prelude::*;

verus! {

/// Who owns a cell, whose turn it is, or who has won.
///
/// `Nobody` is never the owner of a token that was played: it stands for an
/// empty cell and for "no winner".
#[derive(Clone, Copy, Debug, PartialEq, Eq, Structural)]
pub enum Player {
    One,
    Two,
    Nobody,
}

impl Player {
    /// The player with the given number: 1 and 2 are the two players, every
    /// other number is `Nobody`.
    pub open spec fn of_int(number: int) -> Player {
        if number == 1 {
            Player::One
        } else if number == 2 {
            Player::Two
        } else {
            Player::Nobody
        }
    }

    /// The number of this player: 1, 2, or 0 for `Nobody`.
    pub open spec fn number(self) -> int {
        match self {
            Player::One => 1,
            Player::Two => 2,
            Player::Nobody => 0,
        }
    }

    /// The opponent of a player. `Nobody` has no opponent and is left as it is.
    pub open spec fn opponent(self) -> Player {
        match self {
            Player::One => Player::Two,
            Player::Two => Player::One,
            Player::Nobody => Player::Nobody,
        }
    }

    /// The player with the given number: 1 and 2 are the two players, every
    /// other number is `Nobody`.
    pub fn from_int(number: u8) -> (player: Player)
        ensures
            player == Player::of_int(number as int),
    {
        match number {
            1 => Player::One,
            2 => Player::Two,
            _ => Player::Nobody,
        }
    }

    /// The number of this player: 1, 2, or 0 for `Nobody`.
    pub fn to_int(self) -> (number: u8)
        ensures
            number == self.number(),
    {
        match self {
            Player::One => 1,
            Player::Two => 2,
            Player::Nobody => 0,
        }
    }
}

/// A player is found again by its number, and the numbers 0, 1 and 2 are
/// the numbers of the players they give.
pub proof fn lemma_player_numbers(player: Player, number: int)
    ensures
        Player::of_int(player.number()) == player,
        0 <= number <= 2 ==> Player::of_int(number).number() == number,
        !(0 <= number <= 2) ==> Player::of_int(number) == Player::Nobody,
{
}

} // verus!

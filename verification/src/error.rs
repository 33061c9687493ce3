//! Why a move is refused.

use vstd::prelude::*;

verus! {

/// The three ways in which a move can be refused. A refused move changes
/// nothing, and the caller is free to try another one.
#[derive(Clone, Copy, Debug, PartialEq, Eq, Structural)]
pub enum MoveError {
    /// The game is over.
    GameFinished,
    /// There is no column with this number.
    InvalidColumn,
    /// The column has no free cell left.
    ColumnFull,
}

impl MoveError {
    /// The text of `message`.
    pub open spec fn text(self) -> Seq<char> {
        match self {
            MoveError::ColumnFull => "column is full"@,
            MoveError::InvalidColumn => "column must be between 1 and 7"@,
            MoveError::GameFinished => "game is already finished"@,
        }
    }

    /// A short description of the error for the player, who counts the
    /// columns from 1.
    pub fn message(&self) -> (message: String)
        ensures
            message@ == self.text(),
    {
        match self {
            MoveError::ColumnFull => "column is full".to_owned(),
            MoveError::InvalidColumn => "column must be between 1 and 7".to_owned(),
            MoveError::GameFinished => "game is already finished".to_owned(),
        }
    }
}

} // verus!

//! Positions: the board together with the move counter, the player to move
//! and the outcome. This is the mathematical side of a `Game`; the rules of
//! play are stated here.

use crate::board::{
    column_full, empty_grid, gravity, in_bounds, landing_row, lemma_free_column_has_landing_row,
    lemma_place_keeps_gravity, lemma_place_owner, lemma_place_wins, line_from, lowest_free, owner,
    place, well_formed, winner_of, wins, Grid, CELLS, COLS,
};
use crate::player::Player;
use crate::tokens::{
    lemma_all_tokens_fill_board, lemma_empty_grid_tokens, lemma_free_cell_counts,
    lemma_full_board_all_tokens, lemma_place_tokens, lemma_tokens_partition,
    lemma_wins_needs_four_tokens, tokens,
};
use vstd::prelude::*;

verus! {

/// No game is won before this many tokens are on the board: the winner needs
/// four of their own, and the players take turns.
pub const FEWEST_WINNING_MOVES: u8 = 7;

/// A position of the game.
#[verifier::ext_equal]
pub struct Position {
    /// The owner of every cell.
    pub cells: Grid,
    /// How many tokens have been placed.
    pub moves: nat,
    /// Whose turn it is. Once the game is over, who made the last move.
    pub to_move: Player,
    /// Whether the game is over.
    pub finished: bool,
    /// Who has won. `Nobody` while the game goes on and after a draw.
    pub winner: Player,
}

impl Position {
    /// The position before the first move.
    pub open spec fn initial() -> Position {
        Position {
            cells: empty_grid(),
            moves: 0,
            to_move: Player::One,
            finished: false,
            winner: Player::Nobody,
        }
    }

    /// The player who makes the move with the given number, the first move
    /// having the number 1.
    pub open spec fn mover(number: nat) -> Player {
        if number % 2 == 1 {
            Player::One
        } else {
            Player::Two
        }
    }

    /// What holds of the board and the move counter at every moment of a
    /// game, also between the placing of a token and the settling of the
    /// outcome: the tokens obey gravity, the players have taken turns, and at
    /// most one of them has four in a line.
    pub open spec fn board_ok(self) -> bool {
        &&& well_formed(self.cells)
        &&& gravity(self.cells)
        &&& tokens(self.cells, Player::One) == (self.moves + 1) / 2
        &&& tokens(self.cells, Player::Two) == self.moves / 2
        &&& !(wins(self.cells, Player::One) && wins(self.cells, Player::Two))
    }

    /// What holds of every position that a game can reach.
    pub open spec fn wf(self) -> bool {
        &&& self.board_ok()
        &&& self.winner == winner_of(self.cells)
        &&& self.winner != Player::Nobody ==> self.winner == self.to_move
        &&& self.finished <==> self.winner != Player::Nobody || self.moves == CELLS
        &&& self.to_move == if self.finished {
            Self::mover(self.moves)
        } else {
            Self::mover(self.moves + 1)
        }
    }

    /// Whether the player to move can drop a token into `column`: the game
    /// goes on, the column exists, and it has a free cell.
    pub open spec fn accepts(self, column: int) -> bool {
        &&& !self.finished
        &&& 0 <= column < COLS
        &&& !column_full(self.cells, column)
    }

    /// The position with one more token of the player to move, on the cell
    /// `(row, column)`, before the outcome is settled.
    pub open spec fn with_token(self, row: int, column: int) -> Position {
        Position {
            cells: place(self.cells, row, column, self.to_move),
            moves: self.moves + 1,
            ..self
        }
    }

    /// The position with the outcome settled: the game is over if somebody
    /// has four in a line or the board is full, and otherwise it is the
    /// other player's turn.
    pub open spec fn settled(self) -> Position {
        let winner = winner_of(self.cells);
        let finished = winner != Player::Nobody || self.moves >= CELLS;
        Position {
            to_move: if finished {
                self.to_move
            } else {
                self.to_move.opponent()
            },
            finished,
            winner,
            ..self
        }
    }

    /// The position after the player to move has dropped a token into
    /// `column`, a column into which a token can be dropped.
    pub open spec fn drop_token(self, column: int) -> Position {
        self.with_token(landing_row(self.cells, column), column).settled()
    }
}

/// The number of moves is the number of tokens on the board, and so at most
/// the number of cells.
pub proof fn lemma_moves_are_tokens(position: Position)
    requires
        position.board_ok(),
    ensures
        position.moves == tokens(position.cells, Player::One) + tokens(
            position.cells,
            Player::Two,
        ),
        position.moves <= CELLS,
{
    lemma_tokens_partition(position.cells, CELLS as nat);
}

/// The board is full exactly when as many moves were made as it has cells.
pub proof fn lemma_full_board(position: Position)
    requires
        position.board_ok(),
    ensures
        position.moves == CELLS <==> forall|row: int, col: int|
            in_bounds(row, col) ==> #[trigger] owner(position.cells, row, col) != Player::Nobody,
{
    lemma_moves_are_tokens(position);
    if position.moves == CELLS {
        lemma_all_tokens_fill_board(position.cells);
    } else if forall|row: int, col: int|
        in_bounds(row, col) ==> #[trigger] owner(position.cells, row, col) != Player::Nobody {
        lemma_full_board_all_tokens(position.cells);
    }
}

/// Nobody has four in a line before `FEWEST_WINNING_MOVES` tokens are on the
/// board.
pub proof fn lemma_no_early_win(position: Position)
    requires
        position.board_ok(),
        position.moves < FEWEST_WINNING_MOVES,
    ensures
        winner_of(position.cells) == Player::Nobody,
{
    if wins(position.cells, Player::One) {
        lemma_wins_needs_four_tokens(position.cells, Player::One);
    }
    if wins(position.cells, Player::Two) {
        lemma_wins_needs_four_tokens(position.cells, Player::Two);
    }
}

/// The game starts in a position that is in order.
pub proof fn lemma_initial_wf()
    ensures
        Position::initial().wf(),
{
    let cells = empty_grid();
    lemma_empty_grid_tokens(Player::One, CELLS as nat);
    lemma_empty_grid_tokens(Player::Two, CELLS as nat);
    assert forall|player: Player| !wins(cells, player) by {
        if wins(cells, player) {
            let (row, col) = choose|row: int, col: int| line_from(cells, player, row, col);
            assert(owner(cells, row, col) == Player::Nobody);
        }
    }
}

/// A token dropped on the lowest free cell of a column leaves the board in
/// order, and only the player who dropped it can have four in a line.
pub proof fn lemma_with_token_board_ok(position: Position, row: int, column: int)
    requires
        position.wf(),
        !position.finished,
        lowest_free(position.cells, column, row),
    ensures
        position.with_token(row, column).board_ok(),
        !wins(position.with_token(row, column).cells, position.to_move.opponent()),
        position.moves < CELLS,
{
    let after = position.with_token(row, column);
    let player = position.to_move;
    lemma_moves_are_tokens(position);
    lemma_free_cell_counts(position.cells, row, column);
    lemma_place_owner(position.cells, row, column, player);
    lemma_place_keeps_gravity(position.cells, row, column, player);
    lemma_place_tokens(position.cells, row, column, player, Player::One);
    lemma_place_tokens(position.cells, row, column, player, Player::Two);
    if wins(after.cells, player.opponent()) {
        lemma_place_wins(position.cells, row, column, player, player.opponent());
    }
}

/// Settling the outcome of a board that is in order, after a move of the
/// player whose turn it was, gives a position that is in order.
pub proof fn lemma_settled_wf(position: Position)
    requires
        position.board_ok(),
        !position.finished,
        position.moves >= 1,
        position.to_move == Position::mover(position.moves),
        !wins(position.cells, position.to_move.opponent()),
    ensures
        position.settled().wf(),
{
    lemma_moves_are_tokens(position);
}

/// A legal move leads from a position that is in order to one that is.
pub proof fn lemma_drop_token_wf(position: Position, column: int)
    requires
        position.wf(),
        position.accepts(column),
    ensures
        position.drop_token(column).wf(),
{
    lemma_free_column_has_landing_row(position.cells, column);
    let row = landing_row(position.cells, column);
    lemma_with_token_board_ok(position, row, column);
    lemma_settled_wf(position.with_token(row, column));
}

} // verus!

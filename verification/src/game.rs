//! The game itself: the state that a program keeps, and the one operation
//! that changes it.

use crate::board::{
    column_full, four_in_line, grid_of, in_bounds, landing_row, lemma_landing_row_is, line_from,
    lowest_free, owner, place, winner_of, wins, Board, CELLS, COLS, ROWS,
};
use crate::error::MoveError;
use crate::player::Player;
use crate::position::{
    lemma_initial_wf, lemma_moves_are_tokens, lemma_no_early_win, lemma_settled_wf,
    lemma_with_token_board_ok, Position, FEWEST_WINNING_MOVES,
};
use vstd::prelude::*;

verus! {

/// A game in progress or finished.
///
/// A game is made by `Game::default` and changed by `Game::play_move` alone.
pub struct Game {
    current_move: u8,
    current_player: Player,
    board: Board,
    is_finished: bool,
    winner: Player,
}

impl View for Game {
    type V = Position;

    closed spec fn view(&self) -> Position {
        Position {
            cells: grid_of(self.board),
            moves: self.current_move as nat,
            to_move: self.current_player,
            finished: self.is_finished,
            winner: self.winner,
        }
    }
}

impl Game {
    /// A new game: the board is empty and player one is to move.
    pub fn default() -> (game: Game)
        ensures
            game@ == Position::initial(),
            game@.wf(),
    {
        let game = Game {
            current_move: 0,
            current_player: Player::One,
            board: [[Player::Nobody; COLS]; ROWS],
            is_finished: false,
            winner: Player::Nobody,
        };
        proof {
            assert(game@.cells =~~= Position::initial().cells);
            lemma_initial_wf();
        }
        game
    }

    /// How many tokens have been placed.
    pub fn current_move(&self) -> (moves: u8)
        ensures
            moves == self@.moves,
    {
        self.current_move
    }

    /// Whose turn it is. Once the game is over, who made the last move.
    pub fn current_player(&self) -> (player: Player)
        ensures
            player == self@.to_move,
    {
        self.current_player
    }

    /// Whether the game is over.
    pub fn is_finished(&self) -> (finished: bool)
        ensures
            finished == self@.finished,
    {
        self.is_finished
    }

    /// Who has won. `Nobody` while the game goes on and after a draw.
    pub fn winner(&self) -> (winner: Player)
        ensures
            winner == self@.winner,
    {
        self.winner
    }

    /// The owners of all cells, row by row from the top.
    pub fn board(&self) -> (board: Board)
        ensures
            grid_of(board) == self@.cells,
    {
        self.board
    }

    /// The owner of the cell `(row, col)`. Nobody owns what lies off the
    /// board.
    pub fn cell(&self, row: usize, col: usize) -> (player: Player)
        ensures
            player == owner(self@.cells, row as int, col as int),
    {
        if row < ROWS && col < COLS {
            self.board[row][col]
        } else {
            Player::Nobody
        }
    }

    /// The lowest free cell of a column, if the column has one.
    fn lowest_free_row(&self, column: usize) -> (found: Option<usize>)
        requires
            column < COLS,
        ensures
            match found {
                Some(row) => lowest_free(self@.cells, column as int, row as int),
                None => column_full(self@.cells, column as int),
            },
    {
        let mut row: usize = ROWS;
        while row > 0
            invariant
                row <= ROWS,
                column < COLS,
                forall|below: int|
                    row <= below < ROWS ==> #[trigger] owner(self@.cells, below, column as int)
                        != Player::Nobody,
            decreases row,
        {
            row -= 1;
            if self.board[row][column] == Player::Nobody {
                return Some(row);
            }
        }
        None
    }

    /// Whether the cell `(row, col)` and the next three cells in steps of
    /// `(row_step, col_step)` all belong to the owner of the first.
    fn four_from(&self, row: usize, col: usize, row_step: isize, col_step: isize) -> (found: bool)
        requires
            row < ROWS,
            col < COLS,
            -1 <= row_step <= 1,
            -1 <= col_step <= 1,
        ensures
            found == four_in_line(
                self@.cells,
                owner(self@.cells, row as int, col as int),
                row as int,
                col as int,
                row_step as int,
                col_step as int,
            ),
    {
        let cell = self.board[row][col];
        if cell == Player::Nobody {
            return false;
        }
        let mut consecutive_count: u8 = 1;
        let mut r: isize = row as isize + row_step;
        let mut c: isize = col as isize + col_step;
        while r >= 0 && r < ROWS as isize && c >= 0 && c < COLS as isize
            invariant
                row < ROWS,
                col < COLS,
                -1 <= row_step <= 1,
                -1 <= col_step <= 1,
                cell == owner(self@.cells, row as int, col as int),
                cell != Player::Nobody,
                1 <= consecutive_count <= 3,
                consecutive_count == 1 ==> r == row + row_step && c == col + col_step,
                consecutive_count == 2 ==> r == row + 2 * row_step && c == col + 2 * col_step,
                consecutive_count == 3 ==> r == row + 3 * row_step && c == col + 3 * col_step,
                consecutive_count >= 2 ==> owner(self@.cells, row + row_step, col + col_step)
                    == cell,
                consecutive_count >= 3 ==> owner(
                    self@.cells,
                    row + 2 * row_step,
                    col + 2 * col_step,
                ) == cell,
            decreases 4 - consecutive_count,
        {
            if self.board[r as usize][c as usize] == cell {
                consecutive_count += 1;
                if consecutive_count == 4 {
                    return true;
                }
            } else {
                return false;
            }
            r += row_step;
            c += col_step;
        }
        false
    }

    /// Whether a line of four tokens of one player starts at `(row, col)`.
    fn line_starts_at(&self, row: usize, col: usize) -> (found: bool)
        requires
            row < ROWS,
            col < COLS,
        ensures
            found == line_from(
                self@.cells,
                owner(self@.cells, row as int, col as int),
                row as int,
                col as int,
            ),
    {
        self.four_from(row, col, 0, 1) || self.four_from(row, col, 1, 0) || self.four_from(
            row,
            col,
            1,
            1,
        ) || self.four_from(row, col, -1, 1)
    }

    /// Looks for four in a line and for a full board.
    ///
    /// Returns the player who has four in a line, `Nobody` if there is none.
    /// The game is marked as finished if there is a winner or the board is
    /// full; nothing else changes.
    pub fn calculate_winner(&mut self) -> (winner: Player)
        requires
            old(self)@.board_ok(),
        ensures
            winner == winner_of(old(self)@.cells),
            final(self)@ == (Position {
                finished: old(self)@.finished || winner != Player::Nobody || old(self)@.moves
                    >= CELLS,
                ..old(self)@
            }),
            old(self)@.wf() ==> final(self)@ == old(self)@,
    {
        if self.current_move < FEWEST_WINNING_MOVES {
            proof {
                lemma_no_early_win(self@);
            }
            return Player::Nobody;
        }
        let mut row: usize = 0;
        while row < ROWS
            invariant
                row <= ROWS,
                *self == *old(self),
                self@.board_ok(),
                forall|r: int, c: int|
                    0 <= r < row && 0 <= c < COLS ==> !#[trigger] line_from(
                        self@.cells,
                        owner(self@.cells, r, c),
                        r,
                        c,
                    ),
            decreases ROWS - row,
        {
            let mut col: usize = 0;
            while col < COLS
                invariant
                    row < ROWS,
                    col <= COLS,
                    *self == *old(self),
                    self@.board_ok(),
                    forall|r: int, c: int|
                        0 <= r < row && 0 <= c < COLS ==> !#[trigger] line_from(
                            self@.cells,
                            owner(self@.cells, r, c),
                            r,
                            c,
                        ),
                    forall|c: int|
                        0 <= c < col ==> !#[trigger] line_from(
                            self@.cells,
                            owner(self@.cells, row as int, c),
                            row as int,
                            c,
                        ),
                decreases COLS - col,
            {
                if self.line_starts_at(row, col) {
                    let cell = self.board[row][col];
                    assert(wins(self@.cells, cell));
                    self.is_finished = true;
                    return cell;
                }
                col += 1;
            }
            row += 1;
        }
        proof {
            lemma_moves_are_tokens(self@);
            assert forall|player: Player| !wins(self@.cells, player) by {
                if wins(self@.cells, player) {
                    let (r, c) = choose|r: int, c: int| line_from(self@.cells, player, r, c);
                    assert(in_bounds(r, c));
                    assert(line_from(self@.cells, owner(self@.cells, r, c), r, c));
                }
            }
        }
        if self.current_move as usize >= CELLS {
            self.is_finished = true;
        }
        Player::Nobody
    }

    /// Drops a token of the player to move into `column`, the columns being
    /// numbered from 0.
    ///
    /// The move is refused, and nothing changes, if the game is over, if
    /// there is no such column, or if the column is full. Otherwise the token
    /// comes to rest on the lowest free cell of the column. If that gives its
    /// owner four in a line, the game is over and won; if it fills the board,
    /// the game is over and drawn; in both cases the turn stays where it is.
    /// Otherwise it is the other player's turn.
    pub fn play_move(&mut self, column: i64) -> (result: Result<(), MoveError>)
        requires
            old(self)@.wf(),
        ensures
            final(self)@.wf(),
            old(self)@.finished ==> result matches Err(MoveError::GameFinished),
            !old(self)@.finished && !(0 <= column < COLS) ==> result matches Err(
                MoveError::InvalidColumn,
            ),
            !old(self)@.finished && 0 <= column < COLS && column_full(
                old(self)@.cells,
                column as int,
            ) ==> result matches Err(MoveError::ColumnFull),
            old(self)@.accepts(column as int) ==> result is Ok,
            result is Err ==> final(self)@ == old(self)@,
            result is Ok ==> final(self)@ == old(self)@.drop_token(column as int),
            result is Ok ==> lowest_free(
                old(self)@.cells,
                column as int,
                landing_row(old(self)@.cells, column as int),
            ),
            result is Ok ==> final(self)@.cells == place(
                old(self)@.cells,
                landing_row(old(self)@.cells, column as int),
                column as int,
                old(self)@.to_move,
            ),
            result is Ok && !final(self)@.finished ==> final(self)@.to_move == old(
                self,
            )@.to_move.opponent(),
            result is Ok && final(self)@.finished ==> final(self)@.to_move == old(self)@.to_move,
            forall|row: int, col: int|
                owner(old(self)@.cells, row, col) != Player::Nobody ==> #[trigger] owner(
                    final(self)@.cells,
                    row,
                    col,
                ) == owner(old(self)@.cells, row, col),
    {
        if self.is_finished {
            return Err(MoveError::GameFinished);
        }
        if column < 0 || column >= COLS as i64 {
            return Err(MoveError::InvalidColumn);
        }
        let col = column as usize;
        let ghost before = self@;
        match self.lowest_free_row(col) {
            Some(row) => {
                proof {
                    lemma_with_token_board_ok(before, row as int, col as int);
                    lemma_landing_row_is(before.cells, col as int, row as int);
                }
                self.board[row][col] = self.current_player;
                self.current_move += 1;
                assert(self@.cells =~~= before.with_token(row as int, col as int).cells);
            },
            None => {
                return Err(MoveError::ColumnFull);
            },
        }
        let ghost placed = self@;
        let calculated_winner = self.calculate_winner();
        if calculated_winner != Player::Nobody {
            self.winner = calculated_winner;
        } else if !self.is_finished {
            self.current_player = match self.current_player {
                Player::One => Player::Two,
                _ => Player::One,
            };
        }
        proof {
            lemma_settled_wf(placed);
            assert(self@ == placed.settled());
        }
        Ok(())
    }
}

} // verus!

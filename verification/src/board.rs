//! The board as a mathematical object: a grid of cell owners, with the
//! notions the rules are stated in. Row 0 is the top row, row `ROWS - 1` the
//! bottom row, so "below" means a larger row number.

use crate::player::Player;
use vstd::prelude::*;

verus! {

/// Number of rows of the board.
pub const ROWS: usize = 6;

/// Number of columns of the board.
pub const COLS: usize = 7;

/// Number of cells of the board.
pub const CELLS: usize = ROWS * COLS;

/// The board as it is stored: `board[row][col]` is the owner of a cell.
pub type Board = [[Player; COLS]; ROWS];

/// The owners of all cells, row by row: `grid[row][col]`.
pub type Grid = Seq<Seq<Player>>;

/// The grid that a stored board holds.
pub open spec fn grid_of(board: Board) -> Grid {
    Seq::new(ROWS as nat, |row: int| board[row]@)
}

/// Whether `(row, col)` names a cell of the board.
pub open spec fn in_bounds(row: int, col: int) -> bool {
    0 <= row < ROWS && 0 <= col < COLS
}

/// Whether `grid` has the dimensions of the board.
pub open spec fn well_formed(grid: Grid) -> bool {
    &&& grid.len() == ROWS
    &&& forall|row: int| 0 <= row < ROWS ==> (#[trigger] grid[row]).len() == COLS
}

/// The owner of the cell `(row, col)`. Nobody owns what lies off the board.
pub open spec fn owner(grid: Grid, row: int, col: int) -> Player {
    if in_bounds(row, col) {
        grid[row][col]
    } else {
        Player::Nobody
    }
}

/// The board without any token.
pub open spec fn empty_grid() -> Grid {
    Seq::new(ROWS as nat, |row: int| Seq::new(COLS as nat, |col: int| Player::Nobody))
}

/// `grid` with the cell `(row, col)` given to `player`.
pub open spec fn place(grid: Grid, row: int, col: int, player: Player) -> Grid {
    grid.update(row, grid[row].update(col, player))
}

/// Tokens rest on the bottom row or on other tokens: below an occupied cell
/// every cell of the column is occupied.
pub open spec fn gravity(grid: Grid) -> bool {
    forall|row: int, below: int, col: int|
        0 <= row <= below < ROWS && 0 <= col < COLS && #[trigger] owner(grid, row, col)
            != Player::Nobody ==> #[trigger] owner(grid, below, col) != Player::Nobody
}

/// Whether column `col` has no free cell left.
pub open spec fn column_full(grid: Grid, col: int) -> bool {
    forall|row: int| 0 <= row < ROWS ==> #[trigger] owner(grid, row, col) != Player::Nobody
}

/// Whether `(row, col)` is the lowest free cell of column `col`: it is free
/// and every cell below it is occupied.
pub open spec fn lowest_free(grid: Grid, col: int, row: int) -> bool {
    &&& in_bounds(row, col)
    &&& owner(grid, row, col) == Player::Nobody
    &&& forall|below: int| row < below < ROWS ==> #[trigger] owner(grid, below, col) != Player::Nobody
}

/// The row in which a token dropped into column `col` comes to rest. It is
/// meaningful for a column of the board that is not full.
pub open spec fn landing_row(grid: Grid, col: int) -> int {
    choose|row: int| lowest_free(grid, col, row)
}

/// Whether `player` owns the four cells that start at `(row, col)` and
/// continue in steps of `(row_step, col_step)`.
pub open spec fn four_in_line(
    grid: Grid,
    player: Player,
    row: int,
    col: int,
    row_step: int,
    col_step: int,
) -> bool {
    &&& player != Player::Nobody
    &&& owner(grid, row, col) == player
    &&& owner(grid, row + row_step, col + col_step) == player
    &&& owner(grid, row + 2 * row_step, col + 2 * col_step) == player
    &&& owner(grid, row + 3 * row_step, col + 3 * col_step) == player
}

/// Whether a line of four tokens of `player` starts at `(row, col)`: to the
/// right along the row, down the column, or along one of the two diagonals.
pub open spec fn line_from(grid: Grid, player: Player, row: int, col: int) -> bool {
    ||| four_in_line(grid, player, row, col, 0, 1)
    ||| four_in_line(grid, player, row, col, 1, 0)
    ||| four_in_line(grid, player, row, col, 1, 1)
    ||| four_in_line(grid, player, row, col, -1, 1)
}

/// Whether `player` has four tokens in a line somewhere on the board.
pub open spec fn wins(grid: Grid, player: Player) -> bool {
    exists|row: int, col: int| line_from(grid, player, row, col)
}

/// The player who has four in a line, `Nobody` if there is none.
pub open spec fn winner_of(grid: Grid) -> Player {
    if wins(grid, Player::One) {
        Player::One
    } else if wins(grid, Player::Two) {
        Player::Two
    } else {
        Player::Nobody
    }
}

/// A column that is not full has a lowest free cell.
pub proof fn lemma_free_column_has_landing_row(grid: Grid, col: int)
    requires
        0 <= col < COLS,
        !column_full(grid, col),
    ensures
        lowest_free(grid, col, landing_row(grid, col)),
{
    let free = choose|row: int| 0 <= row < ROWS && owner(grid, row, col) == Player::Nobody;
    lemma_lowest_free_below(grid, col, free);
}

/// Below or at a free cell lies the lowest free cell of its column.
proof fn lemma_lowest_free_below(grid: Grid, col: int, row: int)
    requires
        in_bounds(row, col),
        owner(grid, row, col) == Player::Nobody,
    ensures
        exists|lowest: int| lowest_free(grid, col, lowest),
    decreases ROWS - row,
{
    if exists|below: int| row < below < ROWS && owner(grid, below, col) == Player::Nobody {
        let below = choose|below: int|
            row < below < ROWS && owner(grid, below, col) == Player::Nobody;
        lemma_lowest_free_below(grid, col, below);
    } else {
        assert(lowest_free(grid, col, row));
    }
}

/// A column has at most one lowest free cell.
pub proof fn lemma_lowest_free_unique(grid: Grid, col: int, row: int, other: int)
    requires
        lowest_free(grid, col, row),
        lowest_free(grid, col, other),
    ensures
        row == other,
{
}

/// The landing row of a column is its lowest free cell, wherever that is.
pub proof fn lemma_landing_row_is(grid: Grid, col: int, row: int)
    requires
        lowest_free(grid, col, row),
    ensures
        landing_row(grid, col) == row,
{
    lemma_lowest_free_unique(grid, col, row, landing_row(grid, col));
}

/// Placing a token changes the owner of one cell and of no other.
pub proof fn lemma_place_owner(grid: Grid, row: int, col: int, player: Player)
    requires
        well_formed(grid),
        in_bounds(row, col),
    ensures
        well_formed(place(grid, row, col, player)),
        owner(place(grid, row, col, player), row, col) == player,
        forall|r: int, c: int|
            !(r == row && c == col) ==> #[trigger] owner(place(grid, row, col, player), r, c)
                == owner(grid, r, c),
{
}

/// A token placed on the lowest free cell of a column keeps gravity.
pub proof fn lemma_place_keeps_gravity(grid: Grid, row: int, col: int, player: Player)
    requires
        well_formed(grid),
        gravity(grid),
        lowest_free(grid, col, row),
        player != Player::Nobody,
    ensures
        gravity(place(grid, row, col, player)),
{
    let after = place(grid, row, col, player);
    lemma_place_owner(grid, row, col, player);
    assert forall|r: int, below: int, c: int|
        0 <= r <= below < ROWS && 0 <= c < COLS && #[trigger] owner(after, r, c)
            != Player::Nobody implies #[trigger] owner(after, below, c) != Player::Nobody by {
        if r == row && c == col {
        } else {
            assert(owner(grid, r, c) != Player::Nobody);
            assert(owner(grid, below, c) != Player::Nobody);
        }
    }
}

/// A token placed on a free cell completes lines of its owner only: a line of
/// another player that stands afterwards stood before.
pub proof fn lemma_place_wins(grid: Grid, row: int, col: int, player: Player, other: Player)
    requires
        well_formed(grid),
        in_bounds(row, col),
        other != player,
        wins(place(grid, row, col, player), other),
    ensures
        wins(grid, other),
{
    let after = place(grid, row, col, player);
    lemma_place_owner(grid, row, col, player);
    let (r, c) = choose|r: int, c: int| line_from(after, other, r, c);
    assert(line_from(grid, other, r, c));
}

/// The first token of a column comes to rest on the bottom row.
pub proof fn lemma_first_token_lands_on_bottom(col: int)
    requires
        0 <= col < COLS,
    ensures
        landing_row(empty_grid(), col) == ROWS - 1,
{
    assert(lowest_free(empty_grid(), col, ROWS - 1));
    lemma_landing_row_is(empty_grid(), col, ROWS - 1);
}

/// A token comes to rest directly on top of the token that was dropped
/// into the same column before it, and a token that comes to rest in the top
/// row fills the column. No other column is affected.
pub proof fn lemma_next_landing_row(grid: Grid, row: int, col: int, player: Player)
    requires
        well_formed(grid),
        gravity(grid),
        lowest_free(grid, col, row),
        player != Player::Nobody,
    ensures
        row > 0 ==> landing_row(place(grid, row, col, player), col) == row - 1,
        row == 0 <==> column_full(place(grid, row, col, player), col),
        forall|other: int|
            other != col ==> (column_full(place(grid, row, col, player), other) <==> column_full(
                grid,
                other,
            )),
        forall|other: int|
            0 <= other < COLS && other != col && !column_full(grid, other) ==> landing_row(
                place(grid, row, col, player),
                other,
            ) == landing_row(grid, other),
{
    let after = place(grid, row, col, player);
    lemma_place_owner(grid, row, col, player);
    if row > 0 {
        assert(owner(grid, row - 1, col) == Player::Nobody);
        assert(lowest_free(after, col, row - 1));
        lemma_landing_row_is(after, col, row - 1);
        assert(owner(after, row - 1, col) == Player::Nobody);
    } else {
        assert forall|r: int| 0 <= r < ROWS implies #[trigger] owner(after, r, col)
            != Player::Nobody by {
            if r != row {
                assert(owner(grid, r, col) != Player::Nobody);
            }
        }
    }
    assert forall|other: int| other != col implies (column_full(after, other) <==> column_full(
        grid,
        other,
    )) by {
        if column_full(grid, other) {
            assert forall|r: int| 0 <= r < ROWS implies #[trigger] owner(after, r, other)
                != Player::Nobody by {
                assert(owner(grid, r, other) != Player::Nobody);
            }
        }
        if column_full(after, other) {
            assert forall|r: int| 0 <= r < ROWS implies #[trigger] owner(grid, r, other)
                != Player::Nobody by {
                assert(owner(after, r, other) != Player::Nobody);
            }
        }
    }
    assert forall|other: int|
        0 <= other < COLS && other != col && !column_full(grid, other) implies landing_row(
        after,
        other,
    ) == landing_row(grid, other) by {
        lemma_free_column_has_landing_row(grid, other);
        let r = landing_row(grid, other);
        assert forall|below: int| r < below < ROWS implies #[trigger] owner(after, below, other)
            != Player::Nobody by {
            assert(owner(grid, below, other) != Player::Nobody);
        }
        assert(lowest_free(after, other, r));
        lemma_landing_row_is(after, other, r);
    }
}

} // verus!

//! Counting the tokens on the board. The cells are numbered row by row, the
//! cell `(row, col)` having the number `row * COLS + col`.

use crate::board::{
    empty_grid, four_in_line, in_bounds, lemma_place_owner, line_from, owner, place, well_formed,
    wins, Grid, CELLS, COLS,
};
use crate::player::Player;
use vstd::prelude::*;

verus! {

/// The owner of the cell with the given number.
pub open spec fn cell_owner(grid: Grid, index: int) -> Player {
    owner(grid, index / (COLS as int), index % (COLS as int))
}

/// How many of the first `n` cells `player` owns. For `Nobody` this is the
/// number of free cells among them.
pub open spec fn tokens_before(grid: Grid, player: Player, n: nat) -> nat
    decreases n,
{
    if n == 0 {
        0
    } else {
        tokens_before(grid, player, (n - 1) as nat) + if cell_owner(grid, n - 1) == player {
            1nat
        } else {
            0nat
        }
    }
}

/// How many cells of the board `player` owns.
pub open spec fn tokens(grid: Grid, player: Player) -> nat {
    tokens_before(grid, player, CELLS as nat)
}

/// Counting further cells does not lower the count.
pub proof fn lemma_tokens_monotone(grid: Grid, player: Player, m: nat, n: nat)
    requires
        m <= n,
    ensures
        tokens_before(grid, player, m) <= tokens_before(grid, player, n),
    decreases n,
{
    if m < n {
        lemma_tokens_monotone(grid, player, m, (n - 1) as nat);
    }
}

/// A cell of `player` among the first `n` is counted.
pub proof fn lemma_token_counted(grid: Grid, player: Player, index: nat, n: nat)
    requires
        index < n,
        cell_owner(grid, index as int) == player,
    ensures
        tokens_before(grid, player, index) + 1 <= tokens_before(grid, player, n),
{
    assert(tokens_before(grid, player, index + 1) == tokens_before(grid, player, index) + 1);
    lemma_tokens_monotone(grid, player, index + 1, n);
}

/// Every one of the first `n` cells is counted once: for one of the two
/// players, or as free.
pub proof fn lemma_tokens_partition(grid: Grid, n: nat)
    ensures
        tokens_before(grid, Player::One, n) + tokens_before(grid, Player::Two, n) + tokens_before(
            grid,
            Player::Nobody,
            n,
        ) == n,
    decreases n,
{
    if n > 0 {
        lemma_tokens_partition(grid, (n - 1) as nat);
    }
}

/// Four different cells of `player` make at least four tokens.
proof fn lemma_four_cells(grid: Grid, player: Player, a: nat, b: nat, c: nat, d: nat)
    requires
        a < b < c < d < CELLS,
        cell_owner(grid, a as int) == player,
        cell_owner(grid, b as int) == player,
        cell_owner(grid, c as int) == player,
        cell_owner(grid, d as int) == player,
    ensures
        tokens(grid, player) >= 4,
{
    lemma_token_counted(grid, player, a, b);
    lemma_token_counted(grid, player, b, c);
    lemma_token_counted(grid, player, c, d);
    lemma_token_counted(grid, player, d, CELLS as nat);
}

/// The number of the cell `(row, col)`.
pub open spec fn cell_number(row: int, col: int) -> int {
    row * COLS + col
}

/// Numbering the cells loses nothing: the cell with the number of
/// `(row, col)` is `(row, col)`.
pub proof fn lemma_cell_number(grid: Grid, row: int, col: int)
    requires
        in_bounds(row, col),
    ensures
        0 <= cell_number(row, col) < CELLS,
        cell_owner(grid, cell_number(row, col)) == owner(grid, row, col),
{
}

/// Whoever has four in a line has at least four tokens on the board.
pub proof fn lemma_wins_needs_four_tokens(grid: Grid, player: Player)
    requires
        wins(grid, player),
    ensures
        tokens(grid, player) >= 4,
{
    let (row, col) = choose|row: int, col: int| line_from(grid, player, row, col);
    let (row_step, col_step): (int, int) = if four_in_line(grid, player, row, col, 0, 1) {
        (0, 1)
    } else if four_in_line(grid, player, row, col, 1, 0) {
        (1, 0)
    } else if four_in_line(grid, player, row, col, 1, 1) {
        (1, 1)
    } else {
        (-1, 1)
    };
    assert(four_in_line(grid, player, row, col, row_step, col_step));
    lemma_cell_number(grid, row, col);
    lemma_cell_number(grid, row + row_step, col + col_step);
    lemma_cell_number(grid, row + 2 * row_step, col + 2 * col_step);
    lemma_cell_number(grid, row + 3 * row_step, col + 3 * col_step);
    let first = cell_number(row, col) as nat;
    let second = cell_number(row + row_step, col + col_step) as nat;
    let third = cell_number(row + 2 * row_step, col + 2 * col_step) as nat;
    let fourth = cell_number(row + 3 * row_step, col + 3 * col_step) as nat;
    if first < second {
        lemma_four_cells(grid, player, first, second, third, fourth);
    } else {
        lemma_four_cells(grid, player, fourth, third, second, first);
    }
}

/// A token placed on a free cell is one token more for its owner and none
/// more for the other player.
pub proof fn lemma_place_tokens(grid: Grid, row: int, col: int, player: Player, counted: Player)
    requires
        well_formed(grid),
        in_bounds(row, col),
        owner(grid, row, col) == Player::Nobody,
        player != Player::Nobody,
        counted != Player::Nobody,
    ensures
        tokens(place(grid, row, col, player), counted) == tokens(grid, counted) + if counted
            == player {
            1nat
        } else {
            0nat
        },
{
    lemma_place_tokens_before(grid, row, col, player, counted, CELLS as nat);
}

proof fn lemma_place_tokens_before(
    grid: Grid,
    row: int,
    col: int,
    player: Player,
    counted: Player,
    n: nat,
)
    requires
        well_formed(grid),
        in_bounds(row, col),
        owner(grid, row, col) == Player::Nobody,
        player != Player::Nobody,
        counted != Player::Nobody,
        n <= CELLS,
    ensures
        tokens_before(place(grid, row, col, player), counted, n) == tokens_before(
            grid,
            counted,
            n,
        ) + if counted == player && cell_number(row, col) < n {
            1nat
        } else {
            0nat
        },
    decreases n,
{
    if n > 0 {
        lemma_place_tokens_before(grid, row, col, player, counted, (n - 1) as nat);
        lemma_place_owner(grid, row, col, player);
        let index = n - 1;
        let after = place(grid, row, col, player);
        if index == cell_number(row, col) {
            assert(cell_owner(after, index) == player);
            assert(cell_owner(grid, index) == Player::Nobody);
        } else {
            assert(cell_owner(after, index) == cell_owner(grid, index));
        }
    }
}

/// A free cell on the board means fewer tokens than cells.
pub proof fn lemma_free_cell_counts(grid: Grid, row: int, col: int)
    requires
        in_bounds(row, col),
        owner(grid, row, col) == Player::Nobody,
    ensures
        tokens(grid, Player::One) + tokens(grid, Player::Two) < CELLS,
{
    lemma_cell_number(grid, row, col);
    lemma_token_counted(grid, Player::Nobody, cell_number(row, col) as nat, CELLS as nat);
    lemma_tokens_partition(grid, CELLS as nat);
}

/// As many tokens as cells means that no cell is free.
pub proof fn lemma_all_tokens_fill_board(grid: Grid)
    requires
        tokens(grid, Player::One) + tokens(grid, Player::Two) >= CELLS,
    ensures
        forall|row: int, col: int|
            in_bounds(row, col) ==> #[trigger] owner(grid, row, col) != Player::Nobody,
{
    assert forall|row: int, col: int| in_bounds(row, col) implies #[trigger] owner(grid, row, col)
        != Player::Nobody by {
        if owner(grid, row, col) == Player::Nobody {
            lemma_free_cell_counts(grid, row, col);
        }
    }
}

/// No free cell means as many tokens as cells.
pub proof fn lemma_full_board_all_tokens(grid: Grid)
    requires
        forall|row: int, col: int|
            in_bounds(row, col) ==> #[trigger] owner(grid, row, col) != Player::Nobody,
    ensures
        tokens(grid, Player::One) + tokens(grid, Player::Two) == CELLS,
{
    lemma_no_free_cell_before(grid, CELLS as nat);
    lemma_tokens_partition(grid, CELLS as nat);
}

proof fn lemma_no_free_cell_before(grid: Grid, n: nat)
    requires
        n <= CELLS,
        forall|row: int, col: int|
            in_bounds(row, col) ==> #[trigger] owner(grid, row, col) != Player::Nobody,
    ensures
        tokens_before(grid, Player::Nobody, n) == 0,
    decreases n,
{
    if n > 0 {
        lemma_no_free_cell_before(grid, (n - 1) as nat);
        let index = n - 1;
        assert(in_bounds(index / (COLS as int), index % (COLS as int)));
    }
}

/// On the empty board nobody has a token.
pub proof fn lemma_empty_grid_tokens(player: Player, n: nat)
    requires
        player != Player::Nobody,
    ensures
        tokens_before(empty_grid(), player, n) == 0,
    decreases n,
{
    if n > 0 {
        lemma_empty_grid_tokens(player, (n - 1) as nat);
    }
}

} // verus!

use connect_four::board::{CELLS, COLS, ROWS};
use connect_four::error::MoveError;
use connect_four::game::Game;
use connect_four::player::Player;

const STEPS: [(i64, i64); 4] = [(0, 1), (1, 0), (1, 1), (-1, 1)];

fn lines_on(game: &Game) -> Vec<(usize, usize, i64, i64)> {
    let board = game.board();
    let mut lines = Vec::new();
    for row in 0..ROWS {
        for col in 0..COLS {
            let owner = board[row][col];
            if owner == Player::Nobody {
                continue;
            }
            for (row_step, col_step) in STEPS {
                let same = (1..4).all(|k| {
                    let r = row as i64 + k * row_step;
                    let c = col as i64 + k * col_step;
                    r >= 0
                        && r < ROWS as i64
                        && c >= 0
                        && c < COLS as i64
                        && board[r as usize][c as usize] == owner
                });
                if same {
                    lines.push((row, col, row_step, col_step));
                }
            }
        }
    }
    lines
}

fn tokens_on(game: &Game) -> usize {
    let board = game.board();
    let mut tokens = 0;
    for row in 0..ROWS {
        for col in 0..COLS {
            if board[row][col] != Player::Nobody {
                tokens += 1;
            }
        }
    }
    tokens
}

fn play_all(game: &mut Game, columns: &[i64]) {
    for &column in columns {
        assert_eq!(game.play_move(column), Ok(()));
    }
}

fn drawn_game_moves() -> Vec<i64> {
    let mut moves = Vec::new();
    for (column, times) in
        [(0, 6), (1, 6), (4, 1), (2, 6), (3, 6), (4, 5), (5, 1), (6, 6), (5, 5)]
    {
        for _ in 0..times {
            moves.push(column);
        }
    }
    moves
}

#[test]
fn new_game_is_empty_and_player_one_moves() {
    let game = Game::default();
    assert_eq!(game.current_move(), 0);
    assert_eq!(game.current_player(), Player::One);
    assert!(!game.is_finished());
    assert_eq!(game.winner(), Player::Nobody);
    assert_eq!(game.board(), [[Player::Nobody; COLS]; ROWS]);
    assert_eq!(tokens_on(&game), 0);
}

#[test]
fn board_has_six_rows_and_seven_columns() {
    assert_eq!(ROWS, 6);
    assert_eq!(COLS, 7);
    assert_eq!(CELLS, 42);
}

#[test]
fn first_token_lands_on_the_bottom_row() {
    for column in 0..COLS {
        let mut game = Game::default();
        assert_eq!(game.play_move(column as i64), Ok(()));
        for row in 0..ROWS {
            for col in 0..COLS {
                let expected =
                    if row == ROWS - 1 && col == column { Player::One } else { Player::Nobody };
                assert_eq!(game.cell(row, col), expected);
            }
        }
    }
}

#[test]
fn tokens_stack_from_the_bottom_up() {
    let mut game = Game::default();
    play_all(&mut game, &[3, 3, 3]);
    assert_eq!(game.cell(5, 3), Player::One);
    assert_eq!(game.cell(4, 3), Player::Two);
    assert_eq!(game.cell(3, 3), Player::One);
    assert_eq!(game.cell(2, 3), Player::Nobody);
    assert_eq!(tokens_on(&game), 3);
    play_all(&mut game, &[2]);
    assert_eq!(game.cell(5, 2), Player::Two);
    assert_eq!(game.cell(4, 2), Player::Nobody);
    assert_eq!(game.cell(3, 3), Player::One);
}

#[test]
fn every_token_rests_on_the_bottom_or_on_another_token() {
    let mut game = Game::default();
    for column in drawn_game_moves() {
        let before = game.board();
        let mover = game.current_player();
        assert_eq!(game.play_move(column), Ok(()));
        let after = game.board();
        let col = column as usize;
        let mut changed = Vec::new();
        for row in 0..ROWS {
            for c in 0..COLS {
                if before[row][c] != after[row][c] {
                    changed.push((row, c));
                }
            }
        }
        assert_eq!(changed.len(), 1);
        let (row, c) = changed[0];
        assert_eq!(c, col);
        assert_eq!(before[row][col], Player::Nobody);
        assert_eq!(after[row][col], mover);
        for below in row + 1..ROWS {
            assert_ne!(before[below][col], Player::Nobody);
        }
        for above in 0..row {
            assert_eq!(after[above][col], Player::Nobody);
        }
    }
}

#[test]
fn column_takes_six_tokens_and_refuses_the_seventh() {
    for column in 0..COLS as i64 {
        let mut game = Game::default();
        for placed in 0..ROWS {
            assert_eq!(game.play_move(column), Ok(()));
            assert_eq!(game.current_move() as usize, placed + 1);
        }
        for row in 0..ROWS {
            let expected = if (ROWS - 1 - row) % 2 == 0 { Player::One } else { Player::Two };
            assert_eq!(game.cell(row, column as usize), expected);
        }
        assert!(!game.is_finished());
        let board = game.board();
        assert_eq!(game.play_move(column), Err(MoveError::ColumnFull));
        assert_eq!(game.board(), board);
        assert_eq!(game.current_move(), 6);
        assert_eq!(game.current_player(), Player::One);
        assert!(!game.is_finished());
        assert_eq!(game.winner(), Player::Nobody);
        let other = (column + 1) % COLS as i64;
        assert_eq!(game.play_move(other), Ok(()));
    }
}

#[test]
fn finished_game_refuses_every_move_and_stays_as_it_is() {
    let mut game = Game::default();
    play_all(&mut game, &[0, 6, 1, 6, 2, 6, 3]);
    assert!(game.is_finished());
    let board = game.board();
    for column in [-1, 0, 3, 4, 6, 7, 100, i64::MIN, i64::MAX] {
        assert_eq!(game.play_move(column), Err(MoveError::GameFinished));
        assert_eq!(game.board(), board);
        assert_eq!(game.current_move(), 7);
        assert_eq!(game.current_player(), Player::One);
        assert!(game.is_finished());
        assert_eq!(game.winner(), Player::One);
    }
}

#[test]
fn drawn_game_refuses_every_move() {
    let mut game = Game::default();
    play_all(&mut game, &drawn_game_moves());
    let board = game.board();
    for column in -1..=COLS as i64 {
        assert_eq!(game.play_move(column), Err(MoveError::GameFinished));
        assert_eq!(game.board(), board);
        assert_eq!(game.current_move(), 42);
        assert_eq!(game.current_player(), Player::Two);
        assert_eq!(game.winner(), Player::Nobody);
    }
}

#[test]
fn column_off_the_board_is_refused() {
    let mut game = Game::default();
    play_all(&mut game, &[2, 2, 5]);
    let board = game.board();
    for column in [-1, 7, 8, -7, 42, i64::MIN, i64::MAX] {
        assert_eq!(game.play_move(column), Err(MoveError::InvalidColumn));
        assert_eq!(game.board(), board);
        assert_eq!(game.current_move(), 3);
        assert_eq!(game.current_player(), Player::Two);
        assert!(!game.is_finished());
        assert_eq!(game.winner(), Player::Nobody);
    }
    assert_eq!(game.play_move(0), Ok(()));
    assert_eq!(game.play_move(6), Ok(()));
}

#[test]
fn full_column_is_told_apart_from_a_column_off_the_board() {
    let mut game = Game::default();
    play_all(&mut game, &[6, 6, 6, 6, 6, 6]);
    assert_eq!(game.play_move(6), Err(MoveError::ColumnFull));
    assert_eq!(game.play_move(7), Err(MoveError::InvalidColumn));
}

#[test]
fn four_in_the_bottom_row_win_for_player_one() {
    let mut game = Game::default();
    let moves = [0, 6, 1, 6, 2, 6, 3];
    for (number, &column) in moves.iter().enumerate() {
        assert!(!game.is_finished());
        assert_eq!(game.winner(), Player::Nobody);
        assert!(lines_on(&game).is_empty());
        assert_eq!(game.play_move(column), Ok(()));
        assert_eq!(game.current_move() as usize, number + 1);
    }
    assert!(game.is_finished());
    assert_eq!(game.winner(), Player::One);
    assert_eq!(game.current_player(), Player::One);
    assert_eq!(game.current_move(), 7);
    for col in 0..4 {
        assert_eq!(game.cell(5, col), Player::One);
    }
    assert_eq!(lines_on(&game), vec![(5, 0, 0, 1)]);
}

#[test]
fn four_in_a_column_win() {
    let mut game = Game::default();
    let moves = [0, 1, 0, 1, 0, 1];
    play_all(&mut game, &moves);
    assert!(!game.is_finished());
    assert!(lines_on(&game).is_empty());
    assert_eq!(game.play_move(0), Ok(()));
    assert!(game.is_finished());
    assert_eq!(game.winner(), Player::One);
    assert_eq!(game.current_player(), Player::One);
    assert_eq!(lines_on(&game), vec![(2, 0, 1, 0)]);
}

#[test]
fn four_on_the_rising_diagonal_win() {
    let mut game = Game::default();
    let moves = [0, 1, 1, 2, 3, 2, 2, 3, 4, 3];
    for &column in moves.iter() {
        assert_eq!(game.play_move(column), Ok(()));
        assert!(!game.is_finished());
        assert!(lines_on(&game).is_empty());
    }
    assert_eq!(game.play_move(3), Ok(()));
    assert!(game.is_finished());
    assert_eq!(game.winner(), Player::One);
    assert_eq!(game.current_player(), Player::One);
    assert_eq!(game.current_move(), 11);
    assert_eq!(game.cell(5, 0), Player::One);
    assert_eq!(game.cell(4, 1), Player::One);
    assert_eq!(game.cell(3, 2), Player::One);
    assert_eq!(game.cell(2, 3), Player::One);
    assert_eq!(lines_on(&game), vec![(5, 0, -1, 1)]);
}

#[test]
fn four_on_the_falling_diagonal_win() {
    let mut game = Game::default();
    let moves = [6, 5, 5, 4, 3, 4, 4, 3, 2, 3];
    for &column in moves.iter() {
        assert_eq!(game.play_move(column), Ok(()));
        assert!(!game.is_finished());
        assert!(lines_on(&game).is_empty());
    }
    assert_eq!(game.play_move(3), Ok(()));
    assert!(game.is_finished());
    assert_eq!(game.winner(), Player::One);
    assert_eq!(game.current_player(), Player::One);
    assert_eq!(game.cell(2, 3), Player::One);
    assert_eq!(game.cell(3, 4), Player::One);
    assert_eq!(game.cell(4, 5), Player::One);
    assert_eq!(game.cell(5, 6), Player::One);
    assert_eq!(lines_on(&game), vec![(2, 3, 1, 1)]);
}

#[test]
fn player_two_wins_with_the_eighth_move() {
    let mut game = Game::default();
    play_all(&mut game, &[0, 1, 0, 2, 0, 3, 6]);
    assert!(!game.is_finished());
    assert_eq!(game.current_player(), Player::Two);
    assert_eq!(game.play_move(4), Ok(()));
    assert!(game.is_finished());
    assert_eq!(game.winner(), Player::Two);
    assert_eq!(game.current_player(), Player::Two);
    assert_eq!(game.current_move(), 8);
    assert_eq!(lines_on(&game), vec![(5, 1, 0, 1)]);
}

#[test]
fn line_does_not_run_over_the_edge_of_the_board() {
    let mut game = Game::default();
    play_all(&mut game, &[0, 5, 1, 6, 5, 2, 6]);
    assert_eq!(game.cell(4, 5), Player::One);
    assert_eq!(game.cell(4, 6), Player::One);
    assert_eq!(game.cell(5, 0), Player::One);
    assert_eq!(game.cell(5, 1), Player::One);
    assert!(!game.is_finished());
    assert_eq!(game.winner(), Player::Nobody);
    assert_eq!(game.current_player(), Player::Two);
}

#[test]
fn three_in_a_line_do_not_win() {
    let mut game = Game::default();
    play_all(&mut game, &[0, 0, 1, 1, 2, 2, 4, 4]);
    assert!(!game.is_finished());
    assert_eq!(game.winner(), Player::Nobody);
    assert_eq!(game.calculate_winner(), Player::Nobody);
}

#[test]
fn full_board_without_a_line_is_a_draw() {
    let mut game = Game::default();
    let moves = drawn_game_moves();
    assert_eq!(moves.len(), 42);
    for (number, &column) in moves.iter().enumerate() {
        assert!(!game.is_finished());
        assert_eq!(game.winner(), Player::Nobody);
        let mover = game.current_player();
        assert_eq!(mover, if number % 2 == 0 { Player::One } else { Player::Two });
        assert_eq!(game.play_move(column), Ok(()));
        assert_eq!(game.current_move() as usize, number + 1);
        assert_eq!(tokens_on(&game), number + 1);
        assert!(lines_on(&game).is_empty());
        if number + 1 < 42 {
            assert!(!game.is_finished());
            assert_ne!(game.current_player(), mover);
        } else {
            assert_eq!(game.current_player(), mover);
        }
    }
    assert!(game.is_finished());
    assert_eq!(game.winner(), Player::Nobody);
    assert_eq!(game.current_move(), 42);
    assert_eq!(game.current_player(), Player::Two);
    assert_eq!(tokens_on(&game), CELLS);
}

#[test]
fn turn_passes_after_each_move_until_the_game_ends() {
    let mut game = Game::default();
    let moves = [3, 3, 4, 4, 5, 5];
    let mut expected = Player::One;
    for &column in moves.iter() {
        assert_eq!(game.current_player(), expected);
        assert_eq!(game.play_move(column), Ok(()));
        expected = if expected == Player::One { Player::Two } else { Player::One };
        assert_eq!(game.current_player(), expected);
        assert!(!game.is_finished());
    }
    assert_eq!(game.current_player(), Player::One);
    assert_eq!(game.play_move(6), Ok(()));
    assert!(game.is_finished());
    assert_eq!(game.winner(), Player::One);
    assert_eq!(game.current_player(), Player::One);
}

#[test]
fn refused_move_does_not_pass_the_turn() {
    let mut game = Game::default();
    play_all(&mut game, &[0, 0, 0, 0, 0, 0, 1]);
    assert_eq!(game.current_player(), Player::Two);
    assert_eq!(game.play_move(0), Err(MoveError::ColumnFull));
    assert_eq!(game.current_player(), Player::Two);
    assert_eq!(game.play_move(-3), Err(MoveError::InvalidColumn));
    assert_eq!(game.current_player(), Player::Two);
    assert_eq!(game.current_move(), 7);
    assert_eq!(game.play_move(1), Ok(()));
    assert_eq!(game.current_player(), Player::One);
    assert_eq!(game.cell(4, 1), Player::Two);
}

#[test]
fn calculate_winner_names_the_winner_and_changes_nothing() {
    let mut game = Game::default();
    assert_eq!(game.calculate_winner(), Player::Nobody);
    assert!(!game.is_finished());
    play_all(&mut game, &[0, 1, 0, 2, 0, 3, 6]);
    assert_eq!(game.calculate_winner(), Player::Nobody);
    assert!(!game.is_finished());
    assert_eq!(game.current_player(), Player::Two);
    play_all(&mut game, &[4]);
    let board = game.board();
    assert_eq!(game.calculate_winner(), Player::Two);
    assert!(game.is_finished());
    assert_eq!(game.winner(), Player::Two);
    assert_eq!(game.current_player(), Player::Two);
    assert_eq!(game.current_move(), 8);
    assert_eq!(game.board(), board);
}

#[test]
fn calculate_winner_on_a_drawn_game_finds_nobody() {
    let mut game = Game::default();
    play_all(&mut game, &drawn_game_moves());
    assert_eq!(game.calculate_winner(), Player::Nobody);
    assert!(game.is_finished());
    assert_eq!(game.winner(), Player::Nobody);
    assert_eq!(game.current_move(), 42);
}

#[test]
fn line_completed_by_the_last_token_wins() {
    let mut game = Game::default();
    let moves = [
        0, 0, 0, 0, 0, 0, 1, 1, 1, 1, 1, 2, 1, 3, 2, 2, 2, 2, 2, 6, 3, 3, 3, 3, 5, 5, 5, 5, 5, 5,
        6, 6, 4, 6, 4, 6, 4, 4, 4, 4, 3,
    ];
    for &column in moves.iter() {
        assert_eq!(game.play_move(column), Ok(()));
        assert!(!game.is_finished());
        assert!(lines_on(&game).is_empty());
    }
    assert_eq!(game.current_move(), 41);
    assert_eq!(game.current_player(), Player::Two);
    assert_eq!(game.play_move(6), Ok(()));
    assert_eq!(game.current_move(), 42);
    assert_eq!(tokens_on(&game), CELLS);
    assert!(game.is_finished());
    assert_eq!(game.winner(), Player::Two);
    assert_eq!(game.current_player(), Player::Two);
    assert_eq!(lines_on(&game), vec![(0, 6, 1, 0)]);
}

#[test]
fn cell_off_the_board_belongs_to_nobody() {
    let mut game = Game::default();
    play_all(&mut game, &[0, 6]);
    assert_eq!(game.cell(5, 0), Player::One);
    assert_eq!(game.cell(5, 6), Player::Two);
    assert_eq!(game.cell(6, 0), Player::Nobody);
    assert_eq!(game.cell(5, 7), Player::Nobody);
    assert_eq!(game.cell(usize::MAX, usize::MAX), Player::Nobody);
}

#[test]
fn board_and_cell_agree() {
    let mut game = Game::default();
    play_all(&mut game, &[3, 4, 3, 2, 6, 6, 0]);
    let board = game.board();
    for row in 0..ROWS {
        for col in 0..COLS {
            assert_eq!(board[row][col], game.cell(row, col));
        }
    }
    assert_eq!(board[5][3], Player::One);
    assert_eq!(board[5][4], Player::Two);
    assert_eq!(board[4][3], Player::One);
    assert_eq!(board[5][2], Player::Two);
    assert_eq!(board[5][6], Player::One);
    assert_eq!(board[4][6], Player::Two);
    assert_eq!(board[5][0], Player::One);
    assert_eq!(tokens_on(&game), 7);
}

#[test]
fn new_game_after_a_finished_one_starts_afresh() {
    let mut game = Game::default();
    play_all(&mut game, &[0, 1, 0, 1, 0, 1, 0]);
    assert!(game.is_finished());
    game = Game::default();
    assert!(!game.is_finished());
    assert_eq!(game.current_move(), 0);
    assert_eq!(game.current_player(), Player::One);
    assert_eq!(game.winner(), Player::Nobody);
    assert_eq!(game.play_move(0), Ok(()));
    assert_eq!(game.cell(5, 0), Player::One);
}

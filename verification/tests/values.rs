use connect_four::error::MoveError;
use connect_four::player::Player;

#[test]
fn players_have_the_numbers_one_and_two() {
    assert_eq!(Player::from_int(1), Player::One);
    assert_eq!(Player::from_int(2), Player::Two);
    assert_eq!(Player::One.to_int(), 1);
    assert_eq!(Player::Two.to_int(), 2);
}

#[test]
fn every_other_number_is_nobody() {
    assert_eq!(Player::from_int(0), Player::Nobody);
    for number in 3..=u8::MAX {
        assert_eq!(Player::from_int(number), Player::Nobody);
    }
    assert_eq!(Player::Nobody.to_int(), 0);
}

#[test]
fn player_is_found_again_by_its_number() {
    for player in [Player::One, Player::Two, Player::Nobody] {
        assert_eq!(Player::from_int(player.to_int()), player);
    }
    for number in 0..=2 {
        assert_eq!(Player::from_int(number).to_int(), number);
    }
}

#[test]
fn errors_describe_themselves() {
    assert_eq!(MoveError::ColumnFull.message(), "column is full");
    assert_eq!(MoveError::InvalidColumn.message(), "column must be between 1 and 7");
    assert_eq!(MoveError::GameFinished.message(), "game is already finished");
}

#[test]
fn errors_differ_from_each_other() {
    assert_ne!(MoveError::ColumnFull, MoveError::InvalidColumn);
    assert_ne!(MoveError::ColumnFull, MoveError::GameFinished);
    assert_ne!(MoveError::InvalidColumn, MoveError::GameFinished);
}

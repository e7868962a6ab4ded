use tic_tac_toe::board::Board;
use tic_tac_toe::lines::{check_game_ending_state, is_draw, LINE_COUNT, WINNING_POSITIONS};
use tic_tac_toe::player::Player;

fn board_with(size: usize, xs: &[usize], os: &[usize]) -> Board {
    let mut board = Board::new(size);
    for cell in xs {
        assert_eq!(board.place(cell + 1, Player::X), Ok(()));
    }
    for cell in os {
        assert_eq!(board.place(cell + 1, Player::O), Ok(()));
    }
    board
}

#[test]
fn table_holds_the_eight_lines() {
    assert_eq!(LINE_COUNT, 8);
    assert_eq!(
        WINNING_POSITIONS,
        [
            [0, 1, 2],
            [3, 4, 5],
            [6, 7, 8],
            [0, 3, 6],
            [1, 4, 7],
            [2, 5, 8],
            [0, 4, 8],
            [2, 4, 6],
        ]
    );
}

#[test]
fn every_line_wins_for_its_holder_only() {
    for line in WINNING_POSITIONS.iter() {
        let board = board_with(9, line, &[]);
        assert!(check_game_ending_state(&board, &Player::X));
        assert!(!check_game_ending_state(&board, &Player::O));
        let board = board_with(9, &[], line);
        assert!(check_game_ending_state(&board, &Player::O));
        assert!(!check_game_ending_state(&board, &Player::X));
    }
}

#[test]
fn exactly_the_eight_triples_win() {
    for a in 0..9usize {
        for b in (a + 1)..9 {
            for c in (b + 1)..9 {
                let board = board_with(9, &[a, b, c], &[]);
                let listed = WINNING_POSITIONS.iter().any(|line| *line == [a, b, c]);
                assert_eq!(check_game_ending_state(&board, &Player::X), listed);
            }
        }
    }
}

#[test]
fn right_column_wins_and_its_near_miss_does_not() {
    let board = board_with(9, &[2, 5, 8], &[]);
    assert!(check_game_ending_state(&board, &Player::X));
    let board = board_with(9, &[2, 5, 6], &[]);
    assert!(!check_game_ending_state(&board, &Player::X));
}

#[test]
fn two_of_three_do_not_win() {
    let board = board_with(9, &[0, 1], &[2]);
    assert!(!check_game_ending_state(&board, &Player::X));
    assert!(!check_game_ending_state(&board, &Player::O));
}

#[test]
fn empty_board_has_no_winner() {
    let board = Board::new(9);
    assert!(!check_game_ending_state(&board, &Player::X));
    assert!(!check_game_ending_state(&board, &Player::O));
    assert!(!is_draw(&board));
}

#[test]
fn a_line_that_leaves_the_board_is_not_held() {
    let board = board_with(3, &[0, 1, 2], &[]);
    assert!(check_game_ending_state(&board, &Player::X));
    let board = board_with(5, &[0, 3, 4], &[]);
    assert!(!check_game_ending_state(&board, &Player::X));
    let board = Board::new(0);
    assert!(!check_game_ending_state(&board, &Player::X));
    assert!(is_draw(&board));
}

#[test]
fn full_board_without_a_line_is_a_draw() {
    // X O X
    // X O O
    // O X X
    let board = board_with(9, &[0, 2, 3, 7, 8], &[1, 4, 5, 6]);
    assert!(!check_game_ending_state(&board, &Player::X));
    assert!(!check_game_ending_state(&board, &Player::O));
    assert!(is_draw(&board));
}

#[test]
fn full_board_with_a_line_is_no_draw() {
    // X X X
    // O O X
    // X O O
    let board = board_with(9, &[0, 1, 2, 5, 6], &[3, 4, 7, 8]);
    assert!(check_game_ending_state(&board, &Player::X));
    assert!(!is_draw(&board));
}

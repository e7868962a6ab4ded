use tic_tac_toe::board::{Board, CellState};
use tic_tac_toe::input::{is_whitespace, parse_cell_number};
use tic_tac_toe::player::Player;
use tic_tac_toe::render::{cell_text, render_board, COL_PER_ROW, EMPTY_CELL_ATTRIBUTE};
use tic_tac_toe::session::Session;

fn as_the_standard_library_reads(line: &str) -> usize {
    line.trim().parse().unwrap_or(0)
}

#[test]
fn plain_numbers_are_read() {
    assert_eq!(parse_cell_number("1"), 1);
    assert_eq!(parse_cell_number("5"), 5);
    assert_eq!(parse_cell_number("9"), 9);
    assert_eq!(parse_cell_number("10"), 10);
    assert_eq!(parse_cell_number("0"), 0);
    assert_eq!(parse_cell_number("007"), 7);
    assert_eq!(parse_cell_number("1234567"), 1234567);
}

#[test]
fn white_space_around_the_number_is_dropped() {
    assert_eq!(parse_cell_number("5\n"), 5);
    assert_eq!(parse_cell_number("  5  \r\n"), 5);
    assert_eq!(parse_cell_number("\t42 "), 42);
    assert_eq!(parse_cell_number("\u{a0}3\u{3000}"), 3);
}

#[test]
fn a_plus_sign_may_lead() {
    assert_eq!(parse_cell_number("+3"), 3);
    assert_eq!(parse_cell_number(" +12\n"), 12);
}

#[test]
fn anything_else_reads_as_zero() {
    assert_eq!(parse_cell_number(""), 0);
    assert_eq!(parse_cell_number("\n"), 0);
    assert_eq!(parse_cell_number("   "), 0);
    assert_eq!(parse_cell_number("abc"), 0);
    assert_eq!(parse_cell_number("-3"), 0);
    assert_eq!(parse_cell_number("+"), 0);
    assert_eq!(parse_cell_number("++3"), 0);
    assert_eq!(parse_cell_number("+ 3"), 0);
    assert_eq!(parse_cell_number("3+"), 0);
    assert_eq!(parse_cell_number("1 2"), 0);
    assert_eq!(parse_cell_number("5x"), 0);
    assert_eq!(parse_cell_number("x5"), 0);
    assert_eq!(parse_cell_number("4.0"), 0);
    assert_eq!(parse_cell_number("1_000"), 0);
    assert_eq!(parse_cell_number("٣"), 0);
    assert_eq!(parse_cell_number("５"), 0);
}

#[test]
fn numbers_too_large_read_as_zero() {
    let largest = usize::MAX.to_string();
    assert_eq!(parse_cell_number(&largest), usize::MAX);
    assert_eq!(parse_cell_number(&format!("{}0", largest)), 0);
    assert_eq!(parse_cell_number(&format!("1{}", largest)), 0);
    assert_eq!(parse_cell_number("340282366920938463463374607431768211456"), 0);
    assert_eq!(parse_cell_number("99999999999999999999999999x"), 0);
    let one_more = (usize::MAX as u128 + 1).to_string();
    assert_eq!(parse_cell_number(&one_more), 0);
    assert_eq!(parse_cell_number(&format!("000{}", largest)), usize::MAX);
}

#[test]
fn reading_agrees_with_the_standard_library() {
    let pieces =
        ["", " ", "\n", "\t", "+", "-", "0", "1", "9", "12", "a", "\u{85}", "\u{2003}", "é"];
    for a in pieces.iter() {
        for b in pieces.iter() {
            for c in pieces.iter() {
                for d in pieces.iter() {
                    let line = format!("{}{}{}{}", a, b, c, d);
                    assert_eq!(
                        parse_cell_number(&line),
                        as_the_standard_library_reads(&line),
                        "{:?}",
                        line
                    );
                }
            }
        }
    }
}

#[test]
fn white_space_is_what_the_standard_library_trims() {
    for code in 0..=0x10ffffu32 {
        if let Some(c) = char::from_u32(code) {
            assert_eq!(is_whitespace(c), c.is_whitespace(), "{:?}", c);
        }
    }
}

#[test]
fn cells_show_their_symbol() {
    assert_eq!(EMPTY_CELL_ATTRIBUTE, ' ');
    assert_eq!(COL_PER_ROW, 3);
    assert_eq!(cell_text(CellState::Empty), " ");
    assert_eq!(cell_text(CellState::MarkedBy(Player::X)), "X");
    assert_eq!(cell_text(CellState::MarkedBy(Player::O)), "O");
    assert_eq!(
        cell_text(CellState::MarkedBy(Player::X)),
        Player::X.get_player_string_representation().to_string()
    );
    assert_eq!(
        cell_text(CellState::MarkedBy(Player::O)),
        Player::O.get_player_string_representation().to_string()
    );
}

#[test]
fn empty_board_renders_as_three_rows_of_spaces() {
    let board = Board::new(9);
    assert_eq!(render_board(&board), "| | | |\n| | | |\n| | | |\n");
}

#[test]
fn marks_render_in_row_major_order() {
    let mut session = Session::new();
    for cell in [1usize, 5, 2, 4, 3] {
        assert!(session.apply_move(cell).is_ok());
    }
    assert_eq!(render_board(session.board()), "|X|X|X|\n|O|O| |\n| | | |\n");
    let mut board = Board::new(9);
    assert!(board.place(3, Player::O).is_ok());
    assert!(board.place(7, Player::X).is_ok());
    assert!(board.place(8, Player::O).is_ok());
    assert_eq!(render_board(&board), "| | |O|\n| | | |\n|X|O| |\n");
}

#[test]
fn only_full_rows_are_rendered() {
    assert_eq!(render_board(&Board::new(0)), "");
    assert_eq!(render_board(&Board::new(2)), "");
    assert_eq!(render_board(&Board::new(3)), "| | | |\n");
    let mut board = Board::new(7);
    assert!(board.place(4, Player::X).is_ok());
    assert!(board.place(7, Player::O).is_ok());
    assert_eq!(render_board(&board), "| | | |\n|X| | |\n");
}

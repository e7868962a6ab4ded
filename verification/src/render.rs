//! The board as text.
//!
//! Each row of three cells becomes one line: a `|`, then each cell followed
//! by a `|`, then a line feed. A cell shows the symbol of the player who
//! marked it, and a space if it is empty.

use vstd::prelude::*;
use vstd::string::StringExecFns;
use crate::board::{Board, CellState};
use crate::player::Player;

verus! {

/// The number of cells in a row.
pub const COL_PER_ROW: usize = 3;

/// The character that shows an empty cell.
pub const EMPTY_CELL_ATTRIBUTE: char = ' ';

/// The character that shows a cell.
pub open spec fn cell_symbol(state: CellState) -> char {
    match state {
        CellState::Empty => EMPTY_CELL_ATTRIBUTE,
        CellState::MarkedBy(player) => player.symbol(),
    }
}

/// The line that shows the row at `row`, counted from 0.
pub open spec fn row_text(cells: Seq<CellState>, row: int) -> Seq<char> {
    seq![
        '|',
        cell_symbol(cells[row * COL_PER_ROW]),
        '|',
        cell_symbol(cells[row * COL_PER_ROW + 1]),
        '|',
        cell_symbol(cells[row * COL_PER_ROW + 2]),
        '|',
        '\n',
    ]
}

/// The lines that show the first `rows` rows, one after the other.
pub open spec fn rows_text(cells: Seq<CellState>, rows: nat) -> Seq<char>
    decreases rows,
{
    if rows == 0 {
        Seq::empty()
    } else {
        rows_text(cells, (rows - 1) as nat) + row_text(cells, rows - 1)
    }
}

/// The text that shows the board: its full rows from the top, one line
/// each.
pub open spec fn board_text(cells: Seq<CellState>) -> Seq<char> {
    rows_text(cells, cells.len() / COL_PER_ROW as nat)
}

/// The text, one character long, that shows a cell.
pub fn cell_text(state: CellState) -> (text: &'static str)
    ensures
        text@ == seq![cell_symbol(state)],
{
    proof {
        reveal_strlit(" ");
        reveal_strlit("X");
        reveal_strlit("O");
    }
    let text = match state {
        CellState::Empty => " ",
        CellState::MarkedBy(Player::X) => "X",
        CellState::MarkedBy(Player::O) => "O",
    };
    assert(text@ =~= seq![cell_symbol(state)]);
    text
}

/// Renders `board` as text, one line for each full row.
pub fn render_board(board: &Board) -> (text: String)
    ensures
        text@ == board_text(board@),
{
    let size = board.size();
    let total_rows = size / COL_PER_ROW;
    let mut text = String::new();
    let mut row: usize = 0;
    while row < total_rows
        invariant
            row <= total_rows,
            size == board@.len(),
            total_rows == size / COL_PER_ROW,
            text@ == rows_text(board@, row as nat),
        decreases total_rows - row,
    {
        let ghost line = row_text(board@, row as int);
        let ghost above = text@;
        proof {
            reveal_strlit("|");
            reveal_strlit("\n");
        }
        text.append("|");
        assert(text@ =~= above + line.take(1));
        let mut col: usize = 0;
        while col < COL_PER_ROW
            invariant
                col <= COL_PER_ROW,
                row < total_rows,
                size == board@.len(),
                total_rows == size / COL_PER_ROW,
                line == row_text(board@, row as int),
                text@ == above + line.take(1 + 2 * col),
            decreases COL_PER_ROW - col,
        {
            proof {
                reveal_strlit("|");
            }
            text.append(cell_text(board.cell(row * COL_PER_ROW + col)));
            text.append("|");
            assert(text@ =~= above + line.take(1 + 2 * (col + 1)));
            col = col + 1;
        }
        text.append("\n");
        assert(text@ =~= above + line);
        row = row + 1;
    }
    text
}

} // verus!

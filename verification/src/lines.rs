//! The winning lines of the grid, and the tests for a win and a draw.

use vstd::prelude::*;
use crate::board::{
    empty_count, get_remain_empty_cell_count, is_legal_move, with_mark, Board, CellState,
};
use crate::player::Player;

verus! {

/// The number of winning lines: three rows, three columns, two diagonals.
pub const LINE_COUNT: usize = 8;

/// The winning lines, each as three cell indices counted from 0.
pub const WINNING_POSITIONS: [[usize; 3]; 8] = [
    [0, 1, 2],
    [3, 4, 5],
    [6, 7, 8],
    [0, 3, 6],
    [1, 4, 7],
    [2, 5, 8],
    [0, 4, 8],
    [2, 4, 6],
];

/// Whether the cell at `index`, counted from 0, lies on the board and holds
/// the mark of `player`.
pub open spec fn is_marked_by(cells: Seq<CellState>, index: int, player: Player) -> bool {
    0 <= index < cells.len() && cells[index] == CellState::MarkedBy(player)
}

/// Whether `player` holds all three of the cells `a`, `b` and `c`.
pub open spec fn holds_line(cells: Seq<CellState>, a: int, b: int, c: int, player: Player) -> bool {
    is_marked_by(cells, a, player) && is_marked_by(cells, b, player) && is_marked_by(
        cells,
        c,
        player,
    )
}

/// Whether `player` has won on `cells`: one of the three rows, the three
/// columns or the two diagonals is theirs entirely.
pub open spec fn has_won(cells: Seq<CellState>, player: Player) -> bool {
    ||| holds_line(cells, 0, 1, 2, player)
    ||| holds_line(cells, 3, 4, 5, player)
    ||| holds_line(cells, 6, 7, 8, player)
    ||| holds_line(cells, 0, 3, 6, player)
    ||| holds_line(cells, 1, 4, 7, player)
    ||| holds_line(cells, 2, 5, 8, player)
    ||| holds_line(cells, 0, 4, 8, player)
    ||| holds_line(cells, 2, 4, 6, player)
}

/// Whether `cells` show a draw: no cell is empty and neither side has won.
pub open spec fn is_drawn(cells: Seq<CellState>) -> bool {
    &&& empty_count(cells) == 0
    &&& !has_won(cells, Player::X)
    &&& !has_won(cells, Player::O)
}

/// Whether `player` holds the line at place `k` of the table.
pub open spec fn holds_position(cells: Seq<CellState>, k: int, player: Player) -> bool {
    holds_line(
        cells,
        WINNING_POSITIONS[k][0] as int,
        WINNING_POSITIONS[k][1] as int,
        WINNING_POSITIONS[k][2] as int,
        player,
    )
}

/// The table holds the eight winning lines and nothing else: a player has
/// won exactly if they hold one of its entries.
pub proof fn lemma_table_is_complete(cells: Seq<CellState>, player: Player)
    ensures
        has_won(cells, player) <==> exists|k: int|
            0 <= k < LINE_COUNT && holds_position(cells, k, player),
{
    if has_won(cells, player) {
        if holds_line(cells, 0, 1, 2, player) {
            assert(holds_position(cells, 0, player));
        } else if holds_line(cells, 3, 4, 5, player) {
            assert(holds_position(cells, 1, player));
        } else if holds_line(cells, 6, 7, 8, player) {
            assert(holds_position(cells, 2, player));
        } else if holds_line(cells, 0, 3, 6, player) {
            assert(holds_position(cells, 3, player));
        } else if holds_line(cells, 1, 4, 7, player) {
            assert(holds_position(cells, 4, player));
        } else if holds_line(cells, 2, 5, 8, player) {
            assert(holds_position(cells, 5, player));
        } else if holds_line(cells, 0, 4, 8, player) {
            assert(holds_position(cells, 6, player));
        } else {
            assert(holds_position(cells, 7, player));
        }
    }
}

/// A legal move completes no line for anyone but the mover, and breaks no
/// line of anyone.
pub proof fn lemma_move_only_helps_mover(
    cells: Seq<CellState>,
    index: int,
    mover: Player,
    player: Player,
)
    requires
        is_legal_move(cells, index),
    ensures
        has_won(cells, player) ==> has_won(with_mark(cells, index, mover), player),
        player != mover ==> has_won(with_mark(cells, index, mover), player) == has_won(
            cells,
            player,
        ),
{
}

/// Whether `current_player` has completed a winning line on `board`.
pub fn check_game_ending_state(board: &Board, current_player: &Player) -> (won: bool)
    ensures
        won == has_won(board@, *current_player),
{
    let mut k: usize = 0;
    while k < LINE_COUNT
        invariant
            k <= LINE_COUNT,
            forall|j: int| 0 <= j < k ==> !holds_position(board@, j, *current_player),
        decreases LINE_COUNT - k,
    {
        let winning_position = WINNING_POSITIONS[k];
        let mut is_winning_position = true;
        let mut i: usize = 0;
        while i < 3
            invariant_except_break
                i <= 3,
                is_winning_position,
                forall|j: int|
                    0 <= j < i ==> is_marked_by(
                        board@,
                        winning_position[j] as int,
                        *current_player,
                    ),
            invariant
                k < LINE_COUNT,
                winning_position == WINNING_POSITIONS[k as int],
            ensures
                is_winning_position == holds_position(board@, k as int, *current_player),
            decreases 3 - i,
        {
            let winning_cell = winning_position[i];
            if !holds_mark(board, winning_cell, current_player) {
                is_winning_position = false;
                break;
            }
            i = i + 1;
        }
        if is_winning_position {
            proof {
                lemma_table_is_complete(board@, *current_player);
            }
            return true;
        }
        k = k + 1;
    }
    proof {
        lemma_table_is_complete(board@, *current_player);
    }
    false
}

/// Whether `board` shows a draw: no cell is empty and neither side has won.
pub fn is_draw(board: &Board) -> (draw: bool)
    ensures
        draw == is_drawn(board@),
{
    get_remain_empty_cell_count(board) == 0 && !check_game_ending_state(board, &Player::X)
        && !check_game_ending_state(board, &Player::O)
}

/// Whether the cell at `index`, counted from 0, lies on `board` and holds
/// the mark of `player`.
fn holds_mark(board: &Board, index: usize, player: &Player) -> (held: bool)
    ensures
        held == is_marked_by(board@, index as int, *player),
{
    if index >= board.size() {
        return false;
    }
    match board.cell(index) {
        CellState::Empty => false,
        CellState::MarkedBy(owner) => owner == *player,
    }
}

} // verus!

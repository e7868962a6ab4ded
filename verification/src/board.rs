//! The grid: its cells, and the placing of marks.

use vstd::prelude::*;
use crate::player::{toggle_player, Player};

verus! {

/// What one cell of the grid holds.
#[derive(Clone, Copy, Debug, PartialEq, Eq, Structural)]
pub enum CellState {
    Empty,
    MarkedBy(Player),
}

/// The error of a move that names no cell of the board, or a cell that
/// already holds a mark.
#[derive(Clone, Copy, Debug, PartialEq, Eq, Structural)]
pub struct InvalidMove;

/// Whether the move to cell number `index`, counted from 1, is legal on
/// `cells`: the number names a cell, and that cell is empty.
pub open spec fn is_legal_move(cells: Seq<CellState>, index: int) -> bool {
    1 <= index <= cells.len() && cells[index - 1] == CellState::Empty
}

/// The cells after `player` has marked cell number `index`, counted from 1.
pub open spec fn with_mark(cells: Seq<CellState>, index: int, player: Player) -> Seq<CellState> {
    cells.update(index - 1, CellState::MarkedBy(player))
}

/// The cells after `player` has tried cell number `index`: marked there if
/// the move is legal, and as they were if it is not.
pub open spec fn after_move(cells: Seq<CellState>, index: int, player: Player) -> Seq<CellState> {
    if is_legal_move(cells, index) {
        with_mark(cells, index, player)
    } else {
        cells
    }
}

/// The cells after each of `moves` has been tried in turn, a move being a
/// cell number and the player who tries it.
pub open spec fn after_moves(cells: Seq<CellState>, moves: Seq<(int, Player)>) -> Seq<CellState>
    decreases moves.len(),
{
    if moves.len() == 0 {
        cells
    } else {
        after_move(after_moves(cells, moves.drop_last()), moves.last().0, moves.last().1)
    }
}

/// How many of `moves`, tried in turn from `cells`, were legal when their
/// turn came.
pub open spec fn accepted_moves(cells: Seq<CellState>, moves: Seq<(int, Player)>) -> nat
    decreases moves.len(),
{
    if moves.len() == 0 {
        0
    } else if is_legal_move(after_moves(cells, moves.drop_last()), moves.last().0) {
        accepted_moves(cells, moves.drop_last()) + 1
    } else {
        accepted_moves(cells, moves.drop_last())
    }
}

/// How many of `cells` are empty.
pub open spec fn empty_count(cells: Seq<CellState>) -> nat
    decreases cells.len(),
{
    if cells.len() == 0 {
        0
    } else if cells.last() == CellState::Empty {
        empty_count(cells.drop_last()) + 1
    } else {
        empty_count(cells.drop_last())
    }
}

/// A grid of cells in row-major order. Moves name a cell by its number,
/// counted from 1; `cell` and the view count from 0.
#[derive(Debug)]
pub struct Board {
    cells: Vec<CellState>,
}

impl View for Board {
    type V = Seq<CellState>;

    closed spec fn view(&self) -> Seq<CellState> {
        self.cells@
    }
}

impl Board {
    /// A board of `size` cells, all of them empty.
    pub fn new(size: usize) -> (board: Board)
        ensures
            board@ == Seq::new(size as nat, |i: int| CellState::Empty),
            empty_count(board@) == size,
    {
        proof {
            lemma_fresh_board_is_empty(size as nat);
        }
        let mut cells: Vec<CellState> = Vec::new();
        let mut filled: usize = 0;
        while filled < size
            invariant
                filled <= size,
                cells@ == Seq::new(filled as nat, |i: int| CellState::Empty),
            decreases size - filled,
        {
            cells.push(CellState::Empty);
            filled = filled + 1;
        }
        Board { cells }
    }

    /// The number of cells.
    pub fn size(&self) -> (size: usize)
        ensures
            size == self@.len(),
    {
        self.cells.len()
    }

    /// What the cell at `index`, counted from 0, holds.
    pub fn cell(&self, index: usize) -> (state: CellState)
        requires
            index < self@.len(),
        ensures
            state == self@[index as int],
    {
        self.cells[index]
    }

    /// Marks cell number `index`, counted from 1, for `player`, if the move
    /// is legal. An illegal move leaves the board as it was.
    pub fn place(&mut self, index: usize, player: Player) -> (placed: Result<(), InvalidMove>)
        ensures
            placed is Ok <==> is_legal_move(old(self)@, index as int),
            final(self)@ == after_move(old(self)@, index as int, player),
            placed is Err ==> final(self)@ == old(self)@,
            placed is Ok ==> empty_count(final(self)@) == empty_count(old(self)@) - 1,
    {
        if !is_possible_move(index, self) {
            return Err(InvalidMove);
        }
        proof {
            lemma_mark_uses_one_empty_cell(self@, index as int, player);
        }
        self.cells.set(index - 1, CellState::MarkedBy(player));
        Ok(())
    }
}

/// Whether cell number `cell_number`, counted from 1, can take a mark: it
/// lies on the board and is empty.
pub fn is_possible_move(cell_number: usize, board: &Board) -> (possible: bool)
    ensures
        possible == is_legal_move(board@, cell_number as int),
{
    if cell_number < 1 || cell_number > board.cells.len() {
        return false;
    }
    match board.cells[cell_number - 1] {
        CellState::Empty => true,
        CellState::MarkedBy(_) => false,
    }
}

/// Lets `current_player` try cell number `cell_number`, counted from 1. A
/// legal move marks the cell and hands the turn to the other side; an illegal
/// one changes neither the board nor the turn.
pub fn make_move(
    current_player: &mut Player,
    cell_number: usize,
    board: &mut Board,
) -> (moved: bool)
    ensures
        moved == is_legal_move(old(board)@, cell_number as int),
        final(board)@ == after_move(old(board)@, cell_number as int, *old(current_player)),
        moved ==> *final(current_player) == old(current_player).toggle(),
        !moved ==> *final(current_player) == *old(current_player),
        !moved ==> final(board)@ == old(board)@,
        moved ==> empty_count(final(board)@) == empty_count(old(board)@) - 1,
{
    match board.place(cell_number, *current_player) {
        Ok(()) => {
            toggle_player(current_player);
            true
        },
        Err(_) => false,
    }
}

/// How many cells of `board` are still empty.
pub fn get_remain_empty_cell_count(board: &Board) -> (remain_empty_cell_count: usize)
    ensures
        remain_empty_cell_count == empty_count(board@),
{
    let mut remain_empty_cell_count: usize = 0;
    let mut seen: usize = 0;
    while seen < board.cells.len()
        invariant
            seen <= board.cells@.len(),
            remain_empty_cell_count <= seen,
            remain_empty_cell_count == empty_count(board.cells@.take(seen as int)),
        decreases board.cells@.len() - seen,
    {
        proof {
            assert(board.cells@.take(seen + 1).drop_last() =~= board.cells@.take(seen as int));
        }
        match board.cells[seen] {
            CellState::Empty => {
                remain_empty_cell_count = remain_empty_cell_count + 1;
            },
            CellState::MarkedBy(_) => {},
        }
        seen = seen + 1;
    }
    proof {
        assert(board.cells@.take(seen as int) =~= board.cells@);
    }
    remain_empty_cell_count
}

/// A move that is rejected leaves every cell as it was, and is rejected
/// again however often it is tried.
pub proof fn lemma_rejection_is_idempotent(cells: Seq<CellState>, index: int, player: Player)
    requires
        !is_legal_move(cells, index),
    ensures
        after_move(cells, index, player) == cells,
        !is_legal_move(after_move(cells, index, player), index),
        after_move(after_move(cells, index, player), index, player) == cells,
{
}

/// A move, legal or not, keeps the number of cells and every mark that is
/// on the board: a cell that holds a mark holds it for good.
pub proof fn lemma_marks_are_permanent(cells: Seq<CellState>, index: int, player: Player)
    ensures
        after_move(cells, index, player).len() == cells.len(),
        forall|i: int|
            0 <= i < cells.len() && cells[i] != CellState::Empty ==> #[trigger] after_move(
                cells,
                index,
                player,
            )[i] == cells[i],
{
}

/// A cell that a legal move has marked cannot be marked again.
pub proof fn lemma_marked_cell_is_closed(cells: Seq<CellState>, index: int, player: Player)
    requires
        is_legal_move(cells, index),
    ensures
        after_move(cells, index, player)[index - 1] == CellState::MarkedBy(player),
        !is_legal_move(after_move(cells, index, player), index),
{
}

/// Over any sequence of moves, each move that is accepted uses up exactly
/// one empty cell and each move that is rejected uses up none, so the number
/// of empty cells never grows.
pub proof fn lemma_each_accepted_move_uses_one_empty_cell(
    cells: Seq<CellState>,
    moves: Seq<(int, Player)>,
)
    ensures
        empty_count(after_moves(cells, moves)) + accepted_moves(cells, moves) == empty_count(cells),
        empty_count(after_moves(cells, moves)) <= empty_count(cells),
    decreases moves.len(),
{
    if moves.len() > 0 {
        let earlier = moves.drop_last();
        lemma_each_accepted_move_uses_one_empty_cell(cells, earlier);
        let reached = after_moves(cells, earlier);
        if is_legal_move(reached, moves.last().0) {
            lemma_mark_uses_one_empty_cell(reached, moves.last().0, moves.last().1);
        }
    }
}

/// On a board that has taken no move every cell counts as empty.
pub proof fn lemma_fresh_board_is_empty(size: nat)
    ensures
        empty_count(Seq::new(size, |i: int| CellState::Empty)) == size,
    decreases size,
{
    if size > 0 {
        lemma_fresh_board_is_empty((size - 1) as nat);
        assert(Seq::new(size, |i: int| CellState::Empty).drop_last() =~= Seq::new(
            (size - 1) as nat,
            |i: int| CellState::Empty,
        ));
    }
}

/// A legal move uses up exactly one empty cell.
pub proof fn lemma_mark_uses_one_empty_cell(cells: Seq<CellState>, index: int, player: Player)
    requires
        is_legal_move(cells, index),
    ensures
        empty_count(with_mark(cells, index, player)) == empty_count(cells) - 1,
    decreases cells.len(),
{
    let marked = with_mark(cells, index, player);
    if index == cells.len() {
        assert(marked.drop_last() =~= cells.drop_last());
    } else {
        lemma_mark_uses_one_empty_cell(cells.drop_last(), index, player);
        assert(marked.drop_last() =~= with_mark(cells.drop_last(), index, player));
    }
}

} // verus!

//! One game from the empty board to a win or a draw.

use vstd::prelude::*;
use crate::board::{
    empty_count, get_remain_empty_cell_count, is_legal_move, lemma_fresh_board_is_empty,
    lemma_mark_uses_one_empty_cell, make_move, with_mark, Board, CellState, InvalidMove,
};
use crate::lines::{check_game_ending_state, has_won, is_drawn, lemma_move_only_helps_mover};
use crate::player::Player;

verus! {

/// The number of cells of the grid.
pub const BOARD_CELL_COUNT: usize = 9;

/// How a game has ended.
#[derive(Clone, Copy, Debug, PartialEq, Eq, Structural)]
pub enum Outcome {
    Win(Player),
    Draw,
}

/// Where a game stands.
#[derive(Clone, Copy, Debug, PartialEq, Eq, Structural)]
pub enum GameState {
    InProgress,
    Ended(Outcome),
}

/// A session as the contracts see it.
pub struct SessionView {
    pub cells: Seq<CellState>,
    pub current_player: Player,
    pub state: GameState,
}

/// Where the game stands once `mover` has marked a cell and left `cells`:
/// won if `mover` holds a line, drawn if no cell is empty, else in progress.
pub open spec fn state_after(cells: Seq<CellState>, mover: Player) -> GameState {
    if has_won(cells, mover) {
        GameState::Ended(Outcome::Win(mover))
    } else if empty_count(cells) == 0 {
        GameState::Ended(Outcome::Draw)
    } else {
        GameState::InProgress
    }
}

/// How many of `cells` hold a mark.
pub open spec fn marks_placed(cells: Seq<CellState>) -> int {
    cells.len() - empty_count(cells)
}

impl SessionView {
    /// The start of a game: nine empty cells, `X` to move.
    pub open spec fn initial() -> SessionView {
        SessionView {
            cells: Seq::new(BOARD_CELL_COUNT as nat, |i: int| CellState::Empty),
            current_player: Player::X,
            state: GameState::InProgress,
        }
    }

    /// Whether the move to cell number `index`, counted from 1, is taken:
    /// the game is in progress and the move is legal on the board.
    pub open spec fn accepts(self, index: int) -> bool {
        self.state == GameState::InProgress && is_legal_move(self.cells, index)
    }

    /// The session after the player to move has tried cell number `index`.
    /// A move that is taken marks the cell, hands the turn over and settles
    /// the state; one that is not changes nothing.
    pub open spec fn step(self, index: int) -> SessionView {
        if self.accepts(index) {
            let cells = with_mark(self.cells, index, self.current_player);
            SessionView {
                cells,
                current_player: self.current_player.toggle(),
                state: state_after(cells, self.current_player),
            }
        } else {
            self
        }
    }

    /// The session after each of `indices` has been tried in turn.
    pub open spec fn play(self, indices: Seq<int>) -> SessionView
        decreases indices.len(),
    {
        if indices.len() == 0 {
            self
        } else {
            self.play(indices.drop_last()).step(indices.last())
        }
    }

    /// What holds of every session that play can reach: the grid has nine
    /// cells, `X` is to move exactly when an even number of marks has been
    /// placed, and the state says what the board shows.
    pub open spec fn well_formed(self) -> bool {
        &&& self.cells.len() == BOARD_CELL_COUNT
        &&& (self.current_player == Player::X) == (marks_placed(self.cells) % 2 == 0)
        &&& match self.state {
            GameState::InProgress => {
                &&& !has_won(self.cells, Player::X)
                &&& !has_won(self.cells, Player::O)
                &&& empty_count(self.cells) > 0
            },
            GameState::Ended(Outcome::Win(winner)) => {
                &&& has_won(self.cells, winner)
                &&& !has_won(self.cells, winner.toggle())
                &&& self.current_player == winner.toggle()
            },
            GameState::Ended(Outcome::Draw) => {
                &&& !has_won(self.cells, Player::X)
                &&& !has_won(self.cells, Player::O)
                &&& empty_count(self.cells) == 0
            },
        }
    }
}

/// A new game is well formed.
pub proof fn lemma_initial_is_well_formed()
    ensures
        SessionView::initial().well_formed(),
{
    lemma_fresh_board_is_empty(BOARD_CELL_COUNT as nat);
}

/// Whatever move is tried, a well-formed session stays well formed.
pub proof fn lemma_step_keeps_well_formed(session: SessionView, index: int)
    requires
        session.well_formed(),
    ensures
        session.step(index).well_formed(),
{
    if session.accepts(index) {
        let mover = session.current_player;
        lemma_mark_uses_one_empty_cell(session.cells, index, mover);
        lemma_move_only_helps_mover(session.cells, index, mover, mover.toggle());
    }
}

/// Whatever moves are tried and in whatever order, play leads from a
/// well-formed session, and so from a new game, to well-formed sessions
/// only, and never to one with more empty cells.
pub proof fn lemma_play_keeps_well_formed(session: SessionView, indices: Seq<int>)
    requires
        session.well_formed(),
    ensures
        session.play(indices).well_formed(),
        empty_count(session.play(indices).cells) <= empty_count(session.cells),
    decreases indices.len(),
{
    if indices.len() > 0 {
        let reached = session.play(indices.drop_last());
        lemma_play_keeps_well_formed(session, indices.drop_last());
        lemma_step_keeps_well_formed(reached, indices.last());
        if reached.accepts(indices.last()) {
            lemma_mark_uses_one_empty_cell(reached.cells, indices.last(), reached.current_player);
        }
    }
}

/// In a well-formed session the state says what the board shows: the game
/// is won by a player exactly if that player holds a line, and drawn exactly
/// if the board shows a draw.
pub proof fn lemma_state_reads_the_board(session: SessionView, player: Player)
    requires
        session.well_formed(),
    ensures
        session.state == GameState::Ended(Outcome::Win(player)) <==> has_won(session.cells, player),
        session.state == GameState::Ended(Outcome::Draw) <==> is_drawn(session.cells),
{
}

/// The turn passes to the other side after a move that is taken, and stays
/// where it is after one that is rejected.
pub proof fn lemma_turns_alternate(session: SessionView, index: int)
    ensures
        session.accepts(index) ==> session.step(index).current_player
            == session.current_player.toggle(),
        !session.accepts(index) ==> session.step(index).current_player == session.current_player,
        session.current_player.toggle() != session.current_player,
        session.current_player.toggle().toggle() == session.current_player,
{
}

/// A move that is rejected changes nothing, and is rejected again however
/// often it is tried.
pub proof fn lemma_rejection_leaves_no_trace(session: SessionView, index: int)
    requires
        !session.accepts(index),
    ensures
        session.step(index) == session,
        !session.step(index).accepts(index),
        session.step(index).step(index) == session,
{
}

/// A game that has ended takes no further move, whatever is tried and
/// however often.
pub proof fn lemma_ended_is_terminal(session: SessionView, indices: Seq<int>)
    requires
        session.state != GameState::InProgress,
    ensures
        forall|index: int| !session.accepts(index) && #[trigger] session.step(index) == session,
        session.play(indices) == session,
    decreases indices.len(),
{
    if indices.len() > 0 {
        lemma_ended_is_terminal(session, indices.drop_last());
    }
}

/// A game ends only through a move that is taken: by a win of the mover, or
/// else by a draw when that move has filled the last empty cell.
pub proof fn lemma_only_an_accepted_move_ends_the_game(session: SessionView, index: int)
    requires
        session.state == GameState::InProgress,
        session.step(index).state != GameState::InProgress,
    ensures
        session.accepts(index),
        session.step(index).state == state_after(
            with_mark(session.cells, index, session.current_player),
            session.current_player,
        ),
        session.step(index).state == GameState::Ended(Outcome::Draw) ==> empty_count(
            session.step(index).cells,
        ) == 0,
{
}

/// A game: the board, the player to move, and whether it has ended.
#[derive(Debug)]
pub struct Session {
    board: Board,
    current_player: Player,
    state: GameState,
}

impl View for Session {
    type V = SessionView;

    closed spec fn view(&self) -> SessionView {
        SessionView { cells: self.board@, current_player: self.current_player, state: self.state }
    }
}

impl Session {
    /// A new game.
    pub fn new() -> (session: Session)
        ensures
            session@ == SessionView::initial(),
            session@.well_formed(),
    {
        proof {
            lemma_initial_is_well_formed();
        }
        Session {
            board: Board::new(BOARD_CELL_COUNT),
            current_player: Player::X,
            state: GameState::InProgress,
        }
    }

    /// The board as it stands.
    pub fn board(&self) -> (board: &Board)
        ensures
            board@ == self@.cells,
    {
        &self.board
    }

    /// The player to move.
    pub fn current_player(&self) -> (player: Player)
        ensures
            player == self@.current_player,
    {
        self.current_player
    }

    /// Where the game stands.
    pub fn state(&self) -> (state: GameState)
        ensures
            state == self@.state,
    {
        self.state
    }

    /// Lets the player to move try cell number `index`, counted from 1.
    /// While the game is in progress a legal move is taken: the cell is
    /// marked, the turn passes, and the game ends if the mover has completed
    /// a line or no cell is left. Any other move is rejected and changes
    /// nothing.
    pub fn apply_move(&mut self, index: usize) -> (applied: Result<GameState, InvalidMove>)
        ensures
            final(self)@ == old(self)@.step(index as int),
            applied is Ok <==> old(self)@.accepts(index as int),
            applied is Ok ==> applied == Ok::<GameState, InvalidMove>(final(self)@.state),
            applied is Ok ==> final(self)@.current_player == old(self)@.current_player.toggle(),
            applied is Err ==> final(self)@ == old(self)@,
            old(self)@.well_formed() ==> final(self)@.well_formed(),
    {
        proof {
            if self@.well_formed() {
                lemma_step_keeps_well_formed(self@, index as int);
            }
        }
        match self.state {
            GameState::Ended(_) => {
                return Err(InvalidMove);
            },
            GameState::InProgress => {},
        }
        let last_player = self.current_player;
        if !make_move(&mut self.current_player, index, &mut self.board) {
            return Err(InvalidMove);
        }
        if check_game_ending_state(&self.board, &last_player) {
            self.state = GameState::Ended(Outcome::Win(last_player));
        } else if get_remain_empty_cell_count(&self.board) == 0 {
            self.state = GameState::Ended(Outcome::Draw);
        }
        Ok(self.state)
    }
}

} // verus!

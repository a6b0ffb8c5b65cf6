//! Hints for the human player: Blue's best move and the reason for it.

use vstd::prelude::*;

use crate::board::{
    creates_fork, creates_meta_threat, makes_fork, makes_threat, would_win, would_win_board,
    would_win_meta, Cell,
};
use crate::moves::{legal_moves, Move};
use crate::search::{best_move_for_blue, is_first_least};
use crate::state::{GameState, GameStatus, GameView};

verus! {

/// A hint: the square to play and why.
#[derive(Debug)]
pub struct HintResponse {
    pub board_idx: usize,
    pub cell_idx: usize,
    pub explanation: String,
}

/// The explanation of a hint asked for when it is not Blue's turn.
pub open spec fn not_blues_turn() -> Seq<char> {
    "Not blue's turn"@
}

/// The explanation of a hint asked for when no move is legal.
pub open spec fn no_legal_moves() -> Seq<char> {
    "No legal moves"@
}

impl GameView {
    /// Blue wins the undecided sub-board of move `m` by it.
    pub open spec fn blue_wins_board(self, m: Move) -> bool {
        self.board_winners[m.0 as int] == Cell::Empty && would_win(
            self.cells[m.0 as int],
            m.1 as int,
            Cell::Blue,
        )
    }

    /// The reason given for Blue's move `m`: the first that applies, of
    /// winning the game, winning a sub-board with a meta-board threat,
    /// winning a sub-board, blocking Red's sub-board win, making a
    /// meta-board threat, making a fork, sending Red to a full sub-board;
    /// else that the move is the best positional one.
    pub open spec fn explanation(self, m: Move) -> Seq<char> {
        let b = m.0 as int;
        let c = m.1 as int;
        if self.blue_wins_board(m) && would_win(self.board_winners, b, Cell::Blue) {
            "Wins the game!"@
        } else if self.blue_wins_board(m) && makes_threat(self.board_winners, b, Cell::Blue) {
            "Wins board and threatens the game"@
        } else if self.blue_wins_board(m) {
            "Wins a board"@
        } else if self.board_winners[b] == Cell::Empty && would_win(self.cells[b], c, Cell::Red) {
            "Blocks red from winning a board"@
        } else if makes_threat(self.board_winners, b, Cell::Blue) {
            "Threatens to win the game"@
        } else if self.board_winners[b] == Cell::Empty && makes_fork(self.cells[b], c, Cell::Blue) {
            "Creates two ways to win a board"@
        } else if self.board_full[c] {
            "Gives you a free choice next"@
        } else {
            "Best positional move"@
        }
    }

    /// What a hint holds for this state.
    pub open spec fn hint_is(self, board_idx: usize, cell_idx: usize, explanation: Seq<char>) -> bool {
        if self.status != GameStatus::BlueToMove {
            board_idx == 0 && cell_idx == 0 && explanation == not_blues_turn()
        } else if self.legal_moves().len() == 0 {
            board_idx == 0 && cell_idx == 0 && explanation == no_legal_moves()
        } else {
            exists|i: int|
                #![trigger self.legal_moves()[i]]
                is_first_least(self, self.legal_moves(), i) && self.legal_moves()[i] == (
                    board_idx,
                    cell_idx,
                ) && explanation == self.explanation((board_idx, cell_idx))
        }
    }
}

/// Says in words why Blue's move to square `cell_idx` of sub-board
/// `board_idx` is a good one.
pub fn generate_explanation(state: &GameState, board_idx: usize, cell_idx: usize) -> (text: String)
    requires
        board_idx < 9,
        cell_idx < 9,
    ensures
        text@ == state@.explanation((board_idx, cell_idx)),
{
    let wins_board = state.board_winners[board_idx] == Cell::Empty && would_win_board(
        &state.cells[board_idx],
        cell_idx,
        Cell::Blue,
    );
    let wins_meta = wins_board && would_win_meta(&state.board_winners, board_idx, Cell::Blue);

    if wins_board && wins_meta {
        return "Wins the game!".to_owned();
    }
    if wins_board && creates_meta_threat(&state.board_winners, board_idx, Cell::Blue) {
        return "Wins board and threatens the game".to_owned();
    }
    if wins_board {
        return "Wins a board".to_owned();
    }
    if state.board_winners[board_idx] == Cell::Empty && would_win_board(
        &state.cells[board_idx],
        cell_idx,
        Cell::Red,
    ) {
        return "Blocks red from winning a board".to_owned();
    }
    if creates_meta_threat(&state.board_winners, board_idx, Cell::Blue) {
        return "Threatens to win the game".to_owned();
    }
    if state.board_winners[board_idx] == Cell::Empty && creates_fork(
        &state.cells[board_idx],
        cell_idx,
        Cell::Blue,
    ) {
        return "Creates two ways to win a board".to_owned();
    }
    if state.board_full[cell_idx] {
        return "Gives you a free choice next".to_owned();
    }
    "Best positional move".to_owned()
}

/// The hint for Blue: the first legal move that leaves the least score
/// after Red's best reply, with its explanation. When it is not Blue's
/// turn, or no move is legal, the hint names square (0, 0) and says so.
pub fn get_hint(state: &GameState) -> (hint: HintResponse)
    requires
        state@.required_in_range(),
    ensures
        state@.hint_is(hint.board_idx, hint.cell_idx, hint.explanation@),
{
    if state.status != GameStatus::BlueToMove {
        return HintResponse {
            board_idx: 0,
            cell_idx: 0,
            explanation: "Not blue's turn".to_owned(),
        };
    }
    let moves = legal_moves(state);
    if moves.len() == 0 {
        return HintResponse { board_idx: 0, cell_idx: 0, explanation: "No legal moves".to_owned() };
    }
    let best = best_move_for_blue(state, &moves);
    let explanation = generate_explanation(state, best.0, best.1);
    HintResponse { board_idx: best.0, cell_idx: best.1, explanation }
}

} // verus!

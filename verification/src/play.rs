//! The operations offered to a caller: start a game, play a move.

use vstd::prelude::*;

use crate::board::Cell;
use crate::moves::{lemma_game_in_play_has_moves, lemma_legal_moves, Move};
use crate::select::computer_move;
use crate::state::{
    apply_move, is_terminal, lemma_move_preserves_wf, GameState, GameStatus, GameView,
};

verus! {

/// The answer to a move: the state to go on with, and the reason when the
/// move was turned down.
#[derive(Debug)]
pub struct MoveResponse {
    pub ok: bool,
    pub state: GameState,
    pub error: Option<String>,
}

/// Why a move is turned down, if it is: the first that applies, of an
/// index that names no square, a game that does not wait for Blue while
/// the caller is the human player, and a square that is not legal.
pub open spec fn rejection(s: GameView, board_idx: usize, cell_idx: usize, player_is_blue: bool) -> Option<
    Seq<char>,
> {
    if board_idx >= 9 || cell_idx >= 9 {
        Some("Invalid indices"@)
    } else if player_is_blue && s.status != GameStatus::BlueToMove {
        Some("Not blue's turn"@)
    } else if !s.is_legal((board_idx, cell_idx)) {
        Some("Illegal move"@)
    } else {
        None
    }
}

/// `after` is what an accepted move leaves: Blue's mark placed, and, when
/// that leaves Red to move and Red has a legal move, one move of Red's
/// selection pool at `level` placed after it. A game that Blue's move ends
/// is left as Blue's move leaves it.
pub open spec fn accepted(before: GameView, m: Move, level: u32, after: GameView) -> bool {
    let blue_done = before.after_move(m.0, m.1, Cell::Blue);
    if blue_done.status != GameStatus::RedToMove || blue_done.legal_moves().len() == 0 {
        after == blue_done
    } else {
        exists|reply: Move|
            #![trigger blue_done.after_move(reply.0, reply.1, Cell::Red)]
            blue_done.selection_pool(level, blue_done.legal_moves()).contains(reply)
                && blue_done.is_legal(reply) && after == blue_done.after_move(
                reply.0,
                reply.1,
                Cell::Red,
            )
    }
}

/// A move that is turned down is turned down before anything is placed;
/// a move is accepted exactly when its indices name a square, the turn is
/// right and the square is legal.
pub proof fn lemma_rejection_reasons(s: GameView, board_idx: usize, cell_idx: usize, player_is_blue: bool)
    ensures
        rejection(s, board_idx, cell_idx, player_is_blue) is None <==> board_idx < 9 && cell_idx < 9
            && (player_is_blue ==> s.status == GameStatus::BlueToMove) && s.is_legal(
            (board_idx, cell_idx),
        ),
{
}

/// Red does not move in a game that Blue's move has ended.
pub proof fn lemma_no_reply_after_the_end(before: GameView, m: Move, level: u32, after: GameView)
    requires
        accepted(before, m, level, after),
        is_terminal(before.after_move(m.0, m.1, Cell::Blue).status),
    ensures
        after == before.after_move(m.0, m.1, Cell::Blue),
{
}

/// An accepted move leaves a game that satisfies the invariant, if it was
/// made in one that does.
pub proof fn lemma_accepted_keeps_wf(before: GameView, m: Move, level: u32, after: GameView)
    requires
        before.wf(),
        before.is_legal(m),
        accepted(before, m, level, after),
    ensures
        after.wf(),
{
    let blue_done = before.after_move(m.0, m.1, Cell::Blue);
    lemma_move_preserves_wf(before, m.0, m.1, Cell::Blue);
    if !(blue_done.status != GameStatus::RedToMove || blue_done.legal_moves().len() == 0) {
        let reply = choose|reply: Move|
            #![trigger blue_done.after_move(reply.0, reply.1, Cell::Red)]
            blue_done.selection_pool(level, blue_done.legal_moves()).contains(reply)
                && blue_done.is_legal(reply) && after == blue_done.after_move(
                reply.0,
                reply.1,
                Cell::Red,
            );
        lemma_move_preserves_wf(blue_done, reply.0, reply.1, Cell::Red);
    }
}

/// In a game that satisfies the invariant, Red answers every accepted move
/// that does not end the game, and the answer hands the turn back to Blue
/// or ends the game.
pub proof fn lemma_red_always_replies(before: GameView, m: Move, level: u32, after: GameView)
    requires
        before.wf(),
        before.is_legal(m),
        accepted(before, m, level, after),
    ensures
        is_terminal(before.after_move(m.0, m.1, Cell::Blue).status) ==> after == before.after_move(
            m.0,
            m.1,
            Cell::Blue,
        ),
        !is_terminal(before.after_move(m.0, m.1, Cell::Blue).status) ==> exists|reply: Move|
            #![trigger before.after_move(m.0, m.1, Cell::Blue).after_move(reply.0, reply.1, Cell::Red)]
            before.after_move(m.0, m.1, Cell::Blue).is_legal(reply) && after == before.after_move(
                m.0,
                m.1,
                Cell::Blue,
            ).after_move(reply.0, reply.1, Cell::Red),
        after.status == GameStatus::BlueToMove || is_terminal(after.status),
{
    let blue_done = before.after_move(m.0, m.1, Cell::Blue);
    lemma_move_preserves_wf(before, m.0, m.1, Cell::Blue);
    if !is_terminal(blue_done.status) {
        lemma_game_in_play_has_moves(blue_done);
    }
}

/// A new game: every square empty, Blue to move, free choice.
pub fn new_game() -> (game: GameState)
    ensures
        game@ == GameView::initial(),
        game@.wf(),
{
    GameState::new()
}

/// Whether the square exists, is empty and lies in a sub-board that may be
/// played in: whether it is one of the legal moves.
pub fn is_legal_move(state: &GameState, m: Move) -> (legal: bool)
    ensures
        legal == state@.is_legal(m),
        legal == state@.legal_moves().contains(m),
{
    proof {
        lemma_legal_moves(state@);
    }
    if m.0 >= 9 || m.1 >= 9 {
        return false;
    }
    let open = match state.required_board {
        Some(r) => m.0 == r,
        None => !state.board_full[m.0],
    };
    open && state.cells[m.0][m.1] == Cell::Empty
}

/// Plays Blue's move and Red's answer.
///
/// The move is turned down, and the state handed back as it came, when an
/// index names no square, when `player_is_blue` says that the caller is the
/// human player and the game does not wait for Blue, or when the square is
/// not a legal move. Otherwise Blue's mark is placed, and if that leaves
/// Red to move, Red's move at `level` is chosen and placed.
pub fn make_move(
    state: GameState,
    board_idx: usize,
    cell_idx: usize,
    player_is_blue: bool,
    level: u32,
    rng: &mut rand::rngs::StdRng,
) -> (response: MoveResponse)
    ensures
        match rejection(state@, board_idx, cell_idx, player_is_blue) {
            Some(reason) => !response.ok && response.state == state && response.error is Some
                && response.error->0@ == reason,
            None => response.ok && response.error is None && accepted(
                state@,
                (board_idx, cell_idx),
                level,
                response.state@,
            ),
        },
        state@.wf() ==> response.state@.wf(),
{
    if board_idx >= 9 || cell_idx >= 9 {
        return MoveResponse { ok: false, state, error: Some("Invalid indices".to_owned()) };
    }
    if player_is_blue && state.status != GameStatus::BlueToMove {
        return MoveResponse { ok: false, state, error: Some("Not blue's turn".to_owned()) };
    }
    if !is_legal_move(&state, (board_idx, cell_idx)) {
        return MoveResponse { ok: false, state, error: Some("Illegal move".to_owned()) };
    }
    let mut state = state;
    apply_move(&mut state, board_idx, cell_idx, Cell::Blue);
    if state.status == GameStatus::RedToMove {
        computer_move(&mut state, level, rng);
    }
    MoveResponse { ok: true, state, error: None }
}

} // verus!

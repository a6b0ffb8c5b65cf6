//! Rules engine and computer opponent for Ultimate Tic-Tac-Toe.
//!
//! The game is a 3x3 grid of 3x3 sub-boards; the square a player takes
//! names the sub-board in which the opponent must answer. The human plays
//! Blue, the computer Red.
//!
//! * [`board`]: one 3x3 board, the win detector and the tactical predicates.
//! * [`state`]: the game state, its model and invariant, the transition.
//! * [`moves`]: the legal-move generator.
//! * [`eval`]: the positional evaluator.
//! * [`search`]: one-ply and two-ply lookahead.
//! * [`levels`], [`select`], [`laws`]: the graded move selection.
//! * [`hint`]: Blue's best move and the reason for it.
//! * [`play`]: the operations a caller starts from.
//! * [`wire`]: the tokens of cells and statuses.
//! * [`rng`], [`clock`]: the random generator and the wall clock.
//!
//! The engine keeps nothing between calls: every operation takes the state
//! and hands the next one back.

pub mod board;
pub mod clock;
pub mod eval;
pub mod hint;
pub mod laws;
pub mod levels;
pub mod moves;
pub mod play;
pub mod rng;
pub mod search;
pub mod select;
pub mod seq_facts;
pub mod state;
pub mod wire;

pub use board::{
    check_winner, creates_fork, creates_meta_threat, is_board_full, would_win_board,
    would_win_meta, Cell, WIN_LINES,
};
pub use clock::{now_secs, secs_elapsed};
pub use eval::evaluate;
pub use hint::{generate_explanation, get_hint, HintResponse};
pub use moves::{legal_moves, Move};
pub use play::{is_legal_move, make_move, new_game, MoveResponse};
pub use search::{
    best_move_for_blue, best_move_one_ply, best_move_two_ply, best_moves_for_red, pick_random,
    Depth,
};
pub use select::{
    computer_move, heuristic_pool, narrow, passes_filter, pick_move, prefer_center,
    prefer_corners, selection_pool, MoveFilter, Spot,
};
pub use state::{apply_move, is_meta_dead, GameState, GameStatus, GameView};

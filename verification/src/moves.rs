//! The legal-move generator.

use vstd::prelude::*;

use crate::board::{is_full, Cell};
use crate::seq_facts::{
    lemma_filter_end, lemma_filter_members, lemma_filter_skip, lemma_filter_start,
    lemma_filter_step,
};
use crate::state::{all_settled, is_terminal, outcome, settled, GameState, GameView};

verus! {

/// A square of the game, as (sub-board, square).
pub type Move = (usize, usize);

/// Every move of the list names one of the 81 squares.
pub open spec fn in_range(moves: Seq<Move>) -> bool {
    forall|i: int| 0 <= i < moves.len() ==> (#[trigger] moves[i]).0 < 9 && moves[i].1 < 9
}

/// The `i`-th of the 81 squares, as (sub-board, square): sub-boards in
/// ascending order, and within each its squares in ascending order.
pub open spec fn square(i: int) -> (usize, usize) {
    ((i / 9) as usize, (i % 9) as usize)
}

/// All 81 squares in generator order.
pub open spec fn all_squares() -> Seq<(usize, usize)> {
    Seq::new(81, |i: int| square(i))
}

/// The place of a square in generator order.
pub open spec fn rank(m: (usize, usize)) -> int {
    9 * m.0 + m.1
}

impl GameView {
    /// Sub-board `b` may be played in: it is the required one, or, under
    /// free choice, it is not full.
    pub open spec fn board_open(self, b: usize) -> bool {
        match self.required_board {
            Some(r) => b == r,
            None => !self.board_full[b as int],
        }
    }

    /// The square exists, is empty and lies in a sub-board that may be
    /// played in.
    pub open spec fn is_legal(self, m: (usize, usize)) -> bool {
        m.0 < 9 && m.1 < 9 && self.board_open(m.0) && self.cells[m.0 as int][m.1 as int]
            == Cell::Empty
    }

    /// `is_legal` as a predicate on squares.
    pub open spec fn legal_pred(self) -> spec_fn((usize, usize)) -> bool {
        |m: (usize, usize)| self.is_legal(m)
    }

    /// The legal moves: the legal squares, in generator order.
    pub open spec fn legal_moves(self) -> Seq<(usize, usize)> {
        all_squares().filter(self.legal_pred())
    }
}

/// Each square appears in `all_squares` at its rank.
pub proof fn lemma_square_rank(m: (usize, usize))
    requires
        m.0 < 9,
        m.1 < 9,
    ensures
        0 <= rank(m) < 81,
        all_squares()[rank(m)] == m,
{
}

/// The first `k` squares, filtered, come in strictly ascending rank, all
/// below `k`.
proof fn lemma_prefix_ascending(s: GameView, k: int)
    requires
        0 <= k <= 81,
    ensures
        ({
            let out = all_squares().take(k).filter(s.legal_pred());
            &&& forall|i: int| 0 <= i < out.len() ==> rank(#[trigger] out[i]) < k
            &&& forall|i: int, j: int|
                0 <= i < j < out.len() ==> rank(#[trigger] out[i]) < rank(#[trigger] out[j])
        }),
    decreases k,
{
    if k == 0 {
        lemma_filter_start(all_squares(), s.legal_pred());
    } else {
        lemma_prefix_ascending(s, k - 1);
        lemma_filter_step(all_squares(), s.legal_pred(), k - 1);
    }
}

/// What the generator yields: exactly the legal squares, each once, in
/// ascending order of sub-board and then of square.
pub proof fn lemma_legal_moves(s: GameView)
    ensures
        forall|m: (usize, usize)| #[trigger] s.legal_moves().contains(m) <==> s.is_legal(m),
        forall|i: int, j: int|
            0 <= i < j < s.legal_moves().len() ==> rank(#[trigger] s.legal_moves()[i]) < rank(
                #[trigger] s.legal_moves()[j],
            ),
        s.legal_moves().len() <= 81,
        in_range(s.legal_moves()),
{
    lemma_filter_members(all_squares(), s.legal_pred());
    lemma_prefix_ascending(s, 81);
    lemma_filter_end(all_squares(), s.legal_pred());
    assert forall|m: (usize, usize)| #[trigger] s.legal_moves().contains(m) <==> s.is_legal(m) by {
        if s.is_legal(m) {
            lemma_square_rank(m);
        }
    }
}

/// With a required sub-board, every legal move lies in it.
pub proof fn lemma_required_board_binds(s: GameView, b: usize)
    requires
        s.required_board == Some(b),
    ensures
        forall|i: int| 0 <= i < s.legal_moves().len() ==> (#[trigger] s.legal_moves()[i]).0 == b,
{
    lemma_legal_moves(s);
}

/// A game in play has a legal move: while the status is a turn, some
/// square is legal.
pub proof fn lemma_game_in_play_has_moves(s: GameView)
    requires
        s.wf(),
        !is_terminal(s.status),
    ensures
        s.legal_moves().len() > 0,
{
    lemma_legal_moves(s);
    let open = choose|b: int| 0 <= b < 9 && !#[trigger] settled(s.board_winners, s.board_full, b);
    let board: int = match s.required_board {
        Some(r) => r as int,
        None => open,
    };
    let c = choose|c: int| 0 <= c < s.cells[board].len() && s.cells[board][c] == Cell::Empty;
    let m = (board as usize, c as usize);
    assert(s.legal_moves().contains(m));
}

/// Enumerates the playable squares, sub-board by sub-board and square by
/// square in ascending order.
pub fn legal_moves(state: &GameState) -> (moves: Vec<(usize, usize)>)
    requires
        state@.required_in_range(),
    ensures
        moves@ == state@.legal_moves(),
        moves@.len() <= 81,
        in_range(moves@),
        forall|m: (usize, usize)| #[trigger] moves@.contains(m) <==> state@.is_legal(m),
        forall|i: int, j: int|
            0 <= i < j < moves@.len() ==> rank(#[trigger] moves@[i]) < rank(#[trigger] moves@[j]),
        forall|i: int|
            0 <= i < moves@.len() && state.required_board is Some ==> Some(
                (#[trigger] moves@[i]).0,
            ) == state.required_board,
{
    let mut moves: Vec<(usize, usize)> = Vec::new();
    let ghost all = all_squares();
    let ghost pred = state@.legal_pred();
    proof {
        lemma_filter_start(all, pred);
    }
    let mut b: usize = 0;
    while b < 9
        invariant
            b <= 9,
            all == all_squares(),
            pred == state@.legal_pred(),
            moves@ == all.take(9 * b).filter(pred),
        decreases 9 - b,
    {
        let open = match state.required_board {
            Some(r) => b == r,
            None => !state.board_full[b],
        };
        if open {
            let mut c: usize = 0;
            while c < 9
                invariant
                    b < 9,
                    c <= 9,
                    open == state@.board_open(b),
                    open,
                    all == all_squares(),
                    pred == state@.legal_pred(),
                    moves@ == all.take(9 * b + c).filter(pred),
                decreases 9 - c,
            {
                proof {
                    lemma_filter_step(all, pred, 9 * b + c);
                }
                if state.cells[b][c] == Cell::Empty {
                    moves.push((b, c));
                }
                c += 1;
            }
        } else {
            proof {
                lemma_filter_skip(all, pred, 9 * b, 9 * b + 9);
            }
        }
        b += 1;
    }
    proof {
        lemma_filter_end(all, pred);
        lemma_legal_moves(state@);
        if let Some(r) = state.required_board {
            lemma_required_board_binds(state@, r);
        }
    }
    moves
}

} // verus!

//! Lookahead: one-ply and two-ply search for Red, and the two-ply search
//! that finds Blue's best move.

use vstd::prelude::*;

use crate::board::Cell;
use crate::eval::{evaluate, score};
use crate::moves::{in_range, legal_moves, Move};
use crate::rng::choose_move;
use crate::seq_facts::{lemma_filter_end, lemma_filter_skip, lemma_filter_start, lemma_filter_step};
use crate::state::{apply_move, GameState, GameStatus, GameView};

verus! {

/// How far Red looks ahead.
#[derive(Clone, Copy, Debug, PartialEq, Eq, Structural)]
pub enum Depth {
    /// Red's move only.
    OnePly,
    /// Red's move and Blue's best reply.
    TwoPly,
}

/// The scores of the states that the `replies` of `replier` lead to.
pub open spec fn reply_values(s: GameView, replies: Seq<Move>, replier: Cell) -> Seq<int> {
    Seq::new(replies.len(), |i: int| score(s.after_move(replies[i].0, replies[i].1, replier)))
}

/// The score after the reply that suits `replier` best: the least score for
/// Blue, the greatest for Red; the score of the state itself when there is
/// no reply.
pub open spec fn best_reply_value(s: GameView, replier: Cell) -> int {
    let values = reply_values(s, s.legal_moves(), replier);
    if values.len() == 0 {
        score(s)
    } else if replier == Cell::Blue {
        values.min()
    } else {
        values.max()
    }
}

/// What move `m` is worth to Red at the given depth: the score after it,
/// or, two plies deep and with Blue to move next, the score after Blue's
/// best reply.
pub open spec fn red_value(s: GameView, m: Move, depth: Depth) -> int {
    let next = s.after_move(m.0, m.1, Cell::Red);
    if depth == Depth::OnePly || next.status != GameStatus::BlueToMove {
        score(next)
    } else {
        best_reply_value(next, Cell::Blue)
    }
}

/// What move `m` of Blue leads to: the score after it, or, with Red to move
/// next, the score after Red's best reply.
pub open spec fn blue_value(s: GameView, m: Move) -> int {
    let next = s.after_move(m.0, m.1, Cell::Blue);
    if next.status != GameStatus::RedToMove {
        score(next)
    } else {
        best_reply_value(next, Cell::Red)
    }
}

/// The values to Red of each of `moves`.
pub open spec fn red_values(s: GameView, moves: Seq<Move>, depth: Depth) -> Seq<int> {
    Seq::new(moves.len(), |i: int| red_value(s, moves[i], depth))
}

/// The values of each of Blue's `moves`.
pub open spec fn blue_values(s: GameView, moves: Seq<Move>) -> Seq<int> {
    Seq::new(moves.len(), |i: int| blue_value(s, moves[i]))
}

/// The moves worth exactly `value` to Red.
pub open spec fn worth(s: GameView, depth: Depth, value: int) -> spec_fn(Move) -> bool {
    |m: Move| red_value(s, m, depth) == value
}

/// Red's best moves: those of greatest value, in the order given.
pub open spec fn best_red_moves(s: GameView, moves: Seq<Move>, depth: Depth) -> Seq<Move> {
    moves.filter(worth(s, depth, red_values(s, moves, depth).max()))
}

/// Index `i` holds the first of Blue's moves of least value.
pub open spec fn is_first_least(s: GameView, moves: Seq<Move>, i: int) -> bool {
    &&& 0 <= i < moves.len()
    &&& blue_value(s, moves[i]) == blue_values(s, moves).min()
    &&& forall|j: int| 0 <= j < i ==> blue_value(s, #[trigger] moves[j]) > blue_value(s, moves[i])
}

/// A value that occurs in the sequence and bounds it from above is its
/// maximum.
pub proof fn lemma_max_is(values: Seq<int>, v: int)
    requires
        values.contains(v),
        forall|i: int| 0 <= i < values.len() ==> values[i] <= v,
    ensures
        values.max() == v,
{
    values.max_ensures();
}

/// A value that occurs in the sequence and bounds it from below is its
/// minimum.
pub proof fn lemma_min_is(values: Seq<int>, v: int)
    requires
        values.contains(v),
        forall|i: int| 0 <= i < values.len() ==> values[i] >= v,
    ensures
        values.min() == v,
{
    values.min_ensures();
}

/// Red's best moves have the greatest value among `moves`, and every move
/// of that value is among them.
pub proof fn lemma_best_red_moves(s: GameView, moves: Seq<Move>, depth: Depth)
    ensures
        forall|m: Move| #[trigger]
            best_red_moves(s, moves, depth).contains(m) <==> moves.contains(m) && forall|i: int|
                0 <= i < moves.len() ==> red_value(s, #[trigger] moves[i], depth) <= red_value(
                    s,
                    m,
                    depth,
                ),
        moves.len() > 0 ==> best_red_moves(s, moves, depth).len() > 0,
{
    let values = red_values(s, moves, depth);
    let top = values.max();
    let pred = worth(s, depth, top);
    values.max_ensures();
    crate::seq_facts::lemma_filter_members(moves, pred);
    crate::seq_facts::lemma_filter_nonempty(moves, pred);
    assert forall|m: Move| #[trigger]
        best_red_moves(s, moves, depth).contains(m) <==> moves.contains(m) && forall|i: int|
            0 <= i < moves.len() ==> red_value(s, #[trigger] moves[i], depth) <= red_value(
                s,
                m,
                depth,
            ) by {
        if moves.contains(m) {
            let j = choose|j: int| 0 <= j < moves.len() && moves[j] == m;
            if pred(m) {
                assert forall|i: int| 0 <= i < moves.len() implies red_value(
                    s,
                    #[trigger] moves[i],
                    depth,
                ) <= red_value(s, m, depth) by {
                    assert(values[i] <= top);
                }
            }
            if forall|i: int|
                0 <= i < moves.len() ==> red_value(s, #[trigger] moves[i], depth) <= red_value(
                    s,
                    m,
                    depth,
                ) {
                lemma_max_is(values, values[j]);
            }
        }
    }
}

/// The score after the reply that suits `replier` best.
fn best_reply(state: &GameState, replier: Cell) -> (value: i32)
    requires
        state@.required_in_range(),
        replier != Cell::Empty,
    ensures
        value == best_reply_value(state@, replier),
        -10000 <= value <= 10000,
{
    let replies = legal_moves(state);
    if replies.len() == 0 {
        return evaluate(state);
    }
    let ghost values = reply_values(state@, replies@, replier);
    let mut after = state.clone();
    apply_move(&mut after, replies[0].0, replies[0].1, replier);
    let mut best = evaluate(&after);
    assert(best == values[0]);
    let mut i: usize = 1;
    while i < replies.len()
        invariant
            1 <= i <= replies.len(),
            in_range(replies@),
            replier != Cell::Empty,
            values == reply_values(state@, replies@, replier),
            -10000 <= best <= 10000,
            exists|j: int| 0 <= j < i && values[j] == best,
            forall|j: int|
                0 <= j < i ==> if replier == Cell::Blue {
                    #[trigger] values[j] >= best
                } else {
                    values[j] <= best
                },
        decreases replies.len() - i,
    {
        let mut after = state.clone();
        apply_move(&mut after, replies[i].0, replies[i].1, replier);
        let value = evaluate(&after);
        assert(value == values[i as int]);
        let better = match replier {
            Cell::Blue => value < best,
            _ => value > best,
        };
        if better {
            best = value;
        }
        i += 1;
    }
    proof {
        if replier == Cell::Blue {
            lemma_min_is(values, best as int);
        } else {
            lemma_max_is(values, best as int);
        }
    }
    best
}

/// What `m` is worth to Red at the given depth.
pub fn red_move_value(state: &GameState, m: Move, depth: Depth) -> (value: i32)
    requires
        m.0 < 9,
        m.1 < 9,
    ensures
        value == red_value(state@, m, depth),
        -10000 <= value <= 10000,
{
    let mut next = state.clone();
    apply_move(&mut next, m.0, m.1, Cell::Red);
    match depth {
        Depth::OnePly => evaluate(&next),
        Depth::TwoPly => {
            if next.status != GameStatus::BlueToMove {
                evaluate(&next)
            } else {
                best_reply(&next, Cell::Blue)
            }
        },
    }
}

/// What Blue's move `m` leads to when Red replies as well as it can.
pub fn blue_move_value(state: &GameState, m: Move) -> (value: i32)
    requires
        m.0 < 9,
        m.1 < 9,
    ensures
        value == blue_value(state@, m),
        -10000 <= value <= 10000,
{
    let mut next = state.clone();
    apply_move(&mut next, m.0, m.1, Cell::Blue);
    if next.status != GameStatus::RedToMove {
        evaluate(&next)
    } else {
        best_reply(&next, Cell::Red)
    }
}

/// Red's moves of greatest value at the given depth, in the order given.
pub fn best_moves_for_red(state: &GameState, moves: &[Move], depth: Depth) -> (best: Vec<Move>)
    requires
        in_range(moves@),
    ensures
        best@ == best_red_moves(state@, moves@, depth),
        in_range(best@),
        moves@.len() > 0 ==> best@.len() > 0,
        forall|i: int| 0 <= i < best@.len() ==> moves@.contains(#[trigger] best@[i]),
{
    let ghost values = red_values(state@, moves@, depth);
    let mut best_score: i32 = i32::MIN;
    let mut best: Vec<Move> = Vec::new();
    proof {
        lemma_filter_start(moves@, worth(state@, depth, best_score as int));
    }
    let mut k: usize = 0;
    while k < moves.len()
        invariant
            k <= moves.len(),
            in_range(moves@),
            values == red_values(state@, moves@, depth),
            k == 0 ==> best_score == i32::MIN,
            k > 0 ==> exists|j: int| 0 <= j < k && values[j] == best_score,
            forall|j: int| 0 <= j < k ==> #[trigger] values[j] <= best_score,
            best@ == moves@.take(k as int).filter(worth(state@, depth, best_score as int)),
        decreases moves.len() - k,
    {
        let m = moves[k];
        let value = red_move_value(state, m, depth);
        assert(value == values[k as int]);
        if value > best_score {
            proof {
                let pred = worth(state@, depth, value as int);
                assert forall|j: int| 0 <= j < k implies !pred(#[trigger] moves@[j]) by {
                    assert(values[j] <= best_score);
                }
                lemma_filter_skip(moves@, pred, 0, k as int);
                lemma_filter_start(moves@, pred);
                lemma_filter_step(moves@, pred, k as int);
            }
            best_score = value;
            best = Vec::new();
            best.push(m);
        } else {
            proof {
                lemma_filter_step(moves@, worth(state@, depth, best_score as int), k as int);
            }
            if value == best_score {
                best.push(m);
            }
        }
        k += 1;
    }
    proof {
        lemma_filter_end(moves@, worth(state@, depth, best_score as int));
        if moves@.len() > 0 {
            lemma_max_is(values, best_score as int);
        } else {
            lemma_filter_start(moves@, worth(state@, depth, values.max()));
        }
        lemma_best_red_moves(state@, moves@, depth);
        assert forall|i: int| 0 <= i < best@.len() implies moves@.contains(#[trigger] best@[i])
            && best@[i].0 < 9 && best@[i].1 < 9 by {
            assert(best@.contains(best@[i]));
        }
    }
    best
}

/// One of `moves`, drawn at random.
pub fn pick_random(moves: &[Move], rng: &mut rand::rngs::StdRng) -> (m: Move)
    requires
        moves@.len() > 0,
    ensures
        moves@.contains(m),
{
    choose_move(moves, rng).unwrap()
}

/// One of the moves that leave Red the greatest score, drawn at random.
pub fn best_move_one_ply(state: &GameState, moves: &[Move], rng: &mut rand::rngs::StdRng) -> (m:
    Move)
    requires
        moves@.len() > 0,
        in_range(moves@),
    ensures
        best_red_moves(state@, moves@, Depth::OnePly).contains(m),
        moves@.contains(m),
{
    let best = best_moves_for_red(state, moves, Depth::OnePly);
    let m = pick_random(&best, rng);
    m
}

/// One of the moves that leave Red the greatest score after Blue's best
/// reply, drawn at random.
pub fn best_move_two_ply(state: &GameState, moves: &[Move], rng: &mut rand::rngs::StdRng) -> (m:
    Move)
    requires
        moves@.len() > 0,
        in_range(moves@),
    ensures
        best_red_moves(state@, moves@, Depth::TwoPly).contains(m),
        moves@.contains(m),
{
    let best = best_moves_for_red(state, moves, Depth::TwoPly);
    let m = pick_random(&best, rng);
    m
}

/// Blue's best move: the first of `moves` that leaves the least score
/// after Red's best reply.
pub fn best_move_for_blue(state: &GameState, moves: &[Move]) -> (m: Move)
    requires
        moves@.len() > 0,
        in_range(moves@),
    ensures
        exists|i: int| is_first_least(state@, moves@, i) && moves@[i] == m,
        moves@.contains(m),
{
    let ghost values = blue_values(state@, moves@);
    let mut at: usize = 0;
    let mut best_score = blue_move_value(state, moves[0]);
    let mut k: usize = 1;
    while k < moves.len()
        invariant
            1 <= k <= moves.len(),
            0 <= at < k,
            in_range(moves@),
            values == blue_values(state@, moves@),
            values[at as int] == best_score,
            forall|j: int| 0 <= j < k ==> #[trigger] values[j] >= best_score,
            forall|j: int| 0 <= j < at ==> #[trigger] values[j] > best_score,
        decreases moves.len() - k,
    {
        let value = blue_move_value(state, moves[k]);
        if value < best_score {
            best_score = value;
            at = k;
        }
        k += 1;
    }
    proof {
        lemma_min_is(values, best_score as int);
        assert forall|j: int| 0 <= j < at implies blue_value(state@, #[trigger] moves@[j])
            > blue_value(state@, moves@[at as int]) by {
            assert(values[j] > best_score);
        }
    }
    moves[at]
}

} // verus!

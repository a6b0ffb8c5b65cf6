//! The positional evaluator: a static score of a state, positive when it
//! favours Red and negative when it favours Blue.

use vstd::prelude::*;

use crate::board::{check_winner, count_on_line, winner, Cell, WIN_LINES};
use crate::state::{GameState, GameView};

verus! {

/// The score of a decided meta-board.
pub const WIN_SCORE: i32 = 10000;

/// What one sub-board outcome is worth: 100 to its winner.
pub open spec fn won_value(outcome: Cell) -> int {
    match outcome {
        Cell::Red => 100,
        Cell::Blue => -100,
        Cell::Empty => 0,
    }
}

/// The sub-board outcomes `0..n`, summed.
pub open spec fn won_total(winners: Seq<Cell>, n: int) -> int
    decreases n,
{
    if n <= 0 {
        0
    } else {
        won_total(winners, n - 1) + won_value(winners[n - 1])
    }
}

/// What meta-line `k` is worth: to a side that is alone on it, 50 for two
/// sub-boards and 10 for one; nothing when both sides are on it.
pub open spec fn line_value(winners: Seq<Cell>, k: int) -> int {
    let red = count_on_line(winners, k, Cell::Red);
    let blue = count_on_line(winners, k, Cell::Blue);
    (if blue == 0 {
        if red == 2 {
            50int
        } else if red == 1 {
            10
        } else {
            0
        }
    } else {
        0
    }) + (if red == 0 {
        if blue == 2 {
            -50int
        } else if blue == 1 {
            -10
        } else {
            0
        }
    } else {
        0
    })
}

/// The meta-lines `0..n`, summed.
pub open spec fn line_total(winners: Seq<Cell>, n: int) -> int
    decreases n,
{
    if n <= 0 {
        0
    } else {
        line_total(winners, n - 1) + line_value(winners, n - 1)
    }
}

/// What the centre sub-board is worth to its winner.
pub open spec fn center_value(winners: Seq<Cell>) -> int {
    match winners[4] {
        Cell::Red => 5,
        Cell::Blue => -5,
        Cell::Empty => 0,
    }
}

/// What the centre square of sub-board `b` is worth: 1 to its holder while
/// the sub-board is undecided.
pub open spec fn middle_value(s: GameView, b: int) -> int {
    if s.board_winners[b] == Cell::Empty {
        match s.cells[b][4] {
            Cell::Red => 1,
            Cell::Blue => -1,
            Cell::Empty => 0,
        }
    } else {
        0
    }
}

/// The centre squares of sub-boards `0..n`, summed.
pub open spec fn middle_total(s: GameView, n: int) -> int
    decreases n,
{
    if n <= 0 {
        0
    } else {
        middle_total(s, n - 1) + middle_value(s, n - 1)
    }
}

/// The score of a state: 10000 to the winner of the meta-board; otherwise
/// the sum of the sub-board outcomes, the meta-lines, the centre sub-board
/// and the centre squares.
pub open spec fn score(s: GameView) -> int {
    if winner(s.board_winners) == Cell::Red {
        10000
    } else if winner(s.board_winners) == Cell::Blue {
        -10000
    } else {
        won_total(s.board_winners, 9) + line_total(s.board_winners, 8) + center_value(
            s.board_winners,
        ) + middle_total(s, 9)
    }
}

/// The partial sums stay within what their terms allow.
pub proof fn lemma_totals_bounded(s: GameView, n: int)
    requires
        0 <= n,
    ensures
        -100 * n <= won_total(s.board_winners, n) <= 100 * n,
        -50 * n <= line_total(s.board_winners, n) <= 50 * n,
        -n <= middle_total(s, n) <= n,
    decreases n,
{
    if n > 0 {
        lemma_totals_bounded(s, n - 1);
    }
}

/// No score exceeds that of a won game.
pub proof fn lemma_score_bounded(s: GameView)
    ensures
        -10000 <= score(s) <= 10000,
{
    lemma_totals_bounded(s, 9);
    lemma_totals_bounded(s, 8);
}

/// Scores a state for the search: positive favours Red, negative Blue.
pub fn evaluate(state: &GameState) -> (value: i32)
    ensures
        value == score(state@),
        -10000 <= value <= 10000,
{
    proof {
        lemma_score_bounded(state@);
    }
    let meta_w = check_winner(&state.board_winners);
    if meta_w == Cell::Red {
        return WIN_SCORE;
    }
    if meta_w == Cell::Blue {
        return -WIN_SCORE;
    }
    let mut value: i32 = 0;
    let mut b: usize = 0;
    while b < 9
        invariant
            b <= 9,
            value == won_total(state@.board_winners, b as int),
            -100 * b <= value <= 100 * b,
        decreases 9 - b,
    {
        match state.board_winners[b] {
            Cell::Red => value += 100,
            Cell::Blue => value -= 100,
            _ => {},
        }
        b += 1;
    }
    let mut k: usize = 0;
    while k < 8
        invariant
            k <= 8,
            value == won_total(state@.board_winners, 9) + line_total(state@.board_winners, k as int),
            -900 - 50 * k <= value <= 900 + 50 * k,
        decreases 8 - k,
    {
        let l = WIN_LINES[k];
        let mut red: usize = 0;
        let mut blue: usize = 0;
        if state.board_winners[l[0]] == Cell::Red {
            red += 1;
        } else if state.board_winners[l[0]] == Cell::Blue {
            blue += 1;
        }
        if state.board_winners[l[1]] == Cell::Red {
            red += 1;
        } else if state.board_winners[l[1]] == Cell::Blue {
            blue += 1;
        }
        if state.board_winners[l[2]] == Cell::Red {
            red += 1;
        } else if state.board_winners[l[2]] == Cell::Blue {
            blue += 1;
        }
        if blue == 0 {
            if red == 2 {
                value += 50;
            } else if red == 1 {
                value += 10;
            }
        }
        if red == 0 {
            if blue == 2 {
                value -= 50;
            } else if blue == 1 {
                value -= 10;
            }
        }
        k += 1;
    }
    if state.board_winners[4] == Cell::Red {
        value += 5;
    } else if state.board_winners[4] == Cell::Blue {
        value -= 5;
    }
    let mut b: usize = 0;
    while b < 9
        invariant
            b <= 9,
            value == won_total(state@.board_winners, 9) + line_total(state@.board_winners, 8)
                + center_value(state@.board_winners) + middle_total(state@, b as int),
            -1305 - b <= value <= 1305 + b,
        decreases 9 - b,
    {
        if state.board_winners[b] == Cell::Empty {
            if state.cells[b][4] == Cell::Red {
                value += 1;
            } else if state.cells[b][4] == Cell::Blue {
                value -= 1;
            }
        }
        b += 1;
    }
    value
}

} // verus!

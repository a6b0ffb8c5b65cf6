//! What holds of the selection pool at every level.

use vstd::prelude::*;

use crate::board::{would_win, Cell};
use crate::levels;
use crate::moves::{in_range, Move};
use crate::search::{best_red_moves, lemma_best_red_moves, red_value, Depth};
use crate::select::{
    at_spot, drawn_from, lemma_at_spot_drawn, lemma_drawn_in_range, lemma_drawn_refl,
    lemma_drawn_trans, lemma_keep_drawn, preferred, tie_break, MoveFilter, Spot,
};
use crate::state::GameView;

verus! {

/// A positional preference picks moves of the pool, and never an empty pool.
pub proof fn lemma_preferred(pool: Seq<Move>, cell: Spot, board: Spot)
    ensures
        preferred(pool, cell, board) matches Some(picked) ==> picked.len() > 0 && drawn_from(
            picked,
            pool,
        ),
{
    let by_cell = at_spot(pool, cell);
    lemma_at_spot_drawn(pool, cell);
    lemma_at_spot_drawn(pool, board);
    lemma_at_spot_drawn(by_cell, board);
    lemma_drawn_trans(at_spot(by_cell, board), by_cell, pool);
}

/// The tie-break keeps moves of the pool, and keeps at least one.
pub proof fn lemma_tie_break(level: u32, pool: Seq<Move>)
    ensures
        drawn_from(tie_break(level, pool), pool),
        pool.len() > 0 ==> tie_break(level, pool).len() > 0,
{
    lemma_preferred(pool, Spot::CenterCell, Spot::CenterBoard);
    lemma_preferred(pool, Spot::CornerCell, Spot::CornerBoard);
    lemma_drawn_refl(pool);
}

/// The destination-safety filters keep moves of the pool, and keep at
/// least one.
pub proof fn lemma_safe_destinations(s: GameView, level: u32, moves: Seq<Move>)
    ensures
        drawn_from(s.safe_destinations(level, moves), moves),
        moves.len() > 0 ==> s.safe_destinations(level, moves).len() > 0,
{
    lemma_drawn_refl(moves);
    let quiet = if level >= levels::QUIET_DEST {
        s.keep_or_all(moves, MoveFilter::QuietDest)
    } else {
        moves
    };
    lemma_keep_drawn(s, moves, MoveFilter::QuietDest);
    let no_win = if level >= levels::NO_BLUE_WIN_DEST {
        s.keep_or_all(quiet, MoveFilter::NoBlueWinDest)
    } else {
        quiet
    };
    lemma_keep_drawn(s, quiet, MoveFilter::NoBlueWinDest);
    lemma_drawn_refl(quiet);
    lemma_drawn_trans(no_win, quiet, moves);
    let no_fork = if level >= levels::NO_BLUE_FORK_DEST {
        s.keep_or_all(no_win, MoveFilter::NoBlueForkDest)
    } else {
        no_win
    };
    lemma_keep_drawn(s, no_win, MoveFilter::NoBlueForkDest);
    lemma_drawn_refl(no_win);
    lemma_drawn_trans(no_fork, no_win, moves);
    let off_line = if level >= levels::OFF_BLUE_LINE_DEST {
        s.keep_or_all(no_fork, MoveFilter::OffBlueLineDest)
    } else {
        no_fork
    };
    lemma_keep_drawn(s, no_fork, MoveFilter::OffBlueLineDest);
    lemma_drawn_refl(no_fork);
    lemma_drawn_trans(off_line, no_fork, moves);
    let last = if level >= levels::NO_META_GAIN_DEST {
        s.keep_or_all(off_line, MoveFilter::NoMetaGainDest)
    } else {
        off_line
    };
    lemma_keep_drawn(s, off_line, MoveFilter::NoMetaGainDest);
    lemma_drawn_refl(off_line);
    lemma_drawn_trans(last, off_line, moves);
}

/// Some move of a pool sends to a sub-board with the most room.
pub proof fn lemma_roomiest(s: GameView, pool: Seq<Move>)
    requires
        s.shaped(),
        in_range(pool),
    ensures
        drawn_from(s.roomiest(pool), pool),
        pool.len() > 0 ==> s.roomiest(pool).len() > 0,
        forall|i: int, j: int|
            0 <= i < s.roomiest(pool).len() && 0 <= j < pool.len() ==> s.dest_room(
                (#[trigger] pool[j]).1 as int,
            ) <= s.dest_room((#[trigger] s.roomiest(pool)[i]).1 as int),
{
    let rooms = s.rooms(pool);
    let most = rooms.max();
    rooms.max_ensures();
    let f = MoveFilter::RoomyDest(most as usize);
    lemma_keep_drawn(s, pool, f);
    if pool.len() > 0 {
        let j = choose|j: int| 0 <= j < rooms.len() && rooms[j] == most;
        lemma_room_bounded(s, pool[j].1 as int);
        assert(s.roomiest(pool).contains(pool[j]));
        assert forall|i: int, k: int|
            0 <= i < s.roomiest(pool).len() && 0 <= k < pool.len() implies s.dest_room(
            (#[trigger] pool[k]).1 as int,
        ) <= s.dest_room((#[trigger] s.roomiest(pool)[i]).1 as int) by {
            assert(rooms[k] <= most);
        }
    }
}

/// A sub-board has room for nine marks at most.
pub proof fn lemma_room_bounded(s: GameView, c: int)
    requires
        s.shaped(),
        0 <= c < 9,
    ensures
        s.dest_room(c) <= 9,
{
    lemma_count_bounded(s.cells[c], Cell::Empty);
}

/// A board holds no more marks of one kind than it has squares.
pub proof fn lemma_count_bounded(cells: Seq<Cell>, who: Cell)
    ensures
        crate::board::count_of(cells, who) <= cells.len(),
    decreases cells.len(),
{
    if cells.len() > 0 {
        lemma_count_bounded(cells.drop_last(), who);
    }
}

/// The pool chosen by destination is made of candidates, and holds one
/// whenever there is one.
pub proof fn lemma_destination_pool(s: GameView, level: u32, candidates: Seq<Move>)
    requires
        s.shaped(),
        in_range(candidates),
    ensures
        drawn_from(s.destination_pool(level, candidates), candidates),
        candidates.len() > 0 ==> s.destination_pool(level, candidates).len() > 0,
{
    let blank = s.keep(candidates, MoveFilter::BlankDest);
    let roomiest = s.roomiest(candidates);
    lemma_keep_drawn(s, candidates, MoveFilter::Trap);
    lemma_keep_drawn(s, candidates, MoveFilter::BlankDest);
    lemma_roomiest(s, candidates);
    lemma_tie_break(level, blank);
    lemma_tie_break(level, roomiest);
    lemma_tie_break(level, candidates);
    lemma_drawn_trans(tie_break(level, blank), blank, candidates);
    lemma_drawn_trans(tie_break(level, roomiest), roomiest, candidates);
}

/// The pool of the heuristic cascade is made of the moves given, and holds
/// one whenever there is one.
pub proof fn lemma_heuristic_pool(s: GameView, level: u32, moves: Seq<Move>)
    requires
        s.shaped(),
        in_range(moves),
    ensures
        drawn_from(s.heuristic_pool(level, moves), moves),
        moves.len() > 0 ==> s.heuristic_pool(level, moves).len() > 0,
{
    let winning = s.keep(moves, MoveFilter::WinsBoard(Cell::Red));
    let blocking = s.keep(moves, MoveFilter::WinsBoard(Cell::Blue));
    lemma_keep_drawn(s, moves, MoveFilter::WinsBoard(Cell::Red));
    lemma_keep_drawn(s, moves, MoveFilter::WinsBoard(Cell::Blue));
    lemma_keep_drawn(s, moves, MoveFilter::Forks(Cell::Blue));
    lemma_keep_drawn(s, moves, MoveFilter::Forks(Cell::Red));
    lemma_keep_drawn(s, winning, MoveFilter::WinsMeta(Cell::Red));
    lemma_keep_drawn(s, winning, MoveFilter::DeniesBlueWin);
    lemma_keep_drawn(s, winning, MoveFilter::MetaThreat(Cell::Red));
    lemma_keep_drawn(s, blocking, MoveFilter::WinsMeta(Cell::Blue));
    lemma_drawn_refl(winning);
    lemma_drawn_refl(blocking);
    lemma_drawn_trans(s.winning_pool(level, winning), winning, moves);
    lemma_drawn_trans(s.blocking_pool(level, blocking), blocking, moves);
    let safe = s.safe_destinations(level, moves);
    lemma_safe_destinations(s, level, moves);
    lemma_drawn_in_range(safe, moves);
    lemma_destination_pool(s, level, safe);
    lemma_drawn_trans(s.destination_pool(level, safe), safe, moves);
}

/// At every level the selection pool is made of the moves given, and holds
/// one whenever there is one: a move can always be drawn.
pub proof fn lemma_selection_pool(s: GameView, level: u32, moves: Seq<Move>)
    requires
        s.shaped(),
        in_range(moves),
    ensures
        drawn_from(s.selection_pool(level, moves), moves),
        moves.len() > 0 ==> s.selection_pool(level, moves).len() > 0,
{
    lemma_keep_drawn(s, moves, MoveFilter::AvoidsWin);
    lemma_drawn_refl(moves);
    lemma_heuristic_pool(s, level, moves);
    lemma_best_red_moves(s, moves, Depth::OnePly);
    lemma_best_red_moves(s, moves, Depth::TwoPly);
    let one = best_red_moves(s, moves, Depth::OnePly);
    let two = best_red_moves(s, moves, Depth::TwoPly);
    assert forall|i: int| 0 <= i < one.len() implies moves.contains(#[trigger] one[i]) by {
        assert(one.contains(one[i]));
    }
    assert forall|i: int| 0 <= i < two.len() implies moves.contains(#[trigger] two[i]) by {
        assert(two.contains(two[i]));
    }
}

/// At level 0 Red wins no sub-board while it has a move that wins none.
pub proof fn lemma_level_zero_avoids_wins(s: GameView, moves: Seq<Move>, other: Move, m: Move)
    requires
        moves.contains(other),
        !would_win(s.cells[other.0 as int], other.1 as int, Cell::Red),
        s.selection_pool(levels::BEGINNER, moves).contains(m),
    ensures
        moves.contains(m),
        !would_win(s.cells[m.0 as int], m.1 as int, Cell::Red),
{
    lemma_keep_drawn(s, moves, MoveFilter::AvoidsWin);
    assert(s.keep(moves, MoveFilter::AvoidsWin).contains(other));
}

/// From level 2 to level 19 Red wins a sub-board whenever a move does.
pub proof fn lemma_cascade_takes_a_win(s: GameView, level: u32, moves: Seq<Move>, win: Move, m: Move)
    requires
        levels::WIN_BOARD <= level < levels::ONE_PLY,
        moves.contains(win),
        s.passes(MoveFilter::WinsBoard(Cell::Red), win),
        s.selection_pool(level, moves).contains(m),
    ensures
        moves.contains(m),
        s.board_winners[m.0 as int] == Cell::Empty,
        would_win(s.cells[m.0 as int], m.1 as int, Cell::Red),
{
    let winning = s.keep(moves, MoveFilter::WinsBoard(Cell::Red));
    lemma_keep_drawn(s, moves, MoveFilter::WinsBoard(Cell::Red));
    assert(winning.contains(win));
    lemma_keep_drawn(s, winning, MoveFilter::WinsMeta(Cell::Red));
    lemma_keep_drawn(s, winning, MoveFilter::DeniesBlueWin);
    lemma_keep_drawn(s, winning, MoveFilter::MetaThreat(Cell::Red));
}

/// From level 3 to level 19 Red, when no move wins a sub-board, takes a
/// square on which Blue would win one, whenever there is such a square.
pub proof fn lemma_cascade_blocks(s: GameView, level: u32, moves: Seq<Move>, block: Move, m: Move)
    requires
        levels::BLOCK <= level < levels::ONE_PLY,
        forall|i: int|
            0 <= i < moves.len() ==> !s.passes(MoveFilter::WinsBoard(Cell::Red), #[trigger] moves[i]),
        moves.contains(block),
        s.passes(MoveFilter::WinsBoard(Cell::Blue), block),
        s.selection_pool(level, moves).contains(m),
    ensures
        moves.contains(m),
        s.board_winners[m.0 as int] == Cell::Empty,
        would_win(s.cells[m.0 as int], m.1 as int, Cell::Blue),
{
    let winning = s.keep(moves, MoveFilter::WinsBoard(Cell::Red));
    let blocking = s.keep(moves, MoveFilter::WinsBoard(Cell::Blue));
    lemma_keep_drawn(s, moves, MoveFilter::WinsBoard(Cell::Red));
    lemma_keep_drawn(s, moves, MoveFilter::WinsBoard(Cell::Blue));
    if winning.len() > 0 {
        assert(winning.contains(winning[0]));
        let i = choose|i: int| 0 <= i < moves.len() && moves[i] == winning[0];
        assert(s.passes(MoveFilter::WinsBoard(Cell::Red), moves[i]));
    }
    assert(blocking.contains(block));
    lemma_keep_drawn(s, blocking, MoveFilter::WinsMeta(Cell::Blue));
    assert(blocking.contains(m));
}

/// From level 10 a trap is set whenever a candidate is one: the pool
/// chosen by destination is then made of traps.
pub proof fn lemma_trap_is_set(s: GameView, level: u32, candidates: Seq<Move>, trap: Move, m: Move)
    requires
        level >= levels::TRAP,
        candidates.contains(trap),
        s.is_trap(trap.1 as int),
        s.destination_pool(level, candidates).contains(m),
    ensures
        candidates.contains(m),
        s.is_trap(m.1 as int),
{
    lemma_keep_drawn(s, candidates, MoveFilter::Trap);
    assert(s.passes(MoveFilter::Trap, trap));
    assert(s.keep(candidates, MoveFilter::Trap).contains(trap));
}

/// From level 12 to level 19 Red wins the game at once whenever a move
/// that wins a sub-board does.
pub proof fn lemma_cascade_takes_the_game(
    s: GameView,
    level: u32,
    moves: Seq<Move>,
    win: Move,
    m: Move,
)
    requires
        levels::WIN_META <= level < levels::ONE_PLY,
        moves.contains(win),
        s.passes(MoveFilter::WinsBoard(Cell::Red), win),
        s.passes(MoveFilter::WinsMeta(Cell::Red), win),
        s.selection_pool(level, moves).contains(m),
    ensures
        moves.contains(m),
        s.passes(MoveFilter::WinsBoard(Cell::Red), m),
        would_win(s.board_winners, m.0 as int, Cell::Red),
{
    let winning = s.keep(moves, MoveFilter::WinsBoard(Cell::Red));
    lemma_keep_drawn(s, moves, MoveFilter::WinsBoard(Cell::Red));
    lemma_keep_drawn(s, winning, MoveFilter::WinsMeta(Cell::Red));
    let meta = s.keep(winning, MoveFilter::WinsMeta(Cell::Red));
    assert(meta.contains(win));
}

/// From level 20 the move drawn is worth no less to Red than any other:
/// at level 20 by the score it leaves, from level 21 by the score that
/// Blue's best reply leaves.
pub proof fn lemma_search_maximizes(s: GameView, level: u32, moves: Seq<Move>, m: Move)
    requires
        level >= levels::ONE_PLY,
        s.selection_pool(level, moves).contains(m),
    ensures
        moves.contains(m),
        forall|i: int|
            0 <= i < moves.len() ==> red_value(
                s,
                #[trigger] moves[i],
                if level >= levels::TWO_PLY {
                    Depth::TwoPly
                } else {
                    Depth::OnePly
                },
            ) <= red_value(
                s,
                m,
                if level >= levels::TWO_PLY {
                    Depth::TwoPly
                } else {
                    Depth::OnePly
                },
            ),
{
    lemma_best_red_moves(s, moves, Depth::OnePly);
    lemma_best_red_moves(s, moves, Depth::TwoPly);
}

} // verus!

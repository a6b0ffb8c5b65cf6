//! The move selection engine: a cascade of named filters, graded by
//! strength level, that narrows the legal moves to a pool from which one
//! move is drawn at random.

use vstd::prelude::*;

use crate::board::{
    can_fork_board, can_win_board, count_cells, count_of, count_on_line, creates_fork,
    creates_meta_threat, has_fork_cell, has_winning_cell, is_blank, is_board_blank, line_through,
    makes_fork, makes_threat, would_win, would_win_board, would_win_meta, Cell, WIN_LINES,
};
use crate::levels;
use crate::moves::{in_range, legal_moves, Move};
use crate::search::{best_moves_for_red, best_red_moves, lemma_max_is, pick_random, Depth};
use crate::seq_facts::{
    lemma_filter_end, lemma_filter_members, lemma_filter_start, lemma_filter_step,
};
use crate::state::{apply_move, GameState, GameView};

verus! {

/// A test on where a move lies, whatever the state.
#[derive(Clone, Copy, Debug)]
pub enum Spot {
    /// The centre square of its sub-board.
    CenterCell,
    /// A square of the centre sub-board.
    CenterBoard,
    /// A corner square of its sub-board.
    CornerCell,
    /// A square of a corner sub-board.
    CornerBoard,
}

/// A test that a stage of the cascade puts to a move `(b, c)`: square `c`
/// of sub-board `b`, which sends the opponent to sub-board `c`.
#[derive(Clone, Copy, Debug)]
pub enum MoveFilter {
    /// Red does not win sub-board `b` by it.
    AvoidsWin,
    /// Sub-board `b` is undecided and the player wins it by the move.
    WinsBoard(Cell),
    /// Sub-board `b`, credited to the player, wins the meta-board.
    WinsMeta(Cell),
    /// Blue has a winning square in sub-board `b`.
    DeniesBlueWin,
    /// Sub-board `b`, credited to the player, makes a meta-board threat.
    MetaThreat(Cell),
    /// Sub-board `b` is undecided and the player makes a fork in it.
    Forks(Cell),
    /// Sub-board `c` is closed, or Blue has no more squares in it than Red.
    QuietDest,
    /// Sub-board `c` is closed, or Blue has no winning square in it.
    NoBlueWinDest,
    /// Sub-board `c` is closed, or Blue has no forking square in it.
    NoBlueForkDest,
    /// Sub-board `c` is closed, or lies on no meta-line that holds two
    /// sub-boards of Blue.
    OffBlueLineDest,
    /// Sub-board `c` is closed, or Blue, credited with it, neither wins the
    /// meta-board nor makes a meta-board threat.
    NoMetaGainDest,
    /// Sub-board `c` has one empty square left, and that square names a
    /// sub-board in which Red has a winning square.
    Trap,
    /// Sub-board `c` is wholly empty.
    BlankDest,
    /// Sub-board `c` has exactly this many empty squares (none when full).
    RoomyDest(usize),
}

/// Index `i` is a corner of a 3x3 board.
pub open spec fn is_corner(i: int) -> bool {
    i == 0 || i == 2 || i == 6 || i == 8
}

/// Line `k` passes through `idx` and holds two marks of `who`.
pub open spec fn pair_through(cells: Seq<Cell>, k: int, idx: int, who: Cell) -> bool {
    line_through(k, idx) && count_on_line(cells, k, who) == 2
}

/// Some line through `idx` holds two marks of `who`.
pub open spec fn two_on_line_through(cells: Seq<Cell>, idx: int, who: Cell) -> bool {
    exists|k: int| 0 <= k < 8 && #[trigger] pair_through(cells, k, idx, who)
}

/// Square `e` is the only empty square of the board.
pub open spec fn sole_empty(cells: Seq<Cell>, e: int) -> bool {
    cells[e] == Cell::Empty && forall|i: int| 0 <= i < 9 && cells[i] == Cell::Empty ==> i == e
}

impl Spot {
    pub open spec fn holds(self, m: Move) -> bool {
        match self {
            Spot::CenterCell => m.1 == 4,
            Spot::CenterBoard => m.0 == 4,
            Spot::CornerCell => is_corner(m.1 as int),
            Spot::CornerBoard => is_corner(m.0 as int),
        }
    }

    /// `holds` as a predicate on moves.
    pub open spec fn pred(self) -> spec_fn(Move) -> bool {
        |m: Move| self.holds(m)
    }
}

/// The moves of `pool` at the spot, in order.
pub open spec fn at_spot(pool: Seq<Move>, spot: Spot) -> Seq<Move> {
    pool.filter(spot.pred())
}

/// The narrowed pool when it holds a move, else the pool it came from.
pub open spec fn prefer(narrowed: Seq<Move>, fallback: Seq<Move>) -> Seq<Move> {
    if narrowed.len() > 0 {
        narrowed
    } else {
        fallback
    }
}

/// The moves a positional preference picks from: those on the preferred
/// square, narrowed to the preferred sub-boards where that leaves any;
/// failing those, the moves in the preferred sub-boards; else none.
pub open spec fn preferred(pool: Seq<Move>, cell: Spot, board: Spot) -> Option<Seq<Move>> {
    let by_cell = at_spot(pool, cell);
    let by_board = at_spot(pool, board);
    if by_cell.len() > 0 {
        Some(prefer(at_spot(by_cell, board), by_cell))
    } else if by_board.len() > 0 {
        Some(by_board)
    } else {
        None
    }
}

/// The preference for the centre.
pub open spec fn center_choice(pool: Seq<Move>) -> Option<Seq<Move>> {
    preferred(pool, Spot::CenterCell, Spot::CenterBoard)
}

/// The preference for corners.
pub open spec fn corner_choice(pool: Seq<Move>) -> Option<Seq<Move>> {
    preferred(pool, Spot::CornerCell, Spot::CornerBoard)
}

/// The tie-break among equally good moves: from level 14 the centre
/// preference, from level 15 the corner preference, each where it picks
/// anything; else the pool as it is.
pub open spec fn tie_break(level: u32, pool: Seq<Move>) -> Seq<Move> {
    if level >= levels::CENTER_TIE_BREAK && center_choice(pool) is Some {
        center_choice(pool)->0
    } else if level >= levels::CORNER_TIE_BREAK && corner_choice(pool) is Some {
        corner_choice(pool)->0
    } else {
        pool
    }
}

/// Every move of `sub` is a move of `pool`.
pub open spec fn drawn_from(sub: Seq<Move>, pool: Seq<Move>) -> bool {
    forall|i: int| 0 <= i < sub.len() ==> pool.contains(#[trigger] sub[i])
}

impl GameView {
    /// The sub-board is full or decided: nothing is to be gained in it.
    pub open spec fn dest_closed(self, c: int) -> bool {
        self.board_full[c] || self.board_winners[c] != Cell::Empty
    }

    /// The number of empty squares of the sub-board, none when it is full.
    pub open spec fn dest_room(self, c: int) -> nat {
        if self.board_full[c] {
            0
        } else {
            count_of(self.cells[c], Cell::Empty)
        }
    }

    /// Square `e` is the last empty square of sub-board `c`, and Red has a
    /// winning square in sub-board `e`.
    pub open spec fn trap_exit(self, c: int, e: int) -> bool {
        sole_empty(self.cells[c], e) && has_winning_cell(self.cells[e], Cell::Red)
    }

    /// Sub-board `c` is a trap: its one empty square sends the opponent's
    /// reply to a sub-board where Red can win at once.
    pub open spec fn is_trap(self, c: int) -> bool {
        !self.board_full[c] && exists|e: int| 0 <= e < 9 && #[trigger] self.trap_exit(c, e)
    }

    /// Whether move `m` passes the filter.
    pub open spec fn passes(self, f: MoveFilter, m: Move) -> bool {
        let b = m.0 as int;
        let c = m.1 as int;
        match f {
            MoveFilter::AvoidsWin => !would_win(self.cells[b], c, Cell::Red),
            MoveFilter::WinsBoard(p) => self.board_winners[b] == Cell::Empty && would_win(
                self.cells[b],
                c,
                p,
            ),
            MoveFilter::WinsMeta(p) => would_win(self.board_winners, b, p),
            MoveFilter::DeniesBlueWin => has_winning_cell(self.cells[b], Cell::Blue),
            MoveFilter::MetaThreat(p) => makes_threat(self.board_winners, b, p),
            MoveFilter::Forks(p) => self.board_winners[b] == Cell::Empty && makes_fork(
                self.cells[b],
                c,
                p,
            ),
            MoveFilter::QuietDest => self.dest_closed(c) || count_of(self.cells[c], Cell::Blue)
                <= count_of(self.cells[c], Cell::Red),
            MoveFilter::NoBlueWinDest => self.dest_closed(c) || !has_winning_cell(
                self.cells[c],
                Cell::Blue,
            ),
            MoveFilter::NoBlueForkDest => self.dest_closed(c) || !has_fork_cell(
                self.cells[c],
                Cell::Blue,
            ),
            MoveFilter::OffBlueLineDest => self.dest_closed(c) || !two_on_line_through(
                self.board_winners,
                c,
                Cell::Blue,
            ),
            MoveFilter::NoMetaGainDest => self.dest_closed(c) || (!would_win(
                self.board_winners,
                c,
                Cell::Blue,
            ) && !makes_threat(self.board_winners, c, Cell::Blue)),
            MoveFilter::Trap => self.is_trap(c),
            MoveFilter::BlankDest => !self.board_full[c] && is_blank(self.cells[c]),
            MoveFilter::RoomyDest(n) => self.dest_room(c) == n,
        }
    }

    /// `passes` as a predicate on moves.
    pub open spec fn filter_pred(self, f: MoveFilter) -> spec_fn(Move) -> bool {
        |m: Move| self.passes(f, m)
    }

    /// The moves of `pool` that pass the filter, in order.
    pub open spec fn keep(self, pool: Seq<Move>, f: MoveFilter) -> Seq<Move> {
        pool.filter(self.filter_pred(f))
    }

    /// The moves of `pool` that pass the filter, or all of `pool` when none
    /// does.
    pub open spec fn keep_or_all(self, pool: Seq<Move>, f: MoveFilter) -> Seq<Move> {
        prefer(self.keep(pool, f), pool)
    }

    /// The room of the sub-board that each move of `pool` sends to.
    pub open spec fn rooms(self, pool: Seq<Move>) -> Seq<int> {
        Seq::new(pool.len(), |i: int| self.dest_room(pool[i].1 as int) as int)
    }

    /// The pool when Red can win a sub-board. `winning` holds the moves that
    /// do. From level 12 those that win the meta-board too are preferred;
    /// from level 11 those in a sub-board where Blue could win; from level
    /// 16 those that make a meta-board threat; the first of these that
    /// holds a move is the pool, else all of `winning`.
    pub open spec fn winning_pool(self, level: u32, winning: Seq<Move>) -> Seq<Move> {
        let meta = self.keep(winning, MoveFilter::WinsMeta(Cell::Red));
        let defensive = self.keep(winning, MoveFilter::DeniesBlueWin);
        let threat = self.keep(winning, MoveFilter::MetaThreat(Cell::Red));
        if level >= levels::WIN_META && meta.len() > 0 {
            meta
        } else if level >= levels::WIN_DEFENDING && defensive.len() > 0 {
            defensive
        } else if level >= levels::WIN_THREATENING && threat.len() > 0 {
            threat
        } else {
            winning
        }
    }

    /// The pool when Red must block. `blocking` holds the moves that take a
    /// square on which Blue would win a sub-board. From level 13 those that
    /// keep Blue from winning the meta-board are preferred.
    pub open spec fn blocking_pool(self, level: u32, blocking: Seq<Move>) -> Seq<Move> {
        let meta = self.keep(blocking, MoveFilter::WinsMeta(Cell::Blue));
        if level >= levels::BLOCK_META && meta.len() > 0 {
            meta
        } else {
            blocking
        }
    }

    /// The destination-safety filters, each applied from its level on and
    /// only where it leaves a move: 7 quiet, 8 no Blue win, 9 no Blue fork,
    /// 17 off Blue's meta-lines, 18 no meta-board gain.
    pub open spec fn safe_destinations(self, level: u32, moves: Seq<Move>) -> Seq<Move> {
        let quiet = if level >= levels::QUIET_DEST {
            self.keep_or_all(moves, MoveFilter::QuietDest)
        } else {
            moves
        };
        let no_win = if level >= levels::NO_BLUE_WIN_DEST {
            self.keep_or_all(quiet, MoveFilter::NoBlueWinDest)
        } else {
            quiet
        };
        let no_fork = if level >= levels::NO_BLUE_FORK_DEST {
            self.keep_or_all(no_win, MoveFilter::NoBlueForkDest)
        } else {
            no_win
        };
        let off_line = if level >= levels::OFF_BLUE_LINE_DEST {
            self.keep_or_all(no_fork, MoveFilter::OffBlueLineDest)
        } else {
            no_fork
        };
        if level >= levels::NO_META_GAIN_DEST {
            self.keep_or_all(off_line, MoveFilter::NoMetaGainDest)
        } else {
            off_line
        }
    }

    /// The moves of `pool` that send to a sub-board with the most room.
    pub open spec fn roomiest(self, pool: Seq<Move>) -> Seq<Move> {
        self.keep(pool, MoveFilter::RoomyDest(self.rooms(pool).max() as usize))
    }

    /// The pool chosen by destination among the safe candidates: from level
    /// 10 the traps, where there is one; from level 5 the moves to a wholly
    /// empty sub-board, where there is one; from level 6 the moves to a
    /// sub-board with the most room; else all candidates. But for traps the
    /// tie-break is applied.
    pub open spec fn destination_pool(self, level: u32, candidates: Seq<Move>) -> Seq<Move> {
        let traps = self.keep(candidates, MoveFilter::Trap);
        let blank = self.keep(candidates, MoveFilter::BlankDest);
        if level >= levels::TRAP && traps.len() > 0 {
            traps
        } else if level >= levels::BLANK_DEST && blank.len() > 0 {
            tie_break(level, blank)
        } else if level >= levels::ROOMY_DEST {
            tie_break(level, self.roomiest(candidates))
        } else {
            tie_break(level, candidates)
        }
    }

    /// The pool of the heuristic cascade, levels 2 to 19: win a sub-board;
    /// from level 3 block Blue's win; from level 4 take the square on which
    /// Blue would fork; from level 19 make a fork; else choose by
    /// destination.
    pub open spec fn heuristic_pool(self, level: u32, moves: Seq<Move>) -> Seq<Move> {
        let winning = self.keep(moves, MoveFilter::WinsBoard(Cell::Red));
        let blocking = self.keep(moves, MoveFilter::WinsBoard(Cell::Blue));
        let blue_forks = self.keep(moves, MoveFilter::Forks(Cell::Blue));
        let red_forks = self.keep(moves, MoveFilter::Forks(Cell::Red));
        if winning.len() > 0 {
            self.winning_pool(level, winning)
        } else if level >= levels::BLOCK && blocking.len() > 0 {
            self.blocking_pool(level, blocking)
        } else if level >= levels::DENY_FORK && blue_forks.len() > 0 {
            blue_forks
        } else if level >= levels::FORK && red_forks.len() > 0 {
            red_forks
        } else {
            self.destination_pool(level, self.safe_destinations(level, moves))
        }
    }

    /// The pool from which Red's move is drawn at the given level:
    /// level 0, the moves that win no sub-board, or all when every move
    /// wins one; level 1, all moves; level 21 and above, the best moves two
    /// plies deep; level 20, the best moves one ply deep; otherwise the
    /// heuristic cascade.
    pub open spec fn selection_pool(self, level: u32, moves: Seq<Move>) -> Seq<Move> {
        if level == levels::BEGINNER {
            self.keep_or_all(moves, MoveFilter::AvoidsWin)
        } else if level == levels::RANDOM {
            moves
        } else if level >= levels::TWO_PLY {
            best_red_moves(self, moves, Depth::TwoPly)
        } else if level >= levels::ONE_PLY {
            best_red_moves(self, moves, Depth::OnePly)
        } else {
            self.heuristic_pool(level, moves)
        }
    }
}

/// A filter keeps moves of the pool it is given, so what is drawn from the
/// narrowed pool is drawn from the pool.
pub proof fn lemma_keep_drawn(s: GameView, pool: Seq<Move>, f: MoveFilter)
    ensures
        drawn_from(s.keep(pool, f), pool),
        drawn_from(s.keep_or_all(pool, f), pool),
        pool.len() > 0 ==> s.keep_or_all(pool, f).len() > 0,
        forall|m: Move| #[trigger] s.keep(pool, f).contains(m) <==> pool.contains(m) && s.passes(f, m),
{
    lemma_filter_members(pool, s.filter_pred(f));
    let kept = s.keep(pool, f);
    assert forall|i: int| 0 <= i < kept.len() implies pool.contains(#[trigger] kept[i]) by {
        assert(kept.contains(kept[i]));
    }
}

/// The moves at a spot are moves of the pool.
pub proof fn lemma_at_spot_drawn(pool: Seq<Move>, spot: Spot)
    ensures
        drawn_from(at_spot(pool, spot), pool),
        forall|m: Move| #[trigger] at_spot(pool, spot).contains(m) <==> pool.contains(m) && spot.holds(m),
{
    lemma_filter_members(pool, spot.pred());
    let kept = at_spot(pool, spot);
    assert forall|i: int| 0 <= i < kept.len() implies pool.contains(#[trigger] kept[i]) by {
        assert(kept.contains(kept[i]));
    }
}

/// Being drawn from a pool carries over from pool to pool.
pub proof fn lemma_drawn_trans(a: Seq<Move>, b: Seq<Move>, c: Seq<Move>)
    requires
        drawn_from(a, b),
        drawn_from(b, c),
    ensures
        drawn_from(a, c),
{
}

/// Every pool is drawn from itself.
pub proof fn lemma_drawn_refl(a: Seq<Move>)
    ensures
        drawn_from(a, a),
{
}

/// Moves drawn from a pool of squares of the game are squares of the game.
pub proof fn lemma_drawn_in_range(sub: Seq<Move>, pool: Seq<Move>)
    requires
        drawn_from(sub, pool),
        in_range(pool),
    ensures
        in_range(sub),
{
}

/// A copy of the list of moves.
fn copy_moves(moves: &[Move]) -> (copy: Vec<Move>)
    ensures
        copy@ == moves@,
{
    let mut copy: Vec<Move> = Vec::new();
    let mut k: usize = 0;
    while k < moves.len()
        invariant
            k <= moves.len(),
            copy@ == moves@.take(k as int),
        decreases moves.len() - k,
    {
        copy.push(moves[k]);
        k += 1;
    }
    copy
}

/// Whether the index is a corner of a 3x3 board.
fn is_corner_index(i: usize) -> (r: bool)
    ensures
        r == is_corner(i as int),
{
    i == 0 || i == 2 || i == 6 || i == 8
}

/// Whether the move lies at the spot.
fn at_spot_holds(spot: Spot, m: Move) -> (r: bool)
    ensures
        r == spot.holds(m),
{
    match spot {
        Spot::CenterCell => m.1 == 4,
        Spot::CenterBoard => m.0 == 4,
        Spot::CornerCell => is_corner_index(m.1),
        Spot::CornerBoard => is_corner_index(m.0),
    }
}

/// The moves of `pool` at the spot, in order.
pub fn moves_at(pool: &[Move], spot: Spot) -> (kept: Vec<Move>)
    ensures
        kept@ == at_spot(pool@, spot),
        drawn_from(kept@, pool@),
{
    let ghost pred = spot.pred();
    let mut kept: Vec<Move> = Vec::new();
    proof {
        lemma_filter_start(pool@, pred);
    }
    let mut k: usize = 0;
    while k < pool.len()
        invariant
            k <= pool.len(),
            pred == spot.pred(),
            kept@ == pool@.take(k as int).filter(pred),
        decreases pool.len() - k,
    {
        proof {
            lemma_filter_step(pool@, pred, k as int);
        }
        if at_spot_holds(spot, pool[k]) {
            kept.push(pool[k]);
        }
        k += 1;
    }
    proof {
        lemma_filter_end(pool@, pred);
        lemma_at_spot_drawn(pool@, spot);
    }
    kept
}

/// The moves that a positional preference picks from, if it picks any.
pub fn preferred_moves(pool: &[Move], cell: Spot, board: Spot) -> (choice: Option<Vec<Move>>)
    ensures
        match choice {
            Some(picked) => preferred(pool@, cell, board) == Some(picked@) && picked@.len() > 0
                && drawn_from(picked@, pool@),
            None => preferred(pool@, cell, board) is None,
        },
{
    let by_cell = moves_at(pool, cell);
    if by_cell.len() > 0 {
        let both = moves_at(&by_cell, board);
        if both.len() > 0 {
            proof {
                lemma_drawn_trans(both@, by_cell@, pool@);
            }
            return Some(both);
        }
        return Some(by_cell);
    }
    let by_board = moves_at(pool, board);
    if by_board.len() > 0 {
        return Some(by_board);
    }
    None
}

/// A move drawn at random from the centre preference, if it picks any:
/// centre squares first, those of the centre sub-board before the others;
/// failing those, squares of the centre sub-board.
pub fn prefer_center(moves: &[Move], rng: &mut rand::rngs::StdRng) -> (choice: Option<Move>)
    ensures
        match center_choice(moves@) {
            Some(pool) => choice is Some && pool.contains(choice->0),
            None => choice is None,
        },
        choice is Some ==> moves@.contains(choice->0),
{
    match preferred_moves(moves, Spot::CenterCell, Spot::CenterBoard) {
        Some(pool) => {
            let m = pick_random(&pool, rng);
            Some(m)
        },
        None => None,
    }
}

/// A move drawn at random from the corner preference, if it picks any:
/// corner squares first, those of corner sub-boards before the others;
/// failing those, squares of corner sub-boards.
pub fn prefer_corners(moves: &[Move], rng: &mut rand::rngs::StdRng) -> (choice: Option<Move>)
    ensures
        match corner_choice(moves@) {
            Some(pool) => choice is Some && pool.contains(choice->0),
            None => choice is None,
        },
        choice is Some ==> moves@.contains(choice->0),
{
    match preferred_moves(moves, Spot::CornerCell, Spot::CornerBoard) {
        Some(pool) => {
            let m = pick_random(&pool, rng);
            Some(m)
        },
        None => None,
    }
}

/// The pool after the tie-break of the given level.
fn break_ties(level: u32, pool: Vec<Move>) -> (out: Vec<Move>)
    ensures
        out@ == tie_break(level, pool@),
        drawn_from(out@, pool@),
        pool@.len() > 0 ==> out@.len() > 0,
{
    proof {
        lemma_drawn_refl(pool@);
    }
    if level >= levels::CENTER_TIE_BREAK {
        if let Some(picked) = preferred_moves(&pool, Spot::CenterCell, Spot::CenterBoard) {
            return picked;
        }
    }
    if level >= levels::CORNER_TIE_BREAK {
        if let Some(picked) = preferred_moves(&pool, Spot::CornerCell, Spot::CornerBoard) {
            return picked;
        }
    }
    pool
}

/// Whether some meta-line through sub-board `idx` holds two sub-boards of
/// `who`.
fn has_pair_through(board_winners: &[Cell; 9], idx: usize, who: Cell) -> (r: bool)
    requires
        idx < 9,
    ensures
        r == two_on_line_through(board_winners@, idx as int, who),
{
    let mut k: usize = 0;
    while k < 8
        invariant
            k <= 8,
            forall|j: int| 0 <= j < k ==> !#[trigger] pair_through(board_winners@, j, idx as int, who),
        decreases 8 - k,
    {
        let l = WIN_LINES[k];
        if l[0] == idx || l[1] == idx || l[2] == idx {
            let mut n: usize = 0;
            if board_winners[l[0]] == who {
                n += 1;
            }
            if board_winners[l[1]] == who {
                n += 1;
            }
            if board_winners[l[2]] == who {
                n += 1;
            }
            if n == 2 {
                assert(pair_through(board_winners@, k as int, idx as int, who));
                return true;
            }
        }
        k += 1;
    }
    false
}

/// The only empty square of the board, if it has exactly one.
fn sole_empty_square(cells: &[Cell; 9]) -> (found: Option<usize>)
    ensures
        match found {
            Some(e) => e < 9 && sole_empty(cells@, e as int),
            None => forall|e: int| 0 <= e < 9 ==> !sole_empty(cells@, e),
        },
{
    let mut found: Option<usize> = None;
    let mut i: usize = 0;
    while i < 9
        invariant
            i <= 9,
            match found {
                Some(e) => e < i && cells@[e as int] == Cell::Empty && forall|j: int|
                    0 <= j < i && cells@[j] == Cell::Empty ==> j == e,
                None => forall|j: int| 0 <= j < i ==> cells@[j] != Cell::Empty,
            },
        decreases 9 - i,
    {
        if cells[i] == Cell::Empty {
            match found {
                Some(e) => {
                    return None;
                },
                None => {
                    found = Some(i);
                },
            }
        }
        i += 1;
    }
    found
}

/// Whether sub-board `c` is a trap.
fn is_trap_board(state: &GameState, c: usize) -> (r: bool)
    requires
        c < 9,
    ensures
        r == state@.is_trap(c as int),
{
    if state.board_full[c] {
        return false;
    }
    match sole_empty_square(&state.cells[c]) {
        Some(e) => {
            let wins = can_win_board(&state.cells[e], Cell::Red);
            proof {
                if wins {
                    assert(state@.trap_exit(c as int, e as int));
                }
            }
            wins
        },
        None => false,
    }
}

/// The number of empty squares of sub-board `c`, none when it is full.
fn room_of(state: &GameState, c: usize) -> (n: usize)
    requires
        c < 9,
    ensures
        n == state@.dest_room(c as int),
        n <= 9,
{
    if state.board_full[c] {
        0
    } else {
        count_cells(&state.cells[c], Cell::Empty)
    }
}

/// Whether the move passes the filter.
pub fn passes_filter(state: &GameState, f: MoveFilter, m: Move) -> (r: bool)
    requires
        m.0 < 9,
        m.1 < 9,
    ensures
        r == state@.passes(f, m),
{
    let b = m.0;
    let c = m.1;
    let closed = state.board_full[c] || state.board_winners[c] != Cell::Empty;
    match f {
        MoveFilter::AvoidsWin => !would_win_board(&state.cells[b], c, Cell::Red),
        MoveFilter::WinsBoard(p) => state.board_winners[b] == Cell::Empty && would_win_board(
            &state.cells[b],
            c,
            p,
        ),
        MoveFilter::WinsMeta(p) => would_win_meta(&state.board_winners, b, p),
        MoveFilter::DeniesBlueWin => can_win_board(&state.cells[b], Cell::Blue),
        MoveFilter::MetaThreat(p) => creates_meta_threat(&state.board_winners, b, p),
        MoveFilter::Forks(p) => state.board_winners[b] == Cell::Empty && creates_fork(
            &state.cells[b],
            c,
            p,
        ),
        MoveFilter::QuietDest => closed || count_cells(&state.cells[c], Cell::Blue) <= count_cells(
            &state.cells[c],
            Cell::Red,
        ),
        MoveFilter::NoBlueWinDest => closed || !can_win_board(&state.cells[c], Cell::Blue),
        MoveFilter::NoBlueForkDest => closed || !can_fork_board(&state.cells[c], Cell::Blue),
        MoveFilter::OffBlueLineDest => closed || !has_pair_through(
            &state.board_winners,
            c,
            Cell::Blue,
        ),
        MoveFilter::NoMetaGainDest => closed || (!would_win_meta(
            &state.board_winners,
            c,
            Cell::Blue,
        ) && !creates_meta_threat(&state.board_winners, c, Cell::Blue)),
        MoveFilter::Trap => is_trap_board(state, c),
        MoveFilter::BlankDest => !state.board_full[c] && is_board_blank(&state.cells[c]),
        MoveFilter::RoomyDest(n) => room_of(state, c) == n,
    }
}

/// The moves of `pool` that pass the filter, in order.
pub fn narrow(state: &GameState, pool: &[Move], f: MoveFilter) -> (kept: Vec<Move>)
    requires
        in_range(pool@),
    ensures
        kept@ == state@.keep(pool@, f),
        drawn_from(kept@, pool@),
        in_range(kept@),
{
    let ghost pred = state@.filter_pred(f);
    let mut kept: Vec<Move> = Vec::new();
    proof {
        lemma_filter_start(pool@, pred);
    }
    let mut k: usize = 0;
    while k < pool.len()
        invariant
            k <= pool.len(),
            in_range(pool@),
            pred == state@.filter_pred(f),
            kept@ == pool@.take(k as int).filter(pred),
        decreases pool.len() - k,
    {
        proof {
            lemma_filter_step(pool@, pred, k as int);
        }
        if passes_filter(state, f, pool[k]) {
            kept.push(pool[k]);
        }
        k += 1;
    }
    proof {
        lemma_filter_end(pool@, pred);
        lemma_keep_drawn(state@, pool@, f);
        lemma_drawn_in_range(kept@, pool@);
    }
    kept
}

/// The moves of `pool` that pass the filter, or `pool` itself when none
/// does.
fn narrow_or_keep(state: &GameState, pool: Vec<Move>, f: MoveFilter) -> (out: Vec<Move>)
    requires
        in_range(pool@),
    ensures
        out@ == state@.keep_or_all(pool@, f),
        drawn_from(out@, pool@),
        in_range(out@),
        pool@.len() > 0 ==> out@.len() > 0,
{
    proof {
        lemma_drawn_refl(pool@);
    }
    let kept = narrow(state, &pool, f);
    if kept.len() > 0 {
        kept
    } else {
        pool
    }
}

/// The pool when Red can win a sub-board.
fn winning_stage(state: &GameState, level: u32, winning: Vec<Move>) -> (pool: Vec<Move>)
    requires
        in_range(winning@),
        winning@.len() > 0,
    ensures
        pool@ == state@.winning_pool(level, winning@),
        drawn_from(pool@, winning@),
        pool@.len() > 0,
{
    proof {
        lemma_drawn_refl(winning@);
    }
    if level >= levels::WIN_META {
        let meta = narrow(state, &winning, MoveFilter::WinsMeta(Cell::Red));
        if meta.len() > 0 {
            return meta;
        }
    }
    if level >= levels::WIN_DEFENDING {
        let defensive = narrow(state, &winning, MoveFilter::DeniesBlueWin);
        if defensive.len() > 0 {
            return defensive;
        }
    }
    if level >= levels::WIN_THREATENING {
        let threat = narrow(state, &winning, MoveFilter::MetaThreat(Cell::Red));
        if threat.len() > 0 {
            return threat;
        }
    }
    winning
}

/// The pool when Red must block.
fn blocking_stage(state: &GameState, level: u32, blocking: Vec<Move>) -> (pool: Vec<Move>)
    requires
        in_range(blocking@),
        blocking@.len() > 0,
    ensures
        pool@ == state@.blocking_pool(level, blocking@),
        drawn_from(pool@, blocking@),
        pool@.len() > 0,
{
    proof {
        lemma_drawn_refl(blocking@);
    }
    if level >= levels::BLOCK_META {
        let meta = narrow(state, &blocking, MoveFilter::WinsMeta(Cell::Blue));
        if meta.len() > 0 {
            return meta;
        }
    }
    blocking
}

/// The candidates left by the destination-safety filters.
fn safe_destinations(state: &GameState, level: u32, moves: &[Move]) -> (safe: Vec<Move>)
    requires
        in_range(moves@),
    ensures
        safe@ == state@.safe_destinations(level, moves@),
        drawn_from(safe@, moves@),
        in_range(safe@),
        moves@.len() > 0 ==> safe@.len() > 0,
{
    let mut candidates = copy_moves(moves);
    proof {
        lemma_drawn_refl(moves@);
    }
    if level >= levels::QUIET_DEST {
        let ghost before = candidates@;
        candidates = narrow_or_keep(state, candidates, MoveFilter::QuietDest);
        proof {
            lemma_drawn_trans(candidates@, before, moves@);
        }
    }
    if level >= levels::NO_BLUE_WIN_DEST {
        let ghost before = candidates@;
        candidates = narrow_or_keep(state, candidates, MoveFilter::NoBlueWinDest);
        proof {
            lemma_drawn_trans(candidates@, before, moves@);
        }
    }
    if level >= levels::NO_BLUE_FORK_DEST {
        let ghost before = candidates@;
        candidates = narrow_or_keep(state, candidates, MoveFilter::NoBlueForkDest);
        proof {
            lemma_drawn_trans(candidates@, before, moves@);
        }
    }
    if level >= levels::OFF_BLUE_LINE_DEST {
        let ghost before = candidates@;
        candidates = narrow_or_keep(state, candidates, MoveFilter::OffBlueLineDest);
        proof {
            lemma_drawn_trans(candidates@, before, moves@);
        }
    }
    if level >= levels::NO_META_GAIN_DEST {
        let ghost before = candidates@;
        candidates = narrow_or_keep(state, candidates, MoveFilter::NoMetaGainDest);
        proof {
            lemma_drawn_trans(candidates@, before, moves@);
        }
    }
    candidates
}

/// The greatest room among the sub-boards that the moves of `pool` send
/// to; nothing when the pool is empty.
fn most_room(state: &GameState, pool: &[Move]) -> (most: usize)
    requires
        in_range(pool@),
    ensures
        most == state@.rooms(pool@).max(),
{
    let ghost rooms = state@.rooms(pool@);
    if pool.len() == 0 {
        return 0;
    }
    let mut most = room_of(state, pool[0].1);
    assert(most == rooms[0]);
    let mut k: usize = 1;
    while k < pool.len()
        invariant
            1 <= k <= pool.len(),
            in_range(pool@),
            rooms == state@.rooms(pool@),
            exists|j: int| 0 <= j < k && rooms[j] == most,
            forall|j: int| 0 <= j < k ==> #[trigger] rooms[j] <= most,
        decreases pool.len() - k,
    {
        let room = room_of(state, pool[k].1);
        assert(room == rooms[k as int]);
        if room > most {
            most = room;
        }
        k += 1;
    }
    proof {
        lemma_max_is(rooms, most as int);
    }
    most
}

/// The pool chosen by destination among the safe candidates.
fn destination_stage(state: &GameState, level: u32, candidates: Vec<Move>) -> (pool: Vec<Move>)
    requires
        in_range(candidates@),
    ensures
        pool@ == state@.destination_pool(level, candidates@),
        drawn_from(pool@, candidates@),
        candidates@.len() > 0 ==> pool@.len() > 0,
{
    if level >= levels::TRAP {
        let traps = narrow(state, &candidates, MoveFilter::Trap);
        if traps.len() > 0 {
            return traps;
        }
    }
    if level >= levels::BLANK_DEST {
        let blank = narrow(state, &candidates, MoveFilter::BlankDest);
        if blank.len() > 0 {
            let ghost before = blank@;
            let pool = break_ties(level, blank);
            proof {
                lemma_drawn_trans(pool@, before, candidates@);
            }
            return pool;
        }
    }
    if level >= levels::ROOMY_DEST {
        let most = most_room(state, &candidates);
        let roomiest = narrow(state, &candidates, MoveFilter::RoomyDest(most));
        let ghost before = roomiest@;
        proof {
            if candidates@.len() > 0 {
                let rooms = state@.rooms(candidates@);
                rooms.max_ensures();
                let j = choose|j: int| 0 <= j < rooms.len() && rooms[j] == rooms.max();
                lemma_keep_drawn(state@, candidates@, MoveFilter::RoomyDest(most));
                assert(roomiest@.contains(candidates@[j]));
            }
        }
        let pool = break_ties(level, roomiest);
        proof {
            lemma_drawn_trans(pool@, before, candidates@);
        }
        return pool;
    }
    break_ties(level, candidates)
}

/// The pool of the heuristic cascade.
pub fn heuristic_pool(state: &GameState, level: u32, moves: &[Move]) -> (pool: Vec<Move>)
    requires
        in_range(moves@),
    ensures
        pool@ == state@.heuristic_pool(level, moves@),
        drawn_from(pool@, moves@),
        moves@.len() > 0 ==> pool@.len() > 0,
{
    let winning = narrow(state, moves, MoveFilter::WinsBoard(Cell::Red));
    if winning.len() > 0 {
        let ghost before = winning@;
        let pool = winning_stage(state, level, winning);
        proof {
            lemma_drawn_trans(pool@, before, moves@);
        }
        return pool;
    }
    if level >= levels::BLOCK {
        let blocking = narrow(state, moves, MoveFilter::WinsBoard(Cell::Blue));
        if blocking.len() > 0 {
            let ghost before = blocking@;
            let pool = blocking_stage(state, level, blocking);
            proof {
                lemma_drawn_trans(pool@, before, moves@);
            }
            return pool;
        }
    }
    if level >= levels::DENY_FORK {
        let blue_forks = narrow(state, moves, MoveFilter::Forks(Cell::Blue));
        if blue_forks.len() > 0 {
            return blue_forks;
        }
    }
    if level >= levels::FORK {
        let red_forks = narrow(state, moves, MoveFilter::Forks(Cell::Red));
        if red_forks.len() > 0 {
            return red_forks;
        }
    }
    let candidates = safe_destinations(state, level, moves);
    let ghost before = candidates@;
    let pool = destination_stage(state, level, candidates);
    proof {
        lemma_drawn_trans(pool@, before, moves@);
    }
    pool
}

/// The pool from which Red's move is drawn at the given level: never empty
/// when there is a move, and made of the moves given.
pub fn selection_pool(state: &GameState, level: u32, moves: &[Move]) -> (pool: Vec<Move>)
    requires
        in_range(moves@),
    ensures
        pool@ == state@.selection_pool(level, moves@),
        drawn_from(pool@, moves@),
        moves@.len() > 0 ==> pool@.len() > 0,
{
    if level == levels::BEGINNER {
        return narrow_or_keep(state, copy_moves(moves), MoveFilter::AvoidsWin);
    }
    if level == levels::RANDOM {
        proof {
            lemma_drawn_refl(moves@);
        }
        return copy_moves(moves);
    }
    if level >= levels::TWO_PLY {
        return best_moves_for_red(state, moves, Depth::TwoPly);
    }
    if level >= levels::ONE_PLY {
        return best_moves_for_red(state, moves, Depth::OnePly);
    }
    heuristic_pool(state, level, moves)
}

/// Red's move at the given level: one move of the selection pool, drawn at
/// random.
pub fn pick_move(state: &GameState, level: u32, moves: &[Move], rng: &mut rand::rngs::StdRng) -> (m:
    Move)
    requires
        moves@.len() > 0,
        in_range(moves@),
    ensures
        state@.selection_pool(level, moves@).contains(m),
        moves@.contains(m),
{
    let pool = selection_pool(state, level, moves);
    let m = pick_random(&pool, rng);
    m
}

/// Plays Red's move at the given level, if Red has a legal move; leaves
/// the state as it is if not.
pub fn computer_move(state: &mut GameState, level: u32, rng: &mut rand::rngs::StdRng)
    requires
        old(state)@.required_in_range(),
    ensures
        old(state)@.legal_moves().len() == 0 ==> *final(state) == *old(state),
        old(state)@.legal_moves().len() > 0 ==> exists|m: Move|
            #![trigger old(state)@.after_move(m.0, m.1, Cell::Red)]
            old(state)@.selection_pool(level, old(state)@.legal_moves()).contains(m) && old(
                state,
            )@.is_legal(m) && final(state)@ == old(state)@.after_move(m.0, m.1, Cell::Red),
        old(state)@.wf() ==> final(state)@.wf(),
{
    let moves = legal_moves(state);
    if moves.len() == 0 {
        return ;
    }
    let chosen = pick_move(state, level, &moves, rng);
    apply_move(state, chosen.0, chosen.1, Cell::Red);
}

} // verus!

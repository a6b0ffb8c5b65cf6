//! The game state, its mathematical model and the state transition.

use vstd::prelude::*;

use crate::board::{
    check_winner, count_on_line, is_board_full, is_full, lemma_line_indices,
    lemma_owned_line_survives, lemma_winner_is_line_owner, line_owner, winner, Cell, WIN_LINES,
};

verus! {

/// Whose turn it is, or how the game ended.
#[derive(Clone, Copy, Debug, PartialEq, Eq, Structural)]
pub enum GameStatus {
    BlueToMove,
    RedToMove,
    BlueWins,
    RedWins,
    Draw,
}

/// The whole game: nine sub-boards of nine squares and what is derived
/// from them.
#[derive(Debug, PartialEq, Eq)]
pub struct GameState {
    /// `cells[b][c]` is square `c` of sub-board `b`.
    pub cells: [[Cell; 9]; 9],
    /// The colour that won each sub-board, `Empty` while undecided.
    pub board_winners: [Cell; 9],
    /// Whether each sub-board has no empty square left.
    pub board_full: [bool; 9],
    /// The sub-board the next player must play in; `None` is free choice.
    pub required_board: Option<usize>,
    pub status: GameStatus,
    /// The latest square taken by each side, as (sub-board, square).
    pub last_blue: Option<(usize, usize)>,
    pub last_red: Option<(usize, usize)>,
}

/// The mathematical model of a `GameState`.
pub struct GameView {
    pub cells: Seq<Seq<Cell>>,
    pub board_winners: Seq<Cell>,
    pub board_full: Seq<bool>,
    pub required_board: Option<usize>,
    pub status: GameStatus,
    pub last_blue: Option<(usize, usize)>,
    pub last_red: Option<(usize, usize)>,
}

impl View for GameState {
    type V = GameView;

    open spec fn view(&self) -> GameView {
        GameView {
            cells: Seq::new(9, |b: int| self.cells@[b]@),
            board_winners: self.board_winners@,
            board_full: self.board_full@,
            required_board: self.required_board,
            status: self.status,
            last_blue: self.last_blue,
            last_red: self.last_red,
        }
    }
}

/// Meta-line `k` holds a sub-board of each colour, so neither can complete it.
pub open spec fn line_blocked(winners: Seq<Cell>, k: int) -> bool {
    count_on_line(winners, k, Cell::Blue) >= 1 && count_on_line(winners, k, Cell::Red) >= 1
}

/// Every one of the eight meta-lines is blocked: nobody can win any more.
pub open spec fn meta_dead(winners: Seq<Cell>) -> bool {
    forall|k: int| 0 <= k < 8 ==> #[trigger] line_blocked(winners, k)
}

/// Sub-board `b` is decided or full.
pub open spec fn settled(winners: Seq<Cell>, full: Seq<bool>, b: int) -> bool {
    winners[b] != Cell::Empty || full[b]
}

/// Every sub-board is decided or full.
pub open spec fn all_settled(winners: Seq<Cell>, full: Seq<bool>) -> bool {
    forall|b: int| 0 <= b < 9 ==> #[trigger] settled(winners, full, b)
}

/// How the game has ended, if it has: a meta-board winner, else a draw when
/// the meta-board is dead or every sub-board is settled.
pub open spec fn outcome(winners: Seq<Cell>, full: Seq<bool>) -> Option<GameStatus> {
    if winner(winners) == Cell::Blue {
        Some(GameStatus::BlueWins)
    } else if winner(winners) == Cell::Red {
        Some(GameStatus::RedWins)
    } else if meta_dead(winners) || all_settled(winners, full) {
        Some(GameStatus::Draw)
    } else {
        None
    }
}

/// The status of a game that goes on after `player` has moved.
pub open spec fn turn_after(prev: GameStatus, player: Cell) -> GameStatus {
    match player {
        Cell::Blue => GameStatus::RedToMove,
        Cell::Red => GameStatus::BlueToMove,
        Cell::Empty => prev,
    }
}

/// The status is one of the three final ones.
pub open spec fn is_terminal(status: GameStatus) -> bool {
    status == GameStatus::BlueWins || status == GameStatus::RedWins || status == GameStatus::Draw
}

/// Some line of `cells` holds three marks of `color`.
pub open spec fn owns_a_line(cells: Seq<Cell>, color: Cell) -> bool {
    exists|k: int| 0 <= k < 8 && #[trigger] line_owner(cells, k) == color
}

impl GameView {
    /// The state of a new game.
    pub open spec fn initial() -> GameView {
        GameView {
            cells: Seq::new(9, |b: int| Seq::new(9, |c: int| Cell::Empty)),
            board_winners: Seq::new(9, |b: int| Cell::Empty),
            board_full: Seq::new(9, |b: int| false),
            required_board: None,
            status: GameStatus::BlueToMove,
            last_blue: None,
            last_red: None,
        }
    }

    /// Nine sub-boards of nine squares, nine outcomes, nine flags.
    pub open spec fn shaped(self) -> bool {
        &&& self.cells.len() == 9
        &&& forall|b: int| 0 <= b < 9 ==> (#[trigger] self.cells[b]).len() == 9
        &&& self.board_winners.len() == 9
        &&& self.board_full.len() == 9
    }

    /// The required sub-board, if any, is one of the nine.
    pub open spec fn required_in_range(self) -> bool {
        self.required_board matches Some(r) ==> r < 9
    }

    /// The invariant of a game in play:
    /// every recorded sub-board winner owns a line of that sub-board;
    /// the full flags say which sub-boards have no empty square;
    /// a required sub-board exists and is not full;
    /// the status is final exactly as the sub-board outcomes make it so.
    pub open spec fn wf(self) -> bool {
        &&& self.shaped()
        &&& forall|b: int|
            0 <= b < 9 && self.board_winners[b] != Cell::Empty ==> owns_a_line(
                #[trigger] self.cells[b],
                self.board_winners[b],
            )
        &&& forall|b: int| 0 <= b < 9 ==> self.board_full[b] == is_full(#[trigger] self.cells[b])
        &&& self.required_board matches Some(r) ==> r < 9 && !self.board_full[r as int]
        &&& match outcome(self.board_winners, self.board_full) {
            Some(end) => self.status == end,
            None => !is_terminal(self.status),
        }
    }

    /// The state after `player` takes square `c` of sub-board `b`:
    /// the square is filled; the sub-board's winner is recorded if it had
    /// none; its full flag is recomputed; the mover's last square is noted;
    /// the next player is sent to sub-board `c` unless that one is full; and
    /// the status becomes the outcome, or else the other side's turn.
    pub open spec fn after_move(self, b: usize, c: usize, player: Cell) -> GameView {
        let board = self.cells[b as int].update(c as int, player);
        let won = if self.board_winners[b as int] == Cell::Empty {
            winner(board)
        } else {
            self.board_winners[b as int]
        };
        let winners = self.board_winners.update(b as int, won);
        let full = self.board_full.update(b as int, is_full(board));
        GameView {
            cells: self.cells.update(b as int, board),
            board_winners: winners,
            board_full: full,
            required_board: if full[c as int] {
                None
            } else {
                Some(c)
            },
            status: match outcome(winners, full) {
                Some(end) => end,
                None => turn_after(self.status, player),
            },
            last_blue: if player == Cell::Blue {
                Some((b, c))
            } else {
                self.last_blue
            },
            last_red: if player == Cell::Red {
                Some((b, c))
            } else {
                self.last_red
            },
        }
    }
}

impl Clone for GameState {
    fn clone(&self) -> (copy: Self)
        ensures
            copy == *self,
    {
        GameState {
            cells: self.cells,
            board_winners: self.board_winners,
            board_full: self.board_full,
            required_board: self.required_board,
            status: self.status,
            last_blue: self.last_blue,
            last_red: self.last_red,
        }
    }
}

impl GameState {
    /// A new game: every square empty, Blue to move, free choice.
    pub fn new() -> (game: Self)
        ensures
            game@ == GameView::initial(),
            game@.wf(),
    {
        let row = [Cell::Empty;9];
        let game = GameState {
            cells: [row;9],
            board_winners: [Cell::Empty;9],
            board_full: [false;9],
            required_board: None,
            status: GameStatus::BlueToMove,
            last_blue: None,
            last_red: None,
        };
        proof {
            lemma_initial_wf();
            assert forall|b: int| 0 <= b < 9 implies game@.cells[b] =~= GameView::initial().cells[b] by {}
            assert(game@.cells =~= GameView::initial().cells);
            assert(game@.board_winners =~= GameView::initial().board_winners);
            assert(game@.board_full =~= GameView::initial().board_full);
        }
        game
    }
}

/// A new game satisfies the invariant.
pub proof fn lemma_initial_wf()
    ensures
        GameView::initial().wf(),
{
    let g = GameView::initial();
    reveal_with_fuel(crate::board::winner_from, 9);
    assert(!line_blocked(g.board_winners, 0));
    assert(!settled(g.board_winners, g.board_full, 0));
}

/// A placement fills its square and touches no other.
pub proof fn lemma_move_fills_one_square(s: GameView, b: usize, c: usize, player: Cell)
    requires
        s.shaped(),
        b < 9,
        c < 9,
    ensures
        s.after_move(b, c, player).shaped(),
        s.after_move(b, c, player).cells[b as int][c as int] == player,
        forall|i: int, j: int|
            0 <= i < 9 && 0 <= j < 9 && !(i == b && j == c) ==> s.after_move(
                b,
                c,
                player,
            ).cells[i][j] == s.cells[i][j],
{
}

/// A sub-board's winner, once recorded, is never changed, and no other
/// sub-board's outcome is touched by a placement.
pub proof fn lemma_winners_are_kept(s: GameView, b: usize, c: usize, player: Cell)
    requires
        s.shaped(),
        b < 9,
        c < 9,
    ensures
        forall|i: int|
            0 <= i < 9 && (s.board_winners[i] != Cell::Empty || i != b) ==> s.after_move(
                b,
                c,
                player,
            ).board_winners[i] == s.board_winners[i],
{
}

/// After any placement the next player is sent to the sub-board named by
/// the square just taken, unless that sub-board is full.
pub proof fn lemma_required_board_is_open(s: GameView, b: usize, c: usize, player: Cell)
    requires
        s.shaped(),
        b < 9,
        c < 9,
    ensures
        ({
            let after = s.after_move(b, c, player);
            &&& after.required_in_range()
            &&& after.required_board == if after.board_full[c as int] {
                None
            } else {
                Some(c)
            }
        }),
{
}

/// The status after a placement by Blue or Red is a function of the
/// sub-board outcomes and full flags alone: the outcome when there is one,
/// else the other side's turn.
pub proof fn lemma_status_is_derived(s: GameView, b: usize, c: usize, player: Cell)
    requires
        player != Cell::Empty,
    ensures
        ({
            let after = s.after_move(b, c, player);
            after.status == match outcome(after.board_winners, after.board_full) {
                Some(end) => end,
                None => if player == Cell::Blue {
                    GameStatus::RedToMove
                } else {
                    GameStatus::BlueToMove
                },
            }
        }),
{
}

/// A dead meta-board without a winner is a draw, whatever is still playable.
pub proof fn lemma_dead_meta_is_draw(s: GameView, b: usize, c: usize, player: Cell)
    requires
        ({
            let after = s.after_move(b, c, player);
            meta_dead(after.board_winners) && winner(after.board_winners) == Cell::Empty
        }),
    ensures
        s.after_move(b, c, player).status == GameStatus::Draw,
{
}

/// Placing a mark on an empty square keeps the invariant.
pub proof fn lemma_move_preserves_wf(s: GameView, b: usize, c: usize, player: Cell)
    requires
        s.wf(),
        b < 9,
        c < 9,
        s.cells[b as int][c as int] == Cell::Empty,
        player != Cell::Empty,
    ensures
        s.after_move(b, c, player).wf(),
{
    let after = s.after_move(b, c, player);
    let board = s.cells[b as int].update(c as int, player);
    assert forall|i: int| 0 <= i < 9 && after.board_winners[i] != Cell::Empty implies owns_a_line(
        #[trigger] after.cells[i],
        after.board_winners[i],
    ) by {
        if i == b {
            if s.board_winners[i] == Cell::Empty {
                lemma_winner_is_line_owner(board);
            } else {
                let k = choose|k: int|
                    0 <= k < 8 && #[trigger] line_owner(s.cells[i], k) == s.board_winners[i];
                lemma_owned_line_survives(s.cells[i], c as int, player, k);
            }
        }
    }
}

/// A finished game stays finished: after a placement on an empty square of
/// a game whose status is final, the status is final again.
pub proof fn lemma_terminal_is_absorbing(s: GameView, b: usize, c: usize, player: Cell)
    requires
        s.wf(),
        is_terminal(s.status),
        b < 9,
        c < 9,
        s.cells[b as int][c as int] == Cell::Empty,
    ensures
        is_terminal(s.after_move(b, c, player).status),
{
    let after = s.after_move(b, c, player);
    if winner(s.board_winners) != Cell::Empty {
        lemma_winner_is_line_owner(s.board_winners);
        let k = choose|k: int|
            0 <= k < 8 && #[trigger] line_owner(s.board_winners, k) == winner(s.board_winners);
        lemma_line_indices(k);
        assert(line_owner(after.board_winners, k) != Cell::Empty);
        lemma_winner_is_line_owner(after.board_winners);
        assert(outcome(after.board_winners, after.board_full) is Some);
    } else if meta_dead(s.board_winners) {
        assert forall|k: int| 0 <= k < 8 implies #[trigger] line_blocked(after.board_winners, k) by {
            assert(line_blocked(s.board_winners, k));
            lemma_line_indices(k);
        }
    } else {
        assert forall|i: int| 0 <= i < 9 implies #[trigger] settled(
            after.board_winners,
            after.board_full,
            i,
        ) by {
            assert(settled(s.board_winners, s.board_full, i));
        }
    }
}

/// Whether every meta-line already holds a sub-board of each colour.
pub fn is_meta_dead(board_winners: &[Cell; 9]) -> (dead: bool)
    ensures
        dead == meta_dead(board_winners@),
{
    let mut k: usize = 0;
    while k < 8
        invariant
            k <= 8,
            forall|j: int| 0 <= j < k ==> #[trigger] line_blocked(board_winners@, j),
        decreases 8 - k,
    {
        let l = WIN_LINES[k];
        let has_blue = board_winners[l[0]] == Cell::Blue || board_winners[l[1]] == Cell::Blue
            || board_winners[l[2]] == Cell::Blue;
        let has_red = board_winners[l[0]] == Cell::Red || board_winners[l[1]] == Cell::Red
            || board_winners[l[2]] == Cell::Red;
        if !(has_blue && has_red) {
            assert(!line_blocked(board_winners@, k as int));
            return false;
        }
        k += 1;
    }
    true
}

/// Whether every sub-board is decided or full.
fn all_boards_settled(board_winners: &[Cell; 9], board_full: &[bool; 9]) -> (all: bool)
    ensures
        all == all_settled(board_winners@, board_full@),
{
    let mut b: usize = 0;
    while b < 9
        invariant
            b <= 9,
            forall|j: int| 0 <= j < b ==> #[trigger] settled(board_winners@, board_full@, j),
        decreases 9 - b,
    {
        if !(board_winners[b] != Cell::Empty || board_full[b]) {
            assert(!settled(board_winners@, board_full@, b as int));
            return false;
        }
        b += 1;
    }
    true
}

/// Commits one placement and recomputes everything derived from it.
/// Legality is the caller's business: the placement is made as given.
pub fn apply_move(state: &mut GameState, board_idx: usize, cell_idx: usize, player: Cell)
    requires
        board_idx < 9,
        cell_idx < 9,
    ensures
        final(state)@ == old(state)@.after_move(board_idx, cell_idx, player),
        old(state)@.wf() && old(state)@.cells[board_idx as int][cell_idx as int] == Cell::Empty
            && player != Cell::Empty ==> final(state)@.wf(),
{
    proof {
        if old(state)@.wf() && old(state)@.cells[board_idx as int][cell_idx as int] == Cell::Empty
            && player != Cell::Empty {
            lemma_move_preserves_wf(old(state)@, board_idx, cell_idx, player);
        }
    }
    state.cells[board_idx][cell_idx] = player;

    if state.board_winners[board_idx] == Cell::Empty {
        let winner = check_winner(&state.cells[board_idx]);
        if winner != Cell::Empty {
            state.board_winners[board_idx] = winner;
        }
    }
    state.board_full[board_idx] = is_board_full(&state.cells[board_idx]);

    match player {
        Cell::Blue => state.last_blue = Some((board_idx, cell_idx)),
        Cell::Red => state.last_red = Some((board_idx, cell_idx)),
        _ => {},
    }

    if state.board_full[cell_idx] {
        state.required_board = None;
    } else {
        state.required_board = Some(cell_idx);
    }

    let meta_winner = check_winner(&state.board_winners);
    if meta_winner == Cell::Blue {
        state.status = GameStatus::BlueWins;
    } else if meta_winner == Cell::Red {
        state.status = GameStatus::RedWins;
    } else if is_meta_dead(&state.board_winners) || all_boards_settled(
        &state.board_winners,
        &state.board_full,
    ) {
        state.status = GameStatus::Draw;
    } else {
        state.status = match player {
            Cell::Blue => GameStatus::RedToMove,
            Cell::Red => GameStatus::BlueToMove,
            _ => state.status,
        };
    }
    proof {
        let after = old(state)@.after_move(board_idx, cell_idx, player);
        assert(state@.cells =~= after.cells);
        assert(state@.board_winners =~= after.board_winners);
    }
}

} // verus!

//! A single 3x3 board: cells, win lines, the win detector and the tactical
//! predicates built on it.
//!
//! The same nine-cell board stands both for a sub-board (nine squares) and
//! for the meta-board (the nine sub-board outcomes).

use vstd::prelude::*;

verus! {

/// The eight three-in-a-row lines of a 3x3 board, in scan order:
/// rows, then columns, then the two diagonals.
pub const WIN_LINES: [[usize; 3]; 8] = [
    [0, 1, 2],
    [3, 4, 5],
    [6, 7, 8],
    [0, 3, 6],
    [1, 4, 7],
    [2, 5, 8],
    [0, 4, 8],
    [2, 4, 6],
];

/// The content of one square, or the outcome of one sub-board.
#[derive(Clone, Copy, Debug, PartialEq, Eq, Structural)]
pub enum Cell {
    Empty,
    Blue,
    Red,
}

/// The three indices of line `k`.
pub open spec fn line(k: int) -> (int, int, int) {
    (WIN_LINES[k][0] as int, WIN_LINES[k][1] as int, WIN_LINES[k][2] as int)
}

/// Line `k` passes through index `idx`.
pub open spec fn line_through(k: int, idx: int) -> bool {
    line(k).0 == idx || line(k).1 == idx || line(k).2 == idx
}

/// The colour that owns line `k` of `cells`: the common colour of its three
/// squares, or `Empty` when they differ or are empty.
pub open spec fn line_owner(cells: Seq<Cell>, k: int) -> Cell {
    let (a, b, c) = line(k);
    if cells[a] != Cell::Empty && cells[a] == cells[b] && cells[a] == cells[c] {
        cells[a]
    } else {
        Cell::Empty
    }
}

/// The owner of the first owned line at or after `k`, in scan order.
pub open spec fn winner_from(cells: Seq<Cell>, k: int) -> Cell
    decreases 8 - k,
{
    if k < 0 || k >= 8 {
        Cell::Empty
    } else if line_owner(cells, k) != Cell::Empty {
        line_owner(cells, k)
    } else {
        winner_from(cells, k + 1)
    }
}

/// The winner of a board: the owner of its first owned line, else `Empty`.
pub open spec fn winner(cells: Seq<Cell>) -> Cell {
    winner_from(cells, 0)
}

/// How many of the three squares of line `k` hold `who`.
pub open spec fn count_on_line(cells: Seq<Cell>, k: int, who: Cell) -> int {
    let (a, b, c) = line(k);
    (if cells[a] == who { 1int } else { 0 })
        + (if cells[b] == who { 1int } else { 0 })
        + (if cells[c] == who { 1int } else { 0 })
}

/// How many squares of `cells` hold `who`.
pub open spec fn count_of(cells: Seq<Cell>, who: Cell) -> nat
    decreases cells.len(),
{
    if cells.len() == 0 {
        0
    } else {
        count_of(cells.drop_last(), who) + if cells.last() == who { 1nat } else { 0 }
    }
}

/// No square of the board is empty.
pub open spec fn is_full(cells: Seq<Cell>) -> bool {
    forall|i: int| 0 <= i < cells.len() ==> cells[i] != Cell::Empty
}

/// Every square of the board is empty.
pub open spec fn is_blank(cells: Seq<Cell>) -> bool {
    forall|i: int| 0 <= i < cells.len() ==> cells[i] == Cell::Empty
}

/// Putting `player` on square `idx` leaves `player` as the board's winner.
pub open spec fn would_win(cells: Seq<Cell>, idx: int, player: Cell) -> bool {
    winner(cells.update(idx, player)) == player
}

/// Square `idx` is empty and `player` would win the board by taking it.
pub open spec fn is_winning_cell(cells: Seq<Cell>, idx: int, player: Cell) -> bool {
    cells[idx] == Cell::Empty && would_win(cells, idx, player)
}

/// `player` has a square on which to win the board at once.
pub open spec fn has_winning_cell(cells: Seq<Cell>, player: Cell) -> bool {
    exists|i: int| 0 <= i < 9 && #[trigger] is_winning_cell(cells, i, player)
}

/// Line `k` holds two marks of `player` and one empty square.
pub open spec fn threat_on_line(cells: Seq<Cell>, k: int, player: Cell) -> bool {
    count_on_line(cells, k, player) == 2 && count_on_line(cells, k, Cell::Empty) == 1
}

/// Line `k` passes through `idx` and is a threat of `player` on `cells`.
pub open spec fn threat_through(cells: Seq<Cell>, k: int, idx: int, player: Cell) -> bool {
    line_through(k, idx) && threat_on_line(cells, k, player)
}

/// After `player` takes index `idx`, some line through `idx` holds two of
/// `player`'s marks and one empty slot.
pub open spec fn makes_threat(cells: Seq<Cell>, idx: int, player: Cell) -> bool {
    exists|k: int| 0 <= k < 8 && #[trigger] threat_through(cells.update(idx, player), k, idx, player)
}

/// After `player` takes square `idx`, at least two distinct empty squares
/// would each win the board for `player`.
pub open spec fn makes_fork(cells: Seq<Cell>, idx: int, player: Cell) -> bool {
    let after = cells.update(idx, player);
    exists|i: int, j: int|
        0 <= i < j < 9 && #[trigger] is_winning_cell(after, i, player) && #[trigger] is_winning_cell(
            after,
            j,
            player,
        )
}

/// Square `idx` is empty and `player` would make a fork by taking it.
pub open spec fn is_fork_cell(cells: Seq<Cell>, idx: int, player: Cell) -> bool {
    cells[idx] == Cell::Empty && makes_fork(cells, idx, player)
}

/// `player` has a square on which to make a fork.
pub open spec fn has_fork_cell(cells: Seq<Cell>, player: Cell) -> bool {
    exists|i: int| 0 <= i < 9 && #[trigger] is_fork_cell(cells, i, player)
}

/// The three squares of a line are distinct squares of the board, in
/// ascending order.
pub proof fn lemma_line_indices(k: int)
    requires
        0 <= k < 8,
    ensures
        0 <= line(k).0 < line(k).1 < line(k).2 < 9,
{
}

/// Filling an empty square disturbs no line that is already owned.
pub proof fn lemma_owned_line_survives(cells: Seq<Cell>, idx: int, player: Cell, k: int)
    requires
        cells.len() == 9,
        0 <= idx < 9,
        0 <= k < 8,
        cells[idx] == Cell::Empty,
        line_owner(cells, k) != Cell::Empty,
    ensures
        line_owner(cells.update(idx, player), k) == line_owner(cells, k),
{
    lemma_line_indices(k);
}

/// The winner is the owner of some line, and there is none exactly when no
/// line is owned.
pub proof fn lemma_winner_is_line_owner(cells: Seq<Cell>)
    ensures
        winner(cells) != Cell::Empty ==> exists|k: int|
            0 <= k < 8 && #[trigger] line_owner(cells, k) == winner(cells),
        winner(cells) == Cell::Empty <==> forall|k: int|
            0 <= k < 8 ==> #[trigger] line_owner(cells, k) == Cell::Empty,
{
    reveal_with_fuel(winner_from, 9);
}

/// Three equal marks on one line, and on no other, give that line's colour;
/// this holds for each of the eight lines.
pub proof fn lemma_single_line_wins(cells: Seq<Cell>, k: int, color: Cell)
    requires
        0 <= k < 8,
        color != Cell::Empty,
        cells[line(k).0] == color,
        cells[line(k).1] == color,
        cells[line(k).2] == color,
        forall|j: int| 0 <= j < 8 && j != k ==> #[trigger] line_owner(cells, j) == Cell::Empty,
    ensures
        winner(cells) == color,
{
    reveal_with_fuel(winner_from, 9);
}

/// A board without three equal marks on any line has no winner.
pub proof fn lemma_no_line_no_winner(cells: Seq<Cell>)
    requires
        forall|k: int| 0 <= k < 8 ==> #[trigger] line_owner(cells, k) == Cell::Empty,
    ensures
        winner(cells) == Cell::Empty,
{
    lemma_winner_is_line_owner(cells);
}

/// On a board without a winner, taking an empty square wins for `player`
/// exactly when some line through the square already holds two of
/// `player`'s marks.
pub proof fn lemma_win_completes_a_line(cells: Seq<Cell>, idx: int, player: Cell)
    requires
        cells.len() == 9,
        0 <= idx < 9,
        player != Cell::Empty,
        cells[idx] == Cell::Empty,
        winner(cells) == Cell::Empty,
    ensures
        would_win(cells, idx, player) <==> exists|k: int|
            0 <= k < 8 && line_through(k, idx) && #[trigger] count_on_line(cells, k, player) == 2,
{
    let after = cells.update(idx, player);
    lemma_winner_is_line_owner(cells);
    lemma_winner_is_line_owner(after);
    assert forall|k: int| 0 <= k < 8 implies (#[trigger] line_owner(after, k) == player <==> (
    line_through(k, idx) && count_on_line(cells, k, player) == 2)) && (line_owner(after, k)
        == Cell::Empty || line_owner(after, k) == player) by {
        lemma_line_indices(k);
        assert(line_owner(cells, k) == Cell::Empty);
    }
    if exists|k: int|
        0 <= k < 8 && line_through(k, idx) && #[trigger] count_on_line(cells, k, player) == 2 {
        let k = choose|k: int|
            0 <= k < 8 && line_through(k, idx) && #[trigger] count_on_line(cells, k, player) == 2;
        assert(line_owner(after, k) == player);
    }
}

/// Scans the eight lines in order and returns the colour of the first one
/// that holds three equal marks, or `Empty`.
pub fn check_winner(cells: &[Cell; 9]) -> (w: Cell)
    ensures
        w == winner(cells@),
        w != Cell::Empty ==> exists|k: int| 0 <= k < 8 && #[trigger] line_owner(cells@, k) == w,
        w == Cell::Empty <==> forall|k: int|
            0 <= k < 8 ==> #[trigger] line_owner(cells@, k) == Cell::Empty,
{
    proof {
        lemma_winner_is_line_owner(cells@);
    }
    let mut k: usize = 0;
    while k < 8
        invariant
            k <= 8,
            winner(cells@) == winner_from(cells@, k as int),
        decreases 8 - k,
    {
        let l = WIN_LINES[k];
        let a = cells[l[0]];
        if a != Cell::Empty && a == cells[l[1]] && a == cells[l[2]] {
            return a;
        }
        k += 1;
    }
    Cell::Empty
}

/// Whether no square of the board is empty.
pub fn is_board_full(cells: &[Cell; 9]) -> (full: bool)
    ensures
        full == is_full(cells@),
{
    let mut i: usize = 0;
    while i < 9
        invariant
            i <= 9,
            forall|j: int| 0 <= j < i ==> cells@[j] != Cell::Empty,
        decreases 9 - i,
    {
        if cells[i] == Cell::Empty {
            return false;
        }
        i += 1;
    }
    true
}

/// Whether every square of the board is empty.
pub fn is_board_blank(cells: &[Cell; 9]) -> (blank: bool)
    ensures
        blank == is_blank(cells@),
{
    let mut i: usize = 0;
    while i < 9
        invariant
            i <= 9,
            forall|j: int| 0 <= j < i ==> cells@[j] == Cell::Empty,
        decreases 9 - i,
    {
        if cells[i] != Cell::Empty {
            return false;
        }
        i += 1;
    }
    true
}

/// Counts the squares of the board that hold `who`.
pub fn count_cells(cells: &[Cell; 9], who: Cell) -> (n: usize)
    ensures
        n == count_of(cells@, who),
        n <= 9,
{
    let mut n: usize = 0;
    let mut i: usize = 0;
    while i < 9
        invariant
            i <= 9,
            n <= i,
            n == count_of(cells@.take(i as int), who),
        decreases 9 - i,
    {
        proof {
            let next = cells@.take(i + 1);
            assert(next.drop_last() == cells@.take(i as int));
        }
        if cells[i] == who {
            n += 1;
        }
        i += 1;
    }
    proof {
        assert(cells@.take(9) == cells@);
    }
    n
}

/// Whether `player`, placed on square `cell_idx`, wins the sub-board.
pub fn would_win_board(cells: &[Cell; 9], cell_idx: usize, player: Cell) -> (wins: bool)
    requires
        cell_idx < 9,
    ensures
        wins == would_win(cells@, cell_idx as int, player),
{
    let mut test = *cells;
    test[cell_idx] = player;
    check_winner(&test) == player
}

/// Whether `player`, credited with sub-board `board_idx`, wins the meta-board.
pub fn would_win_meta(board_winners: &[Cell; 9], board_idx: usize, player: Cell) -> (wins: bool)
    requires
        board_idx < 9,
    ensures
        wins == would_win(board_winners@, board_idx as int, player),
{
    let mut test = *board_winners;
    test[board_idx] = player;
    check_winner(&test) == player
}

/// Counts the marks of `who` on line `k`.
fn count_line(cells: &[Cell; 9], k: usize, who: Cell) -> (n: usize)
    requires
        k < 8,
    ensures
        n == count_on_line(cells@, k as int, who),
{
    let l = WIN_LINES[k];
    let mut n: usize = 0;
    if cells[l[0]] == who {
        n += 1;
    }
    if cells[l[1]] == who {
        n += 1;
    }
    if cells[l[2]] == who {
        n += 1;
    }
    n
}

/// Whether line `k` passes through `idx`.
fn line_contains(k: usize, idx: usize) -> (r: bool)
    requires
        k < 8,
    ensures
        r == line_through(k as int, idx as int),
{
    let l = WIN_LINES[k];
    l[0] == idx || l[1] == idx || l[2] == idx
}

/// Whether `player`, credited with sub-board `board_idx`, then has a
/// meta-line through it with two of its marks and one open slot.
pub fn creates_meta_threat(board_winners: &[Cell; 9], board_idx: usize, player: Cell) -> (threat:
    bool)
    requires
        board_idx < 9,
    ensures
        threat == makes_threat(board_winners@, board_idx as int, player),
{
    let mut test = *board_winners;
    test[board_idx] = player;
    let mut k: usize = 0;
    while k < 8
        invariant
            k <= 8,
            board_idx < 9,
            test@ == board_winners@.update(board_idx as int, player),
            forall|j: int| 0 <= j < k ==> !#[trigger] threat_through(test@, j, board_idx as int, player),
        decreases 8 - k,
    {
        if line_contains(k, board_idx) {
            let count = count_line(&test, k, player);
            let empty = count_line(&test, k, Cell::Empty);
            if count == 2 && empty == 1 {
                assert(threat_through(test@, k as int, board_idx as int, player));
                return true;
            }
        }
        k += 1;
    }
    false
}

/// Whether `player`, placed on square `cell_idx`, then has at least two
/// empty squares that each win the sub-board.
pub fn creates_fork(cells: &[Cell; 9], cell_idx: usize, player: Cell) -> (fork: bool)
    requires
        cell_idx < 9,
    ensures
        fork == makes_fork(cells@, cell_idx as int, player),
{
    let mut test = *cells;
    test[cell_idx] = player;
    let mut threats: usize = 0;
    let mut i: usize = 0;
    while i < 9
        invariant
            i <= 9,
            threats <= i,
            test@ == cells@.update(cell_idx as int, player),
            threats >= 1 <==> exists|a: int| 0 <= a < i && #[trigger] is_winning_cell(test@, a, player),
            threats >= 2 <==> exists|a: int, b: int|
                0 <= a < b < i && #[trigger] is_winning_cell(test@, a, player)
                    && #[trigger] is_winning_cell(test@, b, player),
        decreases 9 - i,
    {
        if test[i] == Cell::Empty && would_win_board(&test, i, player) {
            assert(is_winning_cell(test@, i as int, player));
            proof {
                if threats >= 1 {
                    let a = choose|a: int| 0 <= a < i && #[trigger] is_winning_cell(test@, a, player);
                    assert(is_winning_cell(test@, a, player) && is_winning_cell(
                        test@,
                        i as int,
                        player,
                    ));
                }
            }
            threats += 1;
        }
        i += 1;
    }
    threats >= 2
}

/// Whether `player` has an empty square on which it wins the board at once.
pub fn can_win_board(cells: &[Cell; 9], player: Cell) -> (r: bool)
    ensures
        r == has_winning_cell(cells@, player),
{
    let mut i: usize = 0;
    while i < 9
        invariant
            i <= 9,
            forall|j: int| 0 <= j < i ==> !#[trigger] is_winning_cell(cells@, j, player),
        decreases 9 - i,
    {
        if cells[i] == Cell::Empty && would_win_board(cells, i, player) {
            assert(is_winning_cell(cells@, i as int, player));
            return true;
        }
        i += 1;
    }
    false
}

/// Whether `player` has an empty square on which it makes a fork.
pub fn can_fork_board(cells: &[Cell; 9], player: Cell) -> (r: bool)
    ensures
        r == has_fork_cell(cells@, player),
{
    let mut i: usize = 0;
    while i < 9
        invariant
            i <= 9,
            forall|j: int| 0 <= j < i ==> !#[trigger] is_fork_cell(cells@, j, player),
        decreases 9 - i,
    {
        if cells[i] == Cell::Empty && creates_fork(cells, i, player) {
            assert(is_fork_cell(cells@, i as int, player));
            return true;
        }
        i += 1;
    }
    false
}

} // verus!

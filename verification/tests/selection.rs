use rand::rngs::StdRng;
use rand::SeedableRng;
use ultimate_ttt::{
    computer_move, legal_moves, narrow, pick_move, pick_random, prefer_center, prefer_corners,
    selection_pool, Cell, GameState, GameStatus, MoveFilter,
};

fn red_to_move(required: Option<usize>) -> GameState {
    let mut game = GameState::new();
    game.status = GameStatus::RedToMove;
    game.required_board = required;
    game
}

fn put(game: &mut GameState, board: usize, marks: &[(usize, Cell)]) {
    for &(c, mark) in marks {
        game.cells[board][c] = mark;
    }
}

fn only_open(game: &mut GameState, open: &[usize]) {
    for b in 0..9 {
        game.board_full[b] = !open.contains(&b);
    }
}

const B: Cell = Cell::Blue;
const R: Cell = Cell::Red;

/// Sub-board 0 with two of Red on the top row.
fn red_can_win_board_zero() -> GameState {
    let mut game = red_to_move(Some(0));
    put(&mut game, 0, &[(0, R), (1, R)]);
    game
}

/// Three destinations with five empty squares each: in sub-board 1 Blue can
/// win, in sub-board 2 Blue can fork, sub-board 3 is harmless.
fn three_destinations() -> GameState {
    let mut game = red_to_move(Some(0));
    put(&mut game, 1, &[(0, B), (1, B), (3, R), (6, R)]);
    put(&mut game, 2, &[(1, B), (3, B), (5, R), (8, R)]);
    put(&mut game, 3, &[(1, B), (7, B), (3, R), (4, R)]);
    game
}

#[test]
fn level_zero_leaves_the_winning_square() {
    let game = red_can_win_board_zero();
    let moves = legal_moves(&game);
    assert_eq!(
        selection_pool(&game, 0, &moves),
        vec![(0, 3), (0, 4), (0, 5), (0, 6), (0, 7), (0, 8)]
    );
    for seed in 0..40 {
        let mut rng = StdRng::seed_from_u64(seed);
        let mut played = game.clone();
        computer_move(&mut played, 0, &mut rng);
        assert_eq!(played.cells[0][2], Cell::Empty);
        assert_eq!(played.board_winners[0], Cell::Empty);
        assert_eq!(played.status, GameStatus::BlueToMove);
    }
}

#[test]
fn level_zero_wins_when_every_move_wins() {
    let mut game = red_to_move(Some(0));
    put(&mut game, 0, &[(0, R), (1, R), (3, R), (4, R)]);
    let moves = legal_moves(&game);
    assert_eq!(moves, vec![(0, 2), (0, 5), (0, 6), (0, 7), (0, 8)]);
    assert_eq!(selection_pool(&game, 0, &moves), moves);
}

#[test]
fn level_one_keeps_every_move() {
    let game = red_can_win_board_zero();
    let moves = legal_moves(&game);
    assert_eq!(selection_pool(&game, 1, &moves), moves);
    let game = GameState::new();
    let moves = legal_moves(&game);
    assert_eq!(selection_pool(&game, 1, &moves), moves);
}

#[test]
fn from_level_two_red_wins_a_board() {
    let game = red_can_win_board_zero();
    let moves = legal_moves(&game);
    for level in 2..=25 {
        assert_eq!(selection_pool(&game, level, &moves), vec![(0, 2)]);
    }
    let mut rng = StdRng::seed_from_u64(1);
    let mut played = game.clone();
    computer_move(&mut played, 2, &mut rng);
    assert_eq!(played.board_winners[0], Cell::Red);
    assert_eq!(played.last_red, Some((0, 2)));
}

#[test]
fn from_level_three_red_blocks() {
    let mut game = red_to_move(Some(0));
    put(&mut game, 0, &[(0, B), (1, B)]);
    let moves = legal_moves(&game);
    assert_eq!(selection_pool(&game, 2, &moves), moves);
    for level in 3..=19 {
        assert_eq!(selection_pool(&game, level, &moves), vec![(0, 2)]);
    }
}

#[test]
fn win_is_taken_before_block() {
    let mut game = red_to_move(Some(0));
    put(&mut game, 0, &[(0, B), (1, B), (3, R), (4, R)]);
    let moves = legal_moves(&game);
    for level in 2..=19 {
        assert_eq!(selection_pool(&game, level, &moves), vec![(0, 5)]);
    }
}

#[test]
fn won_board_is_neither_won_again_nor_blocked() {
    let mut game = red_to_move(Some(0));
    put(&mut game, 0, &[(0, B), (1, B), (3, R), (4, R)]);
    game.board_winners[0] = Cell::Blue;
    let moves = legal_moves(&game);
    assert!(narrow(&game, &moves, MoveFilter::WinsBoard(R)).is_empty());
    assert!(narrow(&game, &moves, MoveFilter::WinsBoard(B)).is_empty());
    // Level 0 looks at the squares only.
    assert_eq!(
        narrow(&game, &moves, MoveFilter::AvoidsWin),
        vec![(0, 2), (0, 6), (0, 7), (0, 8)]
    );
}

#[test]
fn level_eleven_prefers_the_win_that_defends() {
    let mut game = red_to_move(None);
    only_open(&mut game, &[2, 5]);
    game.board_winners[0] = R;
    game.board_winners[1] = R;
    put(&mut game, 2, &[(0, R), (1, R)]);
    put(&mut game, 5, &[(0, R), (1, R), (3, B), (4, B)]);
    let moves = legal_moves(&game);
    assert_eq!(moves.len(), 7 + 5);
    for level in 2..=10 {
        assert_eq!(selection_pool(&game, level, &moves), vec![(2, 2), (5, 2)]);
    }
    assert_eq!(selection_pool(&game, 11, &moves), vec![(5, 2)]);
}

#[test]
fn level_twelve_prefers_the_win_of_the_game() {
    let mut game = red_to_move(None);
    only_open(&mut game, &[2, 5]);
    game.board_winners[0] = R;
    game.board_winners[1] = R;
    put(&mut game, 2, &[(0, R), (1, R)]);
    put(&mut game, 5, &[(0, R), (1, R), (3, B), (4, B)]);
    let moves = legal_moves(&game);
    for level in 12..=19 {
        assert_eq!(selection_pool(&game, level, &moves), vec![(2, 2)]);
    }
}

#[test]
fn level_sixteen_prefers_the_win_that_threatens() {
    let mut game = red_to_move(None);
    only_open(&mut game, &[1, 5]);
    game.board_winners[0] = R;
    put(&mut game, 1, &[(0, R), (1, R)]);
    put(&mut game, 5, &[(0, R), (1, R)]);
    let moves = legal_moves(&game);
    for level in 2..=15 {
        assert_eq!(selection_pool(&game, level, &moves), vec![(1, 2), (5, 2)]);
    }
    for level in 16..=19 {
        assert_eq!(selection_pool(&game, level, &moves), vec![(1, 2)]);
    }
}

#[test]
fn level_thirteen_prefers_the_block_that_saves_the_game() {
    let mut game = red_to_move(None);
    only_open(&mut game, &[2, 5]);
    game.board_winners[0] = B;
    game.board_winners[1] = B;
    put(&mut game, 2, &[(0, B), (1, B)]);
    put(&mut game, 5, &[(0, B), (1, B)]);
    let moves = legal_moves(&game);
    for level in 3..=12 {
        assert_eq!(selection_pool(&game, level, &moves), vec![(2, 2), (5, 2)]);
    }
    for level in 13..=19 {
        assert_eq!(selection_pool(&game, level, &moves), vec![(2, 2)]);
    }
}

#[test]
fn from_level_four_red_takes_the_forking_square() {
    let mut game = red_to_move(Some(0));
    put(&mut game, 0, &[(1, B), (3, B)]);
    let moves = legal_moves(&game);
    assert_eq!(selection_pool(&game, 3, &moves), moves);
    assert_eq!(selection_pool(&game, 4, &moves), vec![(0, 0), (0, 4)]);
    assert_eq!(selection_pool(&game, 19, &moves), vec![(0, 0), (0, 4)]);
}

#[test]
fn at_level_nineteen_red_makes_a_fork() {
    let mut game = red_to_move(Some(0));
    put(&mut game, 0, &[(1, R), (3, R)]);
    let moves = legal_moves(&game);
    // Below level 19 the destination decides: every other sub-board is
    // empty, and the centre square is preferred from level 14.
    assert_eq!(selection_pool(&game, 18, &moves), vec![(0, 4)]);
    assert_eq!(selection_pool(&game, 19, &moves), vec![(0, 0), (0, 4)]);
}

#[test]
fn safety_filters_come_level_by_level() {
    let game = three_destinations();
    let moves = vec![(0, 1), (0, 2), (0, 3)];
    for level in 2..=7 {
        assert_eq!(selection_pool(&game, level, &moves), moves);
    }
    assert_eq!(selection_pool(&game, 8, &moves), vec![(0, 2), (0, 3)]);
    for level in 9..=19 {
        assert_eq!(selection_pool(&game, level, &moves), vec![(0, 3)]);
    }
}

#[test]
fn filter_that_leaves_nothing_is_passed_over() {
    let game = three_destinations();
    // Sub-board 1 lets Blue win and sub-board 2 lets Blue fork: from level 9
    // neither passes, and the pool stays as the level 8 filter left it.
    let moves = vec![(0, 1), (0, 2)];
    assert_eq!(selection_pool(&game, 7, &moves), moves);
    assert_eq!(selection_pool(&game, 8, &moves), vec![(0, 2)]);
    assert_eq!(selection_pool(&game, 9, &moves), vec![(0, 2)]);
    let moves = vec![(0, 1)];
    for level in 2..=19 {
        assert_eq!(selection_pool(&game, level, &moves), moves);
    }
}

#[test]
fn each_destination_filter_alone() {
    let game = three_destinations();
    let moves = vec![(0, 1), (0, 2), (0, 3)];
    assert_eq!(narrow(&game, &moves, MoveFilter::QuietDest), moves);
    assert_eq!(
        narrow(&game, &moves, MoveFilter::NoBlueWinDest),
        vec![(0, 2), (0, 3)]
    );
    // In sub-board 1 Blue forks from the centre square as well.
    assert_eq!(
        narrow(&game, &moves, MoveFilter::NoBlueForkDest),
        vec![(0, 3)]
    );
    assert_eq!(narrow(&game, &moves, MoveFilter::OffBlueLineDest), moves);
    assert_eq!(narrow(&game, &moves, MoveFilter::NoMetaGainDest), moves);
    assert!(narrow(&game, &moves, MoveFilter::Trap).is_empty());
    assert!(narrow(&game, &moves, MoveFilter::BlankDest).is_empty());
    assert_eq!(narrow(&game, &moves, MoveFilter::RoomyDest(5)), moves);
    assert!(narrow(&game, &moves, MoveFilter::RoomyDest(9)).is_empty());
}

#[test]
fn closed_destination_passes_every_safety_filter() {
    let mut game = three_destinations();
    // Sub-board 1 is decided, sub-board 2 is flagged full.
    game.board_winners[1] = B;
    game.board_full[2] = true;
    let moves = vec![(0, 1), (0, 2)];
    for filter in [
        MoveFilter::QuietDest,
        MoveFilter::NoBlueWinDest,
        MoveFilter::NoBlueForkDest,
        MoveFilter::OffBlueLineDest,
        MoveFilter::NoMetaGainDest,
    ] {
        assert_eq!(narrow(&game, &moves, filter), moves);
    }
    // A full sub-board has no room.
    assert_eq!(
        narrow(&game, &moves, MoveFilter::RoomyDest(0)),
        vec![(0, 2)]
    );
}

#[test]
fn level_seven_avoids_boards_where_blue_leads() {
    let mut game = red_to_move(Some(0));
    put(&mut game, 0, &[(8, B)]);
    put(&mut game, 3, &[(0, R)]);
    for b in [1, 2, 4, 5, 6, 7, 8] {
        put(&mut game, b, &[(0, R), (1, B)]);
    }
    let moves = legal_moves(&game);
    assert_eq!(moves.len(), 8);
    // No destination is empty; below level 6 nothing decides.
    assert_eq!(selection_pool(&game, 5, &moves), moves);
    // Sub-boards 0 and 3 have eight empty squares, the others seven.
    assert_eq!(selection_pool(&game, 6, &moves), vec![(0, 0), (0, 3)]);
    // In sub-board 0 Blue has one square and Red none.
    assert_eq!(selection_pool(&game, 7, &moves), vec![(0, 3)]);
}

#[test]
fn at_level_seventeen_red_keeps_blue_off_its_meta_lines() {
    let mut game = red_to_move(Some(0));
    game.board_winners[3] = B;
    game.board_winners[4] = B;
    // Sub-board 5 completes 3-4-5 for Blue; sub-board 1 lies on no line
    // with two of Blue.
    let moves = vec![(0, 5), (0, 1)];
    assert_eq!(selection_pool(&game, 16, &moves), moves);
    assert_eq!(selection_pool(&game, 17, &moves), vec![(0, 1)]);
    assert_eq!(
        narrow(&game, &moves, MoveFilter::OffBlueLineDest),
        vec![(0, 1)]
    );
}

#[test]
fn at_level_eighteen_red_denies_meta_threats() {
    let mut game = red_to_move(Some(0));
    game.board_winners[4] = B;
    game.board_winners[7] = R;
    // With sub-board 3 Blue would hold 3-4 with 5 open; with sub-board 1
    // Blue would hold 1-4 against Red's 7, and one mark on 0-1-2.
    let moves = vec![(0, 3), (0, 1)];
    assert_eq!(selection_pool(&game, 17, &moves), moves);
    assert_eq!(selection_pool(&game, 18, &moves), vec![(0, 1)]);
}

#[test]
fn from_level_ten_red_sets_the_trap() {
    let mut game = red_to_move(Some(0));
    // Sub-board 1 has square 2 left, and nobody wins on it.
    put(
        &mut game,
        1,
        &[
            (0, B),
            (1, R),
            (3, R),
            (4, R),
            (5, B),
            (6, B),
            (7, B),
            (8, R),
        ],
    );
    // In sub-board 2 Red wins at once.
    put(&mut game, 2, &[(0, R), (1, R)]);
    let moves = vec![(0, 1), (0, 3)];
    for level in 5..=9 {
        assert_eq!(selection_pool(&game, level, &moves), vec![(0, 3)]);
    }
    for level in 10..=19 {
        assert_eq!(selection_pool(&game, level, &moves), vec![(0, 1)]);
    }
    assert_eq!(narrow(&game, &moves, MoveFilter::Trap), vec![(0, 1)]);
}

#[test]
fn trap_needs_a_win_behind_it_and_one_square_only() {
    let mut game = red_to_move(Some(0));
    put(
        &mut game,
        1,
        &[
            (0, B),
            (1, R),
            (3, R),
            (4, R),
            (5, B),
            (6, B),
            (7, B),
            (8, R),
        ],
    );
    let moves = vec![(0, 1), (0, 3)];
    // Nothing to win in sub-board 2.
    assert!(narrow(&game, &moves, MoveFilter::Trap).is_empty());
    put(&mut game, 2, &[(0, R), (1, R)]);
    assert_eq!(narrow(&game, &moves, MoveFilter::Trap), vec![(0, 1)]);
    // Two squares left in sub-board 1.
    game.cells[1][8] = Cell::Empty;
    assert!(narrow(&game, &moves, MoveFilter::Trap).is_empty());
    // A sub-board flagged full is no trap.
    game.cells[1][8] = R;
    game.board_full[1] = true;
    assert!(narrow(&game, &moves, MoveFilter::Trap).is_empty());
}

#[test]
fn from_level_five_red_sends_to_an_empty_board() {
    let mut game = red_to_move(Some(0));
    for b in [1, 2, 4, 5, 6, 8] {
        put(&mut game, b, &[(0, R)]);
    }
    let moves = legal_moves(&game);
    assert_eq!(moves.len(), 9);
    for level in 2..=4 {
        assert_eq!(selection_pool(&game, level, &moves), moves);
    }
    for level in 5..=14 {
        assert_eq!(
            selection_pool(&game, level, &moves),
            vec![(0, 0), (0, 3), (0, 7)]
        );
    }
    for level in 15..=19 {
        assert_eq!(selection_pool(&game, level, &moves), vec![(0, 0)]);
    }
}

#[test]
fn from_level_fourteen_the_center_breaks_ties() {
    let game = red_to_move(Some(0));
    let moves = legal_moves(&game);
    for level in 5..=13 {
        assert_eq!(selection_pool(&game, level, &moves), moves);
    }
    for level in 14..=19 {
        assert_eq!(selection_pool(&game, level, &moves), vec![(0, 4)]);
    }
    let game = red_to_move(Some(4));
    let moves = legal_moves(&game);
    assert_eq!(selection_pool(&game, 14, &moves), vec![(4, 4)]);
    // Without the centre square, every square of the centre sub-board.
    let mut game = red_to_move(Some(4));
    put(&mut game, 4, &[(4, B)]);
    let moves = legal_moves(&game);
    assert_eq!(moves.len(), 8);
    assert_eq!(selection_pool(&game, 14, &moves), moves);
    assert_eq!(selection_pool(&game, 19, &moves), moves);
}

#[test]
fn center_preference_takes_center_squares_first() {
    let moves = vec![(0, 4), (4, 4), (4, 0), (3, 4), (2, 2)];
    for seed in 0..30 {
        let mut rng = StdRng::seed_from_u64(seed);
        assert_eq!(prefer_center(&moves, &mut rng), Some((4, 4)));
    }
    let moves = vec![(0, 4), (4, 0), (3, 4), (2, 2)];
    let mut seen = Vec::new();
    for seed in 0..60 {
        let mut rng = StdRng::seed_from_u64(seed);
        let m = prefer_center(&moves, &mut rng).unwrap();
        assert!(m == (0, 4) || m == (3, 4));
        if !seen.contains(&m) {
            seen.push(m);
        }
    }
    assert_eq!(seen.len(), 2);
    let moves = vec![(4, 0), (2, 2), (4, 8)];
    for seed in 0..30 {
        let mut rng = StdRng::seed_from_u64(seed);
        let m = prefer_center(&moves, &mut rng).unwrap();
        assert!(m == (4, 0) || m == (4, 8));
    }
    let mut rng = StdRng::seed_from_u64(0);
    assert_eq!(prefer_center(&vec![(0, 0), (2, 3)], &mut rng), None);
    assert_eq!(prefer_center(&Vec::new(), &mut rng), None);
}

#[test]
fn corner_preference_takes_corner_squares_first() {
    let moves = vec![(1, 0), (2, 8), (6, 1), (4, 4)];
    for seed in 0..30 {
        let mut rng = StdRng::seed_from_u64(seed);
        assert_eq!(prefer_corners(&moves, &mut rng), Some((2, 8)));
    }
    let moves = vec![(1, 0), (3, 6), (6, 1), (4, 4)];
    for seed in 0..30 {
        let mut rng = StdRng::seed_from_u64(seed);
        let m = prefer_corners(&moves, &mut rng).unwrap();
        assert!(m == (1, 0) || m == (3, 6));
    }
    let moves = vec![(6, 1), (4, 4), (8, 5)];
    for seed in 0..30 {
        let mut rng = StdRng::seed_from_u64(seed);
        let m = prefer_corners(&moves, &mut rng).unwrap();
        assert!(m == (6, 1) || m == (8, 5));
    }
    let mut rng = StdRng::seed_from_u64(0);
    assert_eq!(prefer_corners(&vec![(1, 1), (4, 7)], &mut rng), None);
    for corner in [0, 2, 6, 8] {
        assert_eq!(
            prefer_corners(&vec![(1, corner), (1, 1)], &mut rng),
            Some((1, corner))
        );
    }
}

#[test]
fn random_pick_is_one_of_the_moves() {
    let moves = vec![(1, 2), (3, 4), (5, 6)];
    let mut seen = Vec::new();
    for seed in 0..100 {
        let mut rng = StdRng::seed_from_u64(seed);
        let m = pick_random(&moves, &mut rng);
        assert!(moves.contains(&m));
        if !seen.contains(&m) {
            seen.push(m);
        }
    }
    assert_eq!(seen.len(), 3);
    let mut rng = StdRng::seed_from_u64(3);
    assert_eq!(pick_random(&vec![(7, 7)], &mut rng), (7, 7));
}

#[test]
fn same_seed_gives_the_same_move() {
    let game = GameState::new();
    let moves = legal_moves(&game);
    for level in [0, 1, 5, 12, 20] {
        let mut first = StdRng::seed_from_u64(99);
        let mut second = StdRng::seed_from_u64(99);
        assert_eq!(
            pick_move(&game, level, &moves, &mut first),
            pick_move(&game, level, &moves, &mut second)
        );
    }
}

#[test]
fn one_generator_gives_a_run_of_draws() {
    let moves = legal_moves(&GameState::new());
    let mut rng = StdRng::seed_from_u64(11);
    let mut seen = Vec::new();
    for _ in 0..50 {
        let m = pick_random(&moves, &mut rng);
        if !seen.contains(&m) {
            seen.push(m);
        }
    }
    assert!(seen.len() > 10);
}

#[test]
fn picked_move_is_in_the_pool() {
    let game = three_destinations();
    let moves = legal_moves(&game);
    for level in 0..=21 {
        let pool = selection_pool(&game, level, &moves);
        assert!(!pool.is_empty());
        assert!(pool.iter().all(|m| moves.contains(m)));
        for seed in 0..5 {
            let mut rng = StdRng::seed_from_u64(seed);
            assert!(pool.contains(&pick_move(&game, level, &moves, &mut rng)));
        }
    }
}

#[test]
fn pool_of_no_moves_is_empty() {
    let game = GameState::new();
    for level in 0..=22 {
        assert!(selection_pool(&game, level, &Vec::new()).is_empty());
    }
}

#[test]
fn computer_plays_one_legal_red_move() {
    for level in 0..=21 {
        let mut game = GameState::new();
        game.status = GameStatus::RedToMove;
        game.required_board = Some(6);
        let before = game.clone();
        let mut rng = StdRng::seed_from_u64(level as u64);
        computer_move(&mut game, level, &mut rng);
        let (b, c) = game.last_red.unwrap();
        assert_eq!(b, 6);
        let mut expected = before.clone();
        ultimate_ttt::apply_move(&mut expected, b, c, Cell::Red);
        assert_eq!(game, expected);
        assert_eq!(game.status, GameStatus::BlueToMove);
    }
}

#[test]
fn computer_leaves_a_game_without_moves_alone() {
    let mut game = GameState::new();
    game.board_full = [true; 9];
    game.status = GameStatus::RedToMove;
    let before = game.clone();
    let mut rng = StdRng::seed_from_u64(0);
    computer_move(&mut game, 7, &mut rng);
    assert_eq!(game, before);
}

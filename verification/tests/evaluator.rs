use ultimate_ttt::{evaluate, Cell, GameState};

fn with_outcomes(outcomes: &[(usize, Cell)]) -> GameState {
    let mut game = GameState::new();
    for &(b, outcome) in outcomes {
        game.board_winners[b] = outcome;
    }
    game
}

#[test]
fn new_game_scores_zero() {
    assert_eq!(evaluate(&GameState::new()), 0);
}

#[test]
fn decided_meta_board_scores_ten_thousand() {
    let red = with_outcomes(&[(0, Cell::Red), (1, Cell::Red), (2, Cell::Red)]);
    assert_eq!(evaluate(&red), 10000);
    let blue = with_outcomes(&[(2, Cell::Blue), (4, Cell::Blue), (6, Cell::Blue)]);
    assert_eq!(evaluate(&blue), -10000);
}

#[test]
fn corner_board_scores_board_and_three_lines() {
    // 100 for the sub-board, 10 for each of the three lines through a corner.
    assert_eq!(evaluate(&with_outcomes(&[(0, Cell::Red)])), 130);
    assert_eq!(evaluate(&with_outcomes(&[(0, Cell::Blue)])), -130);
    assert_eq!(evaluate(&with_outcomes(&[(8, Cell::Red)])), 130);
}

#[test]
fn edge_board_scores_board_and_two_lines() {
    assert_eq!(evaluate(&with_outcomes(&[(1, Cell::Red)])), 120);
    assert_eq!(evaluate(&with_outcomes(&[(5, Cell::Blue)])), -120);
}

#[test]
fn center_board_scores_board_four_lines_and_bonus() {
    // 100 + 4 * 10 + 5.
    assert_eq!(evaluate(&with_outcomes(&[(4, Cell::Red)])), 145);
    assert_eq!(evaluate(&with_outcomes(&[(4, Cell::Blue)])), -145);
}

#[test]
fn two_on_an_open_line_score_fifty() {
    // 200 for the sub-boards, 50 for the top row, 10 each for the lines
    // 0-3-6, 0-4-8 and 1-4-7.
    assert_eq!(
        evaluate(&with_outcomes(&[(0, Cell::Red), (1, Cell::Red)])),
        280
    );
    assert_eq!(
        evaluate(&with_outcomes(&[(0, Cell::Blue), (1, Cell::Blue)])),
        -280
    );
}

#[test]
fn contested_line_scores_nothing() {
    // The sub-boards cancel; the top row is contested; Red keeps 0-3-6 and
    // 0-4-8, Blue keeps 1-4-7.
    assert_eq!(
        evaluate(&with_outcomes(&[(0, Cell::Red), (1, Cell::Blue)])),
        10
    );
    // Two of Red and one of Blue on the top row: the row scores nothing.
    // Sub-boards: +100. Red: 0-3-6, 0-4-8, 1-4-7. Blue: 2-5-8, 2-4-6.
    assert_eq!(
        evaluate(&with_outcomes(&[
            (0, Cell::Red),
            (1, Cell::Red),
            (2, Cell::Blue)
        ])),
        110
    );
}

#[test]
fn middle_square_of_an_undecided_board_scores_one() {
    let mut game = GameState::new();
    game.cells[3][4] = Cell::Red;
    assert_eq!(evaluate(&game), 1);
    game.cells[5][4] = Cell::Blue;
    assert_eq!(evaluate(&game), 0);
    game.cells[6][4] = Cell::Blue;
    assert_eq!(evaluate(&game), -1);
    // Other squares score nothing.
    game.cells[6][0] = Cell::Red;
    game.cells[0][8] = Cell::Red;
    assert_eq!(evaluate(&game), -1);
}

#[test]
fn middle_square_of_a_decided_board_scores_nothing() {
    let mut game = with_outcomes(&[(3, Cell::Red)]);
    game.cells[3][4] = Cell::Red;
    // 100 for the sub-board, 10 each for 3-4-5 and 0-3-6.
    assert_eq!(evaluate(&game), 120);
    game.cells[3][4] = Cell::Blue;
    assert_eq!(evaluate(&game), 120);
}

#[test]
fn score_sums_all_parts() {
    // Outcomes: Red 4 and 8, Blue 2.
    //   _ _ B
    //   _ R _
    //   _ _ R
    // Sub-boards: +200 - 100 = 100.
    // Lines: 0-1-2 Blue alone -10; 3-4-5 Red +10; 6-7-8 Red +10;
    //   0-3-6 nothing; 1-4-7 Red +10; 2-5-8 contested; 0-4-8 Red two +50;
    //   2-4-6 contested. Sum 70.
    // Centre sub-board: +5. Middle squares: Red in sub-board 0, +1; Blue in
    // sub-board 2, decided, nothing.
    let mut game = with_outcomes(&[(4, Cell::Red), (8, Cell::Red), (2, Cell::Blue)]);
    game.cells[0][4] = Cell::Red;
    game.cells[2][4] = Cell::Blue;
    assert_eq!(evaluate(&game), 176);
}

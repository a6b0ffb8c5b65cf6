use ultimate_ttt::{generate_explanation, get_hint, Cell, GameState, GameStatus};

const B: Cell = Cell::Blue;
const R: Cell = Cell::Red;

#[test]
fn hint_on_a_new_game() {
    let hint = get_hint(&GameState::new());
    assert_eq!((hint.board_idx, hint.cell_idx), (4, 4));
    assert_eq!(hint.explanation, "Best positional move");
}

#[test]
fn no_hint_when_it_is_not_blues_turn() {
    for status in [
        GameStatus::RedToMove,
        GameStatus::BlueWins,
        GameStatus::RedWins,
        GameStatus::Draw,
    ] {
        let mut game = GameState::new();
        game.status = status;
        let hint = get_hint(&game);
        assert_eq!((hint.board_idx, hint.cell_idx), (0, 0));
        assert_eq!(hint.explanation, "Not blue's turn");
    }
}

#[test]
fn no_hint_without_legal_moves() {
    let mut game = GameState::new();
    game.board_full = [true; 9];
    let hint = get_hint(&game);
    assert_eq!((hint.board_idx, hint.cell_idx), (0, 0));
    assert_eq!(hint.explanation, "No legal moves");
}

#[test]
fn hint_wins_the_game() {
    let mut game = GameState::new();
    game.board_winners[0] = B;
    game.board_winners[1] = B;
    game.cells[2][0] = B;
    game.cells[2][1] = B;
    game.required_board = Some(2);
    let hint = get_hint(&game);
    assert_eq!((hint.board_idx, hint.cell_idx), (2, 2));
    assert_eq!(hint.explanation, "Wins the game!");
}

#[test]
fn explains_the_win_of_the_game() {
    let mut game = GameState::new();
    game.board_winners[0] = B;
    game.board_winners[1] = B;
    game.cells[2][0] = B;
    game.cells[2][1] = B;
    assert_eq!(generate_explanation(&game, 2, 2), "Wins the game!");
}

#[test]
fn explains_a_board_won_with_a_threat() {
    let mut game = GameState::new();
    game.board_winners[0] = B;
    game.cells[1][0] = B;
    game.cells[1][1] = B;
    assert_eq!(
        generate_explanation(&game, 1, 2),
        "Wins board and threatens the game"
    );
}

#[test]
fn explains_a_board_won() {
    let mut game = GameState::new();
    game.cells[1][0] = B;
    game.cells[1][1] = B;
    assert_eq!(generate_explanation(&game, 1, 2), "Wins a board");
}

#[test]
fn explains_a_block() {
    let mut game = GameState::new();
    game.cells[1][0] = R;
    game.cells[1][1] = R;
    assert_eq!(
        generate_explanation(&game, 1, 2),
        "Blocks red from winning a board"
    );
}

#[test]
fn explains_a_meta_threat() {
    let mut game = GameState::new();
    game.board_winners[0] = B;
    assert_eq!(
        generate_explanation(&game, 1, 5),
        "Threatens to win the game"
    );
}

#[test]
fn explains_a_fork() {
    let mut game = GameState::new();
    game.cells[3][1] = B;
    game.cells[3][3] = B;
    assert_eq!(
        generate_explanation(&game, 3, 0),
        "Creates two ways to win a board"
    );
}

#[test]
fn explains_a_free_choice() {
    let mut game = GameState::new();
    game.board_full[5] = true;
    assert_eq!(
        generate_explanation(&game, 1, 5),
        "Gives you a free choice next"
    );
}

#[test]
fn explains_a_positional_move() {
    assert_eq!(
        generate_explanation(&GameState::new(), 4, 4),
        "Best positional move"
    );
}

#[test]
fn block_is_named_before_threat_fork_and_free_choice() {
    let mut game = GameState::new();
    game.board_winners[0] = B;
    game.board_full[2] = true;
    // Square 2 of sub-board 1 blocks Red's top row, makes Blue's fork and
    // sends Red to a full sub-board; sub-board 1 would make a meta-threat.
    game.cells[1][0] = R;
    game.cells[1][1] = R;
    game.cells[1][5] = B;
    game.cells[1][6] = B;
    assert_eq!(
        generate_explanation(&game, 1, 2),
        "Blocks red from winning a board"
    );
    game.cells[1][0] = Cell::Empty;
    assert_eq!(
        generate_explanation(&game, 1, 2),
        "Threatens to win the game"
    );
    game.board_winners[0] = Cell::Empty;
    assert_eq!(
        generate_explanation(&game, 1, 2),
        "Creates two ways to win a board"
    );
    game.cells[1][5] = Cell::Empty;
    assert_eq!(
        generate_explanation(&game, 1, 2),
        "Gives you a free choice next"
    );
}

#[test]
fn decided_board_is_neither_won_nor_blocked_nor_forked() {
    let mut game = GameState::new();
    game.board_winners[1] = R;
    game.cells[1][0] = B;
    game.cells[1][1] = B;
    // Blue's row would be completed, but the sub-board is Red's already.
    assert_eq!(generate_explanation(&game, 1, 2), "Best positional move");
}

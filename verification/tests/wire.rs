use ultimate_ttt::{Cell, GameStatus};

#[test]
fn cell_tokens_are_lower_case_names() {
    assert_eq!(Cell::Empty.token(), "empty");
    assert_eq!(Cell::Blue.token(), "blue");
    assert_eq!(Cell::Red.token(), "red");
}

#[test]
fn status_tokens_are_lower_case_names() {
    assert_eq!(GameStatus::BlueToMove.token(), "bluetomove");
    assert_eq!(GameStatus::RedToMove.token(), "redtomove");
    assert_eq!(GameStatus::BlueWins.token(), "bluewins");
    assert_eq!(GameStatus::RedWins.token(), "redwins");
    assert_eq!(GameStatus::Draw.token(), "draw");
}

#[test]
fn cell_tokens_read_back() {
    for cell in [Cell::Empty, Cell::Blue, Cell::Red] {
        assert_eq!(Cell::from_token(cell.token()), Some(cell));
    }
}

#[test]
fn status_tokens_read_back() {
    for status in [
        GameStatus::BlueToMove,
        GameStatus::RedToMove,
        GameStatus::BlueWins,
        GameStatus::RedWins,
        GameStatus::Draw,
    ] {
        assert_eq!(GameStatus::from_token(status.token()), Some(status));
    }
}

#[test]
fn other_text_is_no_token() {
    for text in ["", "Blue", "RED", "green", "blue ", "bluetomove"] {
        assert_eq!(Cell::from_token(text), None);
    }
    for text in ["", "Draw", "blue", "blue_to_move", "BlueToMove"] {
        assert_eq!(GameStatus::from_token(text), None);
    }
}

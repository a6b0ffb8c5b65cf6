//! The tokens that stand for cells and statuses on the wire.

use vstd::prelude::*;

use crate::board::Cell;
use crate::state::GameStatus;

verus! {

impl Cell {
    /// The token of a cell: its name in lower case.
    pub open spec fn token_of(self) -> Seq<char> {
        match self {
            Cell::Empty => "empty"@,
            Cell::Blue => "blue"@,
            Cell::Red => "red"@,
        }
    }

    /// The cell that a token stands for, if it is a cell's token.
    pub open spec fn of_token(token: Seq<char>) -> Option<Cell> {
        if token == "empty"@ {
            Some(Cell::Empty)
        } else if token == "blue"@ {
            Some(Cell::Blue)
        } else if token == "red"@ {
            Some(Cell::Red)
        } else {
            None
        }
    }

    /// The token of the cell.
    pub fn token(self) -> (token: &'static str)
        ensures
            token@ == self.token_of(),
    {
        match self {
            Cell::Empty => "empty",
            Cell::Blue => "blue",
            Cell::Red => "red",
        }
    }

    /// The cell that the token stands for; `None` for any other text.
    pub fn from_token(token: &str) -> (cell: Option<Cell>)
        ensures
            cell == Cell::of_token(token@),
    {
        let text = token.to_owned();
        if text == "empty".to_owned() {
            Some(Cell::Empty)
        } else if text == "blue".to_owned() {
            Some(Cell::Blue)
        } else if text == "red".to_owned() {
            Some(Cell::Red)
        } else {
            None
        }
    }
}

impl GameStatus {
    /// The token of a status: its name in lower case.
    pub open spec fn token_of(self) -> Seq<char> {
        match self {
            GameStatus::BlueToMove => "bluetomove"@,
            GameStatus::RedToMove => "redtomove"@,
            GameStatus::BlueWins => "bluewins"@,
            GameStatus::RedWins => "redwins"@,
            GameStatus::Draw => "draw"@,
        }
    }

    /// The status that a token stands for, if it is a status's token.
    pub open spec fn of_token(token: Seq<char>) -> Option<GameStatus> {
        if token == "bluetomove"@ {
            Some(GameStatus::BlueToMove)
        } else if token == "redtomove"@ {
            Some(GameStatus::RedToMove)
        } else if token == "bluewins"@ {
            Some(GameStatus::BlueWins)
        } else if token == "redwins"@ {
            Some(GameStatus::RedWins)
        } else if token == "draw"@ {
            Some(GameStatus::Draw)
        } else {
            None
        }
    }

    /// The token of the status.
    pub fn token(self) -> (token: &'static str)
        ensures
            token@ == self.token_of(),
    {
        match self {
            GameStatus::BlueToMove => "bluetomove",
            GameStatus::RedToMove => "redtomove",
            GameStatus::BlueWins => "bluewins",
            GameStatus::RedWins => "redwins",
            GameStatus::Draw => "draw",
        }
    }

    /// The status that the token stands for; `None` for any other text.
    pub fn from_token(token: &str) -> (status: Option<GameStatus>)
        ensures
            status == GameStatus::of_token(token@),
    {
        let text = token.to_owned();
        if text == "bluetomove".to_owned() {
            Some(GameStatus::BlueToMove)
        } else if text == "redtomove".to_owned() {
            Some(GameStatus::RedToMove)
        } else if text == "bluewins".to_owned() {
            Some(GameStatus::BlueWins)
        } else if text == "redwins".to_owned() {
            Some(GameStatus::RedWins)
        } else if text == "draw".to_owned() {
            Some(GameStatus::Draw)
        } else {
            None
        }
    }
}

/// Reading back the token of a cell gives the cell.
pub proof fn lemma_cell_token_round_trip(cell: Cell)
    ensures
        Cell::of_token(cell.token_of()) == Some(cell),
{
    reveal_strlit("empty");
    reveal_strlit("blue");
    reveal_strlit("red");
    assert("empty"@.len() == 5);
    assert("blue"@.len() == 4);
}

/// Reading back the token of a status gives the status.
pub proof fn lemma_status_token_round_trip(status: GameStatus)
    ensures
        GameStatus::of_token(status.token_of()) == Some(status),
{
    reveal_strlit("bluetomove");
    reveal_strlit("redtomove");
    reveal_strlit("bluewins");
    reveal_strlit("redwins");
    reveal_strlit("draw");
    assert("bluetomove"@.len() == 10);
    assert("redtomove"@.len() == 9);
    assert("bluewins"@.len() == 8);
    assert("redwins"@.len() == 7);
}

} // verus!

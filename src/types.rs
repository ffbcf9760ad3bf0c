use vstd::prelude::*;

verus! {

/// A point on a game board, zero-indexed.
#[derive(PartialEq, Eq, Structural, Clone, Copy, Debug)]
pub struct Point {
    pub x: usize,
    pub y: usize,
}

impl Point {
    pub fn new(x: usize, y: usize) -> (r: Point)
        ensures
            r == (Point { x, y }),
    {
        Point { x, y }
    }
}

/// The side of a player in a game, either black or white.
#[derive(PartialEq, Eq, Structural, Clone, Copy, Debug)]
pub enum GameSide {
    Black,
    White,
}

impl GameSide {
    pub open spec fn opposite(self) -> GameSide {
        match self {
            GameSide::Black => GameSide::White,
            GameSide::White => GameSide::Black,
        }
    }

    /// Return the opposite of the side.
    pub fn toggle(&self) -> (r: GameSide)
        ensures
            r == self.opposite(),
    {
        match self {
            GameSide::Black => GameSide::White,
            GameSide::White => GameSide::Black,
        }
    }
}

/// The state of a single point on the board.
#[derive(PartialEq, Eq, Structural, Clone, Copy, Debug)]
pub enum GameSpot {
    /// An empty spot on the board.
    Empty,
    /// A spot on the board taken by a piece from a side.
    Taken(GameSide),
}

impl GameSpot {
    /// Return true if the spot is empty, otherwise false.
    pub fn is_empty(&self) -> (r: bool)
        ensures
            r == (*self is Empty),
    {
        match self {
            GameSpot::Empty => true,
            _ => false,
        }
    }
}

/// An error caused by trying to add a step that is not allowed.
#[derive(PartialEq, Eq, Structural, Clone, Copy, Debug)]
pub enum GameStepError {
    /// The point is outside of the valid board coordinates.
    InvalidPoint,
    /// The point is already taken by a piece on the board.
    PointTaken,
    /// The game has already ended: no further steps are accepted.
    GameOver,
}

impl GameStepError {
    /// A short description of the error.
    pub fn message(&self) -> (r: &'static str) {
        match self {
            GameStepError::InvalidPoint => "invalid point on the board",
            GameStepError::PointTaken => "point is already taken on the board",
            GameStepError::GameOver => "the game is already over",
        }
    }
}

/// The state of a game.
#[derive(Debug)]
pub enum GameState {
    /// The game is still ongoing.
    Normal,
    /// The game is finished with a winner.
    Finished {
        /// The side of the winner.
        winner_side: GameSide,
        /// The consecutive points of the winner that resulted in the victory.
        points: Vec<Point>,
    },
    /// Every spot of the board is taken and nobody won: a tie.
    BoardFull,
}

/// The mathematical value of a `GameState`.
pub enum StateModel {
    Normal,
    Finished { winner_side: GameSide, points: Seq<Point> },
    BoardFull,
}

impl View for GameState {
    type V = StateModel;

    open spec fn view(&self) -> StateModel {
        match self {
            GameState::Normal => StateModel::Normal,
            GameState::Finished { winner_side, points } => StateModel::Finished {
                winner_side: *winner_side,
                points: points@,
            },
            GameState::BoardFull => StateModel::BoardFull,
        }
    }
}

} // verus!

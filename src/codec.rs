//! The portable form of a game: the board size, the ordered steps and the
//! state, which decoding checks against the state derived from the steps.
use vstd::prelude::*;

use crate::game::Game;
use crate::rules::{derived_state, first_error, side_at};
use crate::types::{GameSide, GameState, GameStepError, Point, StateModel};

verus! {

/// The portable form of a game state.
///
/// `state` is `"normal"`, `"board_full"` or `"finished"`; `side` (`0` for
/// black, `1` for white) and `points` are present for a finished game only.
pub struct GameStateSerializer {
    pub state: String,
    pub side: Option<u16>,
    pub points: Option<Vec<(u32, u32)>>,
}

/// The portable form of a game.
pub struct GameSerializer {
    pub size: u32,
    pub steps: Vec<(u32, u32)>,
    pub state: GameStateSerializer,
}

/// Why a portable game cannot be turned back into a game.
#[derive(PartialEq, Eq, Structural, Clone, Copy, Debug)]
pub enum GameSerializeError {
    /// The board size is zero.
    InvalidSize,
    /// A step cannot be replayed.
    CannotAddStep(GameStepError),
    /// The given state does not match the state derived from the steps.
    InvalidState,
}

impl GameSerializeError {
    /// A short description of the error.
    pub fn message(&self) -> (r: &'static str) {
        match self {
            GameSerializeError::InvalidSize => "invalid size - the board size must be positive",
            GameSerializeError::CannotAddStep(err) => match err {
                GameStepError::InvalidPoint => "invalid point in steps - out of bounds",
                GameStepError::PointTaken => "invalid point in steps - duplicate points",
                GameStepError::GameOver => "invalid point in steps - game already over",
            },
            GameSerializeError::InvalidState => "invalid state - given state does not match derived state",
        }
    }
}

/// The portable pair of coordinates of a point.
pub open spec fn pair_of(p: Point) -> (u32, u32) {
    (p.x as u32, p.y as u32)
}

/// The point of a portable pair of coordinates.
pub open spec fn point_of(c: (u32, u32)) -> Point {
    Point { x: c.0 as usize, y: c.1 as usize }
}

/// The code of a side.
pub open spec fn side_code(s: GameSide) -> u16 {
    match s {
        GameSide::Black => 0,
        GameSide::White => 1,
    }
}

/// `s` is the portable form of the state `st`.
pub open spec fn encodes_state(s: GameStateSerializer, st: StateModel) -> bool {
    match st {
        StateModel::Normal => s.state@ == "normal"@ && s.side is None && s.points is None,
        StateModel::BoardFull => s.state@ == "board_full"@ && s.side is None && s.points is None,
        StateModel::Finished { winner_side, points } => {
            &&& s.state@ == "finished"@
            &&& s.side == Some(side_code(winner_side))
            &&& s.points is Some
            &&& s.points->0@ == points.map_values(|p: Point| pair_of(p))
        },
    }
}

/// The state that a portable state stands for, if it stands for one.
pub open spec fn state_of_wire(s: GameStateSerializer) -> Option<StateModel> {
    if s.state@ == "normal"@ {
        Some(StateModel::Normal)
    } else if s.state@ == "board_full"@ {
        Some(StateModel::BoardFull)
    } else if s.state@ == "finished"@ {
        if s.side == Some(0u16) && s.points is Some {
            Some(
                StateModel::Finished {
                    winner_side: GameSide::Black,
                    points: s.points->0@.map_values(|c: (u32, u32)| point_of(c)),
                },
            )
        } else if s.side == Some(1u16) && s.points is Some {
            Some(
                StateModel::Finished {
                    winner_side: GameSide::White,
                    points: s.points->0@.map_values(|c: (u32, u32)| point_of(c)),
                },
            )
        } else {
            None
        }
    } else {
        None
    }
}

/// A given state agrees with a derived one: the same kind, and for finished
/// games the same winner (the winning points may differ).
pub open spec fn states_agree(given: Option<StateModel>, derived: StateModel) -> bool {
    match given {
        Some(StateModel::Normal) => derived is Normal,
        Some(StateModel::BoardFull) => derived is BoardFull,
        Some(StateModel::Finished { winner_side, .. }) => derived is Finished
            && derived->winner_side == winner_side,
        None => false,
    }
}

/// The steps of a portable game as points.
pub open spec fn wire_steps(w: GameSerializer) -> Seq<Point> {
    w.steps@.map_values(|c: (u32, u32)| point_of(c))
}

/// `w` is the portable form of the game of the given size and steps.
pub open spec fn encodes(w: GameSerializer, size: nat, steps: Seq<Point>) -> bool {
    &&& w.size == size as u32
    &&& w.steps@ == steps.map_values(|p: Point| pair_of(p))
    &&& encodes_state(w.state, derived_state(size, steps))
}

/// What decoding `w` gives: `Ok(())` where the steps replay and the given
/// state agrees with the derived one, else the error.
pub open spec fn decode_result(w: GameSerializer) -> Result<(), GameSerializeError> {
    if w.size == 0 {
        Err(GameSerializeError::InvalidSize)
    } else {
        match first_error(w.size as nat, wire_steps(w)) {
            Some(e) => Err(GameSerializeError::CannotAddStep(e)),
            None => if states_agree(
                state_of_wire(w.state),
                derived_state(w.size as nat, wire_steps(w)),
            ) {
                Ok(())
            } else {
                Err(GameSerializeError::InvalidState)
            },
        }
    }
}

fn tag_is(s: &String, tag: &str) -> (r: bool)
    ensures
        r == (s@ == tag@),
{
    let t = tag.to_owned();
    *s == t
}

impl GameStateSerializer {
    /// The portable form of a state.
    pub fn from_state(state: &GameState) -> (r: GameStateSerializer)
        ensures
            encodes_state(r, state@),
    {
        match state {
            GameState::Normal => GameStateSerializer {
                state: "normal".to_owned(),
                side: None,
                points: None,
            },
            GameState::BoardFull => GameStateSerializer {
                state: "board_full".to_owned(),
                side: None,
                points: None,
            },
            GameState::Finished { winner_side, points } => {
                let side: u16 = match winner_side {
                    GameSide::Black => 0,
                    GameSide::White => 1,
                };
                let mut pairs: Vec<(u32, u32)> = Vec::new();
                let mut i: usize = 0;
                while i < points.len()
                    invariant
                        i <= points@.len(),
                        pairs@ == points@.subrange(0, i as int).map_values(|p: Point| pair_of(p)),
                    decreases points@.len() - i,
                {
                    let p = points[i];
                    pairs.push((p.x as u32, p.y as u32));
                    i += 1;
                    assert(pairs@ =~= points@.subrange(0, i as int).map_values(
                        |p: Point| pair_of(p),
                    ));
                }
                assert(points@.subrange(0, points@.len() as int) =~= points@);
                GameStateSerializer {
                    state: "finished".to_owned(),
                    side: Some(side),
                    points: Some(pairs),
                }
            },
        }
    }

    /// The state that this portable state stands for, if any.
    pub fn to_state(&self) -> (r: Option<GameState>)
        ensures
            match state_of_wire(*self) {
                Some(st) => r is Some && r->0@ == st,
                None => r is None,
            },
    {
        if tag_is(&self.state, "normal") {
            Some(GameState::Normal)
        } else if tag_is(&self.state, "board_full") {
            Some(GameState::BoardFull)
        } else if tag_is(&self.state, "finished") {
            let winner_side = match self.side {
                Some(0) => GameSide::Black,
                Some(1) => GameSide::White,
                _ => {
                    return None;
                },
            };
            let pairs = match &self.points {
                Some(v) => v,
                None => {
                    return None;
                },
            };
            let mut points: Vec<Point> = Vec::new();
            let mut i: usize = 0;
            while i < pairs.len()
                invariant
                    i <= pairs@.len(),
                    points@ == pairs@.subrange(0, i as int).map_values(
                        |c: (u32, u32)| point_of(c),
                    ),
                decreases pairs@.len() - i,
            {
                let c = pairs[i];
                points.push(Point { x: c.0 as usize, y: c.1 as usize });
                i += 1;
                assert(points@ =~= pairs@.subrange(0, i as int).map_values(
                    |c: (u32, u32)| point_of(c),
                ));
            }
            assert(pairs@.subrange(0, pairs@.len() as int) =~= pairs@);
            Some(GameState::Finished { winner_side, points })
        } else {
            None
        }
    }
}

impl GameSerializer {
    /// The portable form of a game.
    pub fn from_game(game: &Game) -> (r: GameSerializer)
        requires
            game.wf(),
        ensures
            encodes(r, game.size_m(), game.steps_m()),
    {
        let size = game.size() as u32;
        let all = game.iter_steps();
        let ghost steps = game.steps_m();
        let mut pairs: Vec<(u32, u32)> = Vec::new();
        let mut i: usize = 0;
        while i < all.len()
            invariant
                all@.len() == steps.len(),
                forall|t: int| 0 <= t < all@.len() ==> #[trigger] all@[t] == (side_at(t), steps[t]),
                i <= all@.len(),
                pairs@ == steps.subrange(0, i as int).map_values(|p: Point| pair_of(p)),
            decreases all@.len() - i,
        {
            let p = all[i].1;
            pairs.push((p.x as u32, p.y as u32));
            i += 1;
            assert(pairs@ =~= steps.subrange(0, i as int).map_values(|p: Point| pair_of(p)));
        }
        assert(steps.subrange(0, steps.len() as int) =~= steps);
        let state = GameStateSerializer::from_state(game.state());
        GameSerializer { size, steps: pairs, state }
    }

    /// Rebuild the game by replaying the steps, and check that the given state
    /// agrees with the state derived from them.
    pub fn to_game(&self) -> (r: Result<Game, GameSerializeError>)
        ensures
            match r {
                Ok(g) => decode_result(*self) is Ok && g.wf() && g.size_m() == self.size
                    && g.steps_m() == wire_steps(*self),
                Err(e) => decode_result(*self) == Err::<(), GameSerializeError>(e),
            },
    {
        if self.size == 0 {
            return Err(GameSerializeError::InvalidSize);
        }
        let mut steps: Vec<Point> = Vec::new();
        let mut i: usize = 0;
        while i < self.steps.len()
            invariant
                i <= self.steps@.len(),
                steps@ == self.steps@.subrange(0, i as int).map_values(
                    |c: (u32, u32)| point_of(c),
                ),
            decreases self.steps@.len() - i,
        {
            let c = self.steps[i];
            steps.push(Point { x: c.0 as usize, y: c.1 as usize });
            i += 1;
            assert(steps@ =~= self.steps@.subrange(0, i as int).map_values(
                |c: (u32, u32)| point_of(c),
            ));
        }
        assert(self.steps@.subrange(0, self.steps@.len() as int) =~= self.steps@);
        let game = match Game::from_steps(self.size as usize, steps.as_slice()) {
            Ok(game) => game,
            Err(err) => {
                return Err(GameSerializeError::CannotAddStep(err));
            },
        };
        let given = match self.state.to_state() {
            Some(state) => state,
            None => {
                return Err(GameSerializeError::InvalidState);
            },
        };
        let agree = match (&given, game.state()) {
            (GameState::Normal, GameState::Normal) => true,
            (GameState::BoardFull, GameState::BoardFull) => true,
            (
                GameState::Finished { winner_side: side1, .. },
                GameState::Finished { winner_side: side2, .. },
            ) => *side1 == *side2,
            _ => false,
        };
        if agree {
            Ok(game)
        } else {
            Err(GameSerializeError::InvalidState)
        }
    }
}

} // verus!

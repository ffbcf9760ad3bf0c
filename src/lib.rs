//! A rule engine for connect five: a square board, legal steps, win and
//! draw detection, and a portable form of a game that is checked against the
//! state derived from its steps.

mod board;
pub mod codec;
mod game;
pub mod laws;
pub mod room;
pub mod rules;
mod types;

pub use codec::{GameSerializeError, GameSerializer, GameStateSerializer};
pub use game::Game;
pub use room::{PostCreateRoomParams, RoomRole, RoomSettings, StateError, ValidationError};
pub use types::{GameSide, GameSpot, GameState, GameStepError, Point, StateModel};

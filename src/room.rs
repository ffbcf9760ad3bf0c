//! Room settings, roles and the errors reported to the users of a room.
use vstd::prelude::*;

use crate::types::GameSide;

verus! {

/// The longest room id, in bytes.
pub const MAX_ROOM_ID_LENGTH: usize = 15;

/// The smallest board size a room accepts.
pub const MIN_BOARD_SIZE: usize = 9;

/// The largest board size a room accepts.
pub const MAX_BOARD_SIZE: usize = 21;

/// The board size of a room whose settings do not name one.
pub const DEFAULT_BOARD_SIZE: usize = 15;

/// The settings of a room.
#[derive(PartialEq, Eq, Structural, Clone, Copy, Debug)]
pub struct RoomSettings {
    pub board_size: usize,
    pub allow_spectators: bool,
    pub public: bool,
}

impl RoomSettings {
    pub fn default_board_size() -> (r: usize)
        ensures
            r == DEFAULT_BOARD_SIZE,
    {
        DEFAULT_BOARD_SIZE
    }

    pub fn default_allow_spectators() -> (r: bool)
        ensures
            r,
    {
        true
    }

    pub fn default_public() -> (r: bool)
        ensures
            r,
    {
        true
    }

    /// The board size lies in `[MIN_BOARD_SIZE, MAX_BOARD_SIZE]`.
    pub fn is_valid(&self) -> (r: bool)
        ensures
            r == (MIN_BOARD_SIZE <= self.board_size <= MAX_BOARD_SIZE),
    {
        MIN_BOARD_SIZE <= self.board_size && self.board_size <= MAX_BOARD_SIZE
    }
}

impl Default for RoomSettings {
    fn default() -> (r: RoomSettings)
        ensures
            r == (RoomSettings {
                board_size: DEFAULT_BOARD_SIZE,
                allow_spectators: true,
                public: true,
            }),
    {
        RoomSettings {
            board_size: RoomSettings::default_board_size(),
            allow_spectators: RoomSettings::default_allow_spectators(),
            public: RoomSettings::default_public(),
        }
    }
}

/// Check a room id and room settings before a room is created: the id has
/// between 1 and `MAX_ROOM_ID_LENGTH` bytes, and the settings are valid.
/// The error is the reason code reported to the user.
pub fn validate_room(id: &str, settings: &RoomSettings) -> (r: Result<(), &'static str>)
    ensures
        r == (if !(1 <= id.len() <= MAX_ROOM_ID_LENGTH) {
            Err::<(), &'static str>("invalid_room_id")
        } else if !(MIN_BOARD_SIZE <= settings.board_size <= MAX_BOARD_SIZE) {
            Err("invalid_board_size")
        } else {
            Ok(())
        }),
{
    let n = id.len();
    if !(1 <= n && n <= MAX_ROOM_ID_LENGTH) {
        Err("invalid_room_id")
    } else if !settings.is_valid() {
        Err("invalid_board_size")
    } else {
        Ok(())
    }
}

/// A role that a user has in a room.
#[derive(PartialEq, Eq, Structural, Clone, Copy, Debug)]
pub enum RoomRole {
    Player(GameSide),
    Spectator,
}

/// The code of a role: `0` for the black player, `1` for the white player,
/// `2` for a spectator.
pub open spec fn role_code(r: RoomRole) -> u16 {
    match r {
        RoomRole::Player(GameSide::Black) => 0,
        RoomRole::Player(GameSide::White) => 1,
        RoomRole::Spectator => 2,
    }
}

impl RoomRole {
    /// The code of this role.
    pub fn code(&self) -> (r: u16)
        ensures
            r == role_code(*self),
    {
        match self {
            RoomRole::Player(GameSide::Black) => 0,
            RoomRole::Player(GameSide::White) => 1,
            RoomRole::Spectator => 2,
        }
    }

    /// The role of a code; `None` for a code above `2`.
    pub fn from_code(v: u64) -> (r: Option<RoomRole>)
        ensures
            match r {
                Some(role) => v <= 2 && role_code(role) == v,
                None => v > 2,
            },
    {
        match v {
            0 => Some(RoomRole::Player(GameSide::Black)),
            1 => Some(RoomRole::Player(GameSide::White)),
            2 => Some(RoomRole::Spectator),
            _ => None,
        }
    }
}

/// The error caused by an invalid operation on the shared state.
#[derive(PartialEq, Eq, Clone, Copy, Debug)]
pub struct StateError {
    pub reason: &'static str,
}

impl StateError {
    pub fn new(reason: &'static str) -> (r: StateError)
        ensures
            r.reason == reason,
    {
        StateError { reason }
    }
}

/// The error caused by an invalid input from a user.
#[derive(PartialEq, Eq, Clone, Copy, Debug)]
pub struct ValidationError {
    pub field: &'static str,
    pub reason: Option<&'static str>,
}

impl ValidationError {
    pub fn new(field: &'static str, reason: Option<&'static str>) -> (r: ValidationError)
        ensures
            r.field == field,
            r.reason == reason,
    {
        ValidationError { field, reason }
    }
}

/// The parameters of a request to create a room.
#[derive(Debug)]
pub struct PostCreateRoomParams {
    pub room_id: String,
    pub nickname: Option<String>,
    pub role: RoomRole,
    pub settings: Option<RoomSettings>,
}

} // verus!

use connect_5_rs::room::{validate_room, DEFAULT_BOARD_SIZE};
use connect_5_rs::{GameSide, PostCreateRoomParams, RoomRole, RoomSettings, StateError, ValidationError};

fn settings(board_size: usize) -> RoomSettings {
    RoomSettings { board_size, allow_spectators: true, public: true }
}

#[test]
fn default_settings() {
    let s = RoomSettings::default();
    assert_eq!(s.board_size, 15);
    assert_eq!(DEFAULT_BOARD_SIZE, 15);
    assert!(s.allow_spectators);
    assert!(s.public);
    assert_eq!(RoomSettings::default_board_size(), 15);
    assert!(RoomSettings::default_allow_spectators());
    assert!(RoomSettings::default_public());
}

#[test]
fn room_validation() {
    assert_eq!(validate_room("room", &settings(15)), Ok(()));
    assert_eq!(validate_room("", &settings(15)), Err("invalid_room_id"));
    assert_eq!(validate_room("abcdefghijklmnop", &settings(15)), Err("invalid_room_id"));
    assert_eq!(validate_room("abcdefghijklmno", &settings(15)), Ok(()));
    assert_eq!(validate_room("room", &settings(8)), Err("invalid_board_size"));
    assert_eq!(validate_room("room", &settings(22)), Err("invalid_board_size"));
    assert_eq!(validate_room("room", &settings(9)), Ok(()));
    assert_eq!(validate_room("room", &settings(21)), Ok(()));
    assert_eq!(validate_room("", &settings(0)), Err("invalid_room_id"));
}

#[test]
fn role_codes() {
    assert_eq!(RoomRole::Player(GameSide::Black).code(), 0);
    assert_eq!(RoomRole::Player(GameSide::White).code(), 1);
    assert_eq!(RoomRole::Spectator.code(), 2);
    assert_eq!(RoomRole::from_code(0), Some(RoomRole::Player(GameSide::Black)));
    assert_eq!(RoomRole::from_code(1), Some(RoomRole::Player(GameSide::White)));
    assert_eq!(RoomRole::from_code(2), Some(RoomRole::Spectator));
    assert_eq!(RoomRole::from_code(3), None);
}

#[test]
fn error_values() {
    assert_eq!(StateError::new("duplicate_room_id").reason, "duplicate_room_id");
    let v = ValidationError::new("room_id", Some("too_long"));
    assert_eq!(v.field, "room_id");
    assert_eq!(v.reason, Some("too_long"));
    let params = PostCreateRoomParams {
        room_id: String::from("r"),
        nickname: None,
        role: RoomRole::Spectator,
        settings: Some(settings(9)),
    };
    assert_eq!(params.role, RoomRole::Spectator);
}

use connect_5_rs::{
    Game, GameSerializeError, GameSerializer, GameSide, GameState, GameStateSerializer,
    GameStepError, Point,
};

fn p(x: usize, y: usize) -> Point {
    Point::new(x, y)
}

fn scenario_a_steps() -> Vec<Point> {
    vec![
        p(0, 0),
        p(1, 2),
        p(1, 1),
        p(2, 3),
        p(2, 2),
        p(12, 2),
        p(3, 3),
        p(11, 12),
        p(4, 4),
    ]
}

fn state(tag: &str, side: Option<u16>, points: Option<Vec<(u32, u32)>>) -> GameStateSerializer {
    GameStateSerializer { state: tag.to_string(), side, points }
}

fn steps_of(game: &Game) -> Vec<Point> {
    game.iter_steps().iter().map(|(_, pt)| *pt).collect()
}

#[test]
fn encode_finished_game() {
    let game = Game::from_steps(15, &scenario_a_steps()).unwrap();
    let w = GameSerializer::from_game(&game);
    assert_eq!(w.size, 15);
    assert_eq!(
        w.steps,
        vec![(0, 0), (1, 2), (1, 1), (2, 3), (2, 2), (12, 2), (3, 3), (11, 12), (4, 4)]
    );
    assert_eq!(w.state.state, "finished");
    assert_eq!(w.state.side, Some(0));
    assert_eq!(w.state.points, Some(vec![(0, 0), (1, 1), (2, 2), (3, 3), (4, 4)]));
}

#[test]
fn encode_normal_and_full_games() {
    let game = Game::from_steps(9, &[p(1, 1)]).unwrap();
    let w = GameSerializer::from_game(&game);
    assert_eq!(w.size, 9);
    assert_eq!(w.steps, vec![(1, 1)]);
    assert_eq!(w.state.state, "normal");
    assert_eq!(w.state.side, None);
    assert_eq!(w.state.points, None);

    let full = Game::from_steps(1, &[p(0, 0)]).unwrap();
    let w = GameSerializer::from_game(&full);
    assert_eq!(w.state.state, "board_full");
    assert_eq!(w.state.side, None);
    assert_eq!(w.state.points, None);
}

#[test]
fn round_trip_keeps_steps_and_winner() {
    let cases: Vec<(usize, Vec<Point>)> = vec![
        (15, scenario_a_steps()),
        (9, vec![p(1, 1), p(2, 2), p(3, 3)]),
        (1, vec![p(0, 0)]),
        (5, vec![]),
    ];
    for (size, steps) in cases {
        let game = Game::from_steps(size, &steps).unwrap();
        let decoded = GameSerializer::from_game(&game).to_game().unwrap();
        assert_eq!(decoded.size(), size);
        assert_eq!(steps_of(&decoded), steps);
        match (game.state(), decoded.state()) {
            (GameState::Normal, GameState::Normal) => {}
            (GameState::BoardFull, GameState::BoardFull) => {}
            (
                GameState::Finished { winner_side: a, .. },
                GameState::Finished { winner_side: b, .. },
            ) => assert_eq!(a, b),
            _ => panic!("states differ"),
        }
    }
}

#[test]
fn scenario_d_normal_tag_on_won_game() {
    let w = GameSerializer {
        size: 15,
        steps: vec![(0, 0), (1, 2), (1, 1), (2, 3), (2, 2), (12, 2), (3, 3), (11, 12), (4, 4)],
        state: state("normal", None, None),
    };
    assert_eq!(w.to_game().err(), Some(GameSerializeError::InvalidState));
}

#[test]
fn decode_accepts_another_winning_line() {
    let w = GameSerializer {
        size: 15,
        steps: vec![(0, 0), (1, 2), (1, 1), (2, 3), (2, 2), (12, 2), (3, 3), (11, 12), (4, 4)],
        state: state("finished", Some(0), Some(vec![(9, 9)])),
    };
    let game = w.to_game().unwrap();
    assert_eq!(steps_of(&game), scenario_a_steps());
}

#[test]
fn decode_rejects_wrong_winner_or_kind() {
    let steps = vec![(0, 0), (1, 2), (1, 1), (2, 3), (2, 2), (12, 2), (3, 3), (11, 12), (4, 4)];
    let cases = vec![
        state("finished", Some(1), Some(vec![])),
        state("finished", Some(2), Some(vec![])),
        state("finished", None, Some(vec![])),
        state("finished", Some(0), None),
        state("board_full", None, None),
        state("won", None, None),
    ];
    for st in cases {
        let w = GameSerializer { size: 15, steps: steps.clone(), state: st };
        assert_eq!(w.to_game().err(), Some(GameSerializeError::InvalidState));
    }
    let w = GameSerializer { size: 9, steps: vec![(0, 0)], state: state("finished", Some(0), Some(vec![])) };
    assert_eq!(w.to_game().err(), Some(GameSerializeError::InvalidState));
}

#[test]
fn decode_reports_step_errors() {
    let normal = || state("normal", None, None);
    let w = GameSerializer { size: 9, steps: vec![(0, 0), (9, 0)], state: normal() };
    assert_eq!(
        w.to_game().err(),
        Some(GameSerializeError::CannotAddStep(GameStepError::InvalidPoint))
    );
    let w = GameSerializer { size: 9, steps: vec![(0, 0), (0, 0)], state: normal() };
    assert_eq!(
        w.to_game().err(),
        Some(GameSerializeError::CannotAddStep(GameStepError::PointTaken))
    );
    let mut steps = vec![(0, 0), (1, 2), (1, 1), (2, 3), (2, 2), (12, 2), (3, 3), (11, 12), (4, 4)];
    steps.push((10, 10));
    let w = GameSerializer { size: 15, steps, state: state("finished", Some(0), Some(vec![])) };
    assert_eq!(
        w.to_game().err(),
        Some(GameSerializeError::CannotAddStep(GameStepError::GameOver))
    );
    let w = GameSerializer { size: 0, steps: vec![], state: normal() };
    assert_eq!(w.to_game().err(), Some(GameSerializeError::InvalidSize));
}

#[test]
fn state_codes() {
    let st = state("finished", Some(1), Some(vec![(2, 3)]));
    match st.to_state() {
        Some(GameState::Finished { winner_side, points }) => {
            assert_eq!(winner_side, GameSide::White);
            assert_eq!(points, vec![p(2, 3)]);
        }
        _ => panic!("expected a finished state"),
    }
    assert!(matches!(state("normal", None, None).to_state(), Some(GameState::Normal)));
    assert!(matches!(state("board_full", None, None).to_state(), Some(GameState::BoardFull)));
    assert!(state("unknown", None, None).to_state().is_none());
    let back = GameStateSerializer::from_state(&GameState::Finished {
        winner_side: GameSide::White,
        points: vec![p(2, 3)],
    });
    assert_eq!(back.state, "finished");
    assert_eq!(back.side, Some(1));
    assert_eq!(back.points, Some(vec![(2, 3)]));
    assert_eq!(
        GameSerializeError::InvalidState.message(),
        "invalid state - given state does not match derived state"
    );
    assert_eq!(GameStepError::PointTaken.message(), "point is already taken on the board");
}

use connect_5_rs::{Game, GameSide, GameSpot, GameState, GameStepError, Point};

fn p(x: usize, y: usize) -> Point {
    Point::new(x, y)
}

fn scenario_a_steps() -> Vec<Point> {
    vec![
        p(0, 0),
        p(1, 2),
        p(1, 1),
        p(2, 3),
        p(2, 2),
        p(12, 2),
        p(3, 3),
        p(11, 12),
        p(4, 4),
    ]
}

#[test]
fn new_board_is_empty_and_not_full() {
    for n in 1..=21usize {
        let game = Game::new(n);
        let points = game.iter_points();
        assert_eq!(points.len(), n * n);
        for pt in points.iter() {
            assert!(pt.x < n && pt.y < n);
            assert_eq!(game.spot(pt), GameSpot::Empty);
        }
        assert!(matches!(game.state(), GameState::Normal));
        assert_eq!(game.turn(), GameSide::Black);
    }
}

#[test]
fn points_are_listed_row_by_row() {
    let game = Game::new(3);
    let expected = vec![p(0, 0), p(1, 0), p(2, 0), p(0, 1), p(1, 1), p(2, 1), p(0, 2), p(1, 2), p(2, 2)];
    assert_eq!(game.iter_points(), &expected);
}

#[test]
fn board_not_full_until_last_step() {
    let n = 4;
    let mut game = Game::new(n);
    let mut all = Vec::new();
    for x in 0..n {
        for y in 0..n {
            all.push(p(x, y));
        }
    }
    for (i, pt) in all.iter().enumerate() {
        assert!(matches!(game.state(), GameState::Normal));
        game.add_step(*pt).unwrap();
        if i + 1 < all.len() {
            assert!(matches!(game.state(), GameState::Normal));
        }
    }
    assert!(matches!(game.state(), GameState::BoardFull));
}

#[test]
fn full_board_without_five_is_a_draw() {
    let mut steps = Vec::new();
    for y in 0..4 {
        for x in 0..4 {
            steps.push(p(x, y));
        }
    }
    let game = Game::from_steps(4, &steps).unwrap();
    assert!(matches!(game.state(), GameState::BoardFull));
    let single = Game::from_steps(1, &[p(0, 0)]).unwrap();
    assert!(matches!(single.state(), GameState::BoardFull));
}

#[test]
fn scenario_a_diagonal_win() {
    let game = Game::from_steps(15, &scenario_a_steps()).unwrap();
    match game.state() {
        GameState::Finished { winner_side, points } => {
            assert_eq!(*winner_side, GameSide::Black);
            assert_eq!(points, &vec![p(0, 0), p(1, 1), p(2, 2), p(3, 3), p(4, 4)]);
        }
        _ => panic!("expected a finished game"),
    }
}

#[test]
fn scenario_b_already_taken_changes_nothing() {
    let mut game = Game::new(15);
    game.add_step(p(3, 4)).unwrap();
    game.add_step(p(5, 5)).unwrap();
    let spot = game.spot(&p(3, 4));
    let len = game.iter_steps().len();
    let turn = game.turn();
    assert_eq!(game.add_step(p(3, 4)), Err(GameStepError::PointTaken));
    assert_eq!(game.spot(&p(3, 4)), spot);
    assert_eq!(game.spot(&p(3, 4)), GameSpot::Taken(GameSide::Black));
    assert_eq!(game.iter_steps().len(), len);
    assert_eq!(game.turn(), turn);
    assert!(matches!(game.state(), GameState::Normal));
}

#[test]
fn scenario_c_out_of_bounds() {
    for n in 1..=25usize {
        let mut game = Game::new(n);
        assert_eq!(game.add_step(p(n, 0)), Err(GameStepError::InvalidPoint));
        assert_eq!(game.add_step(p(0, n)), Err(GameStepError::InvalidPoint));
        assert_eq!(game.iter_steps().len(), 0);
    }
}

#[test]
fn no_steps_after_game_over() {
    let mut game = Game::from_steps(15, &scenario_a_steps()).unwrap();
    assert_eq!(game.add_step(p(10, 10)), Err(GameStepError::GameOver));
    assert_eq!(game.iter_steps().len(), 9);
    assert_eq!(game.spot(&p(10, 10)), GameSpot::Empty);
    let mut more = scenario_a_steps();
    more.push(p(10, 10));
    assert_eq!(Game::from_steps(15, &more).err(), Some(GameStepError::GameOver));
}

#[test]
fn from_steps_reports_first_error() {
    let steps = vec![p(0, 0), p(1, 1), p(0, 0), p(20, 20)];
    assert_eq!(Game::from_steps(15, &steps).err(), Some(GameStepError::PointTaken));
    let steps = vec![p(0, 0), p(20, 20), p(0, 0)];
    assert_eq!(Game::from_steps(15, &steps).err(), Some(GameStepError::InvalidPoint));
}

#[test]
fn validation_is_repeatable() {
    let mut game = Game::new(9);
    game.add_step(p(4, 4)).unwrap();
    for _ in 0..3 {
        assert_eq!(game.validate_step(&p(4, 4)), Err(GameStepError::PointTaken));
        assert_eq!(game.validate_step(&p(9, 1)), Err(GameStepError::InvalidPoint));
        assert_eq!(game.validate_step(&p(1, 1)), Ok(()));
    }
    assert_eq!(game.iter_steps().len(), 1);
    game.add_step(p(1, 1)).unwrap();
    assert_eq!(game.validate_step(&p(1, 1)), Err(GameStepError::PointTaken));
}

#[test]
fn turns_alternate() {
    let game = Game::from_steps(9, &[p(0, 0), p(1, 0), p(2, 0), p(3, 0), p(4, 0)]).unwrap();
    let steps = game.iter_steps();
    assert_eq!(steps.len(), 5);
    for (i, (side, pt)) in steps.iter().enumerate() {
        let expected = if i % 2 == 0 { GameSide::Black } else { GameSide::White };
        assert_eq!(*side, expected);
        assert_eq!(*pt, p(i, 0));
        assert_eq!(game.spot(pt), GameSpot::Taken(expected));
    }
    assert_eq!(game.turn(), GameSide::White);
    assert_eq!(GameSide::Black.toggle(), GameSide::White);
    assert_eq!(GameSide::White.toggle(), GameSide::Black);
}

#[test]
fn white_can_win_on_a_column() {
    let steps = vec![
        p(0, 0), p(5, 0), p(0, 2), p(5, 1), p(0, 4), p(5, 2), p(0, 6), p(5, 3), p(8, 8), p(5, 4),
    ];
    let game = Game::from_steps(9, &steps).unwrap();
    match game.state() {
        GameState::Finished { winner_side, points } => {
            assert_eq!(*winner_side, GameSide::White);
            assert_eq!(points, &vec![p(5, 0), p(5, 1), p(5, 2), p(5, 3), p(5, 4)]);
        }
        _ => panic!("expected a finished game"),
    }
}

#[test]
fn tie_break_is_deterministic() {
    // The last black step completes a vertical and a horizontal run at once.
    let steps = vec![
        p(4, 0), p(0, 8), p(4, 1), p(1, 8), p(4, 2), p(2, 8), p(4, 3), p(3, 8),
        p(0, 4), p(8, 0), p(1, 4), p(8, 1), p(2, 4), p(8, 2), p(3, 4), p(7, 1),
        p(4, 4),
    ];
    let first = Game::from_steps(15, &steps).unwrap();
    let second = Game::from_steps(15, &steps).unwrap();
    let line = |g: &Game| match g.state() {
        GameState::Finished { winner_side, points } => (*winner_side, points.clone()),
        _ => panic!("expected a finished game"),
    };
    let (side1, points1) = line(&first);
    let (side2, points2) = line(&second);
    assert_eq!(side1, GameSide::Black);
    assert_eq!(side1, side2);
    assert_eq!(points1, points2);
    // Lines with a fixed `x` come first in scan order: x = 4 is scanned before y = 4.
    assert_eq!(points1, vec![p(4, 0), p(4, 1), p(4, 2), p(4, 3), p(4, 4)]);
}

#[test]
fn spot_reports_pieces() {
    assert!(GameSpot::Empty.is_empty());
    assert!(!GameSpot::Taken(GameSide::White).is_empty());
    assert_eq!(Point::new(3, 7), Point { x: 3, y: 7 });
}

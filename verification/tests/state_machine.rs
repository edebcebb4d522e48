//! The commit protocol: admission, atomicity, truncation.
use robot_path::action::Action;
use robot_path::error::ActionCreationError;
use robot_path::robot_state::{RobotState, FIELD_HALF_WIDTH};
use robot_path::vec::Vec2;

/// Metres to nanometres (or radians to nanoradians).
fn nano(v: f64) -> i64 {
    (v * 1e9).round() as i64
}

fn start_at(x: f64, y: f64, heading: f64) -> Action {
    Action::StartAt { pos: Vec2 { x: nano(x), y: nano(y) }, heading: nano(heading) }
}

#[test]
fn move_along_x_axis_lands_one_metre_out() {
    let mut state = RobotState::new();
    assert!(state.try_action(start_at(0.0, 0.0, 0.0)).is_ok());
    assert!(state.try_action(Action::MoveRel { rel: nano(1.0) }).is_ok());
    let pos = state.position();
    assert!((pos.x - 1_000_000_000).abs() <= 1_000);
    assert!(pos.y.abs() <= 1_000);
    assert_eq!(state.heading(), 0);
}

#[test]
fn move_past_the_wall_is_rejected_and_nothing_changes() {
    let mut state = RobotState::new();
    assert!(state.try_action(start_at(1.8, 0.0, 0.0)).is_ok());
    let verdict = state.try_action(Action::MoveRel { rel: nano(0.1) });
    assert_eq!(verdict, Err(ActionCreationError::OutOfBounds));
    assert_eq!(state.actions().len(), 1);
    assert_eq!(state.position(), Vec2 { x: nano(1.8), y: 0 });
}

#[test]
fn moving_before_starting_is_rejected() {
    let mut state = RobotState::new();
    let verdict = state.try_action(Action::MoveRel { rel: nano(1.0) });
    assert_eq!(verdict, Err(ActionCreationError::MissingStart));
    assert_eq!(state.actions().len(), 0);
}

#[test]
fn turning_before_starting_is_rejected_too() {
    let mut state = RobotState::new();
    let verdict = state.try_action(Action::TurnRel { angle: nano(1.0) });
    assert_eq!(verdict, Err(ActionCreationError::MissingStart));
    assert_eq!(state.actions().len(), 0);
}

#[test]
fn starting_twice_is_rejected() {
    let mut state = RobotState::new();
    assert!(state.try_action(start_at(0.0, 0.0, 0.0)).is_ok());
    let verdict = state.try_action(start_at(0.5, 0.5, 0.0));
    assert_eq!(verdict, Err(ActionCreationError::DuplicateStart));
    assert_eq!(state.actions().len(), 1);
}

#[test]
fn move_to_sets_bearing_of_the_move() {
    let mut state = RobotState::new();
    assert!(state.try_action(start_at(0.0, 0.0, 0.0)).is_ok());
    assert!(state.try_action(Action::MoveTo { pos: Vec2 { x: nano(1.0), y: nano(1.0) } }).is_ok());
    assert_eq!(state.position(), Vec2 { x: nano(1.0), y: nano(1.0) });
    // The bearing of (1, 1) is a quarter of pi: 45 degrees.
    let expected = std::f64::consts::FRAC_PI_4;
    assert!((state.heading() - nano(expected)).abs() <= 100);
}

#[test]
fn rejection_leaves_the_state_byte_for_byte_unchanged() {
    let mut state = RobotState::new();
    assert!(state.try_action(start_at(0.25, -0.5, 1.25)).is_ok());
    assert!(state.try_action(Action::TurnRel { angle: nano(0.7) }).is_ok());
    let actions_before = state.actions().clone();
    let pos_before = state.position();
    let heading_before = state.heading();
    assert_eq!(
        state.try_action(Action::MoveRel { rel: nano(30.0) }),
        Err(ActionCreationError::OutOfBounds)
    );
    assert_eq!(state.actions(), &actions_before);
    assert_eq!(state.position(), pos_before);
    assert_eq!(state.heading(), heading_before);
}

#[test]
fn remove_last_matches_committing_the_prefix_from_scratch() {
    let a = start_at(0.3, -0.2, 0.5);
    let b = Action::MoveRel { rel: nano(0.8) };
    let c = Action::TurnRel { angle: nano(-1.1) };
    let d = Action::MoveRel { rel: nano(0.6) };

    let mut shorter = RobotState::new();
    for action in [a, b, c] {
        assert!(shorter.try_action(action).is_ok());
    }

    let mut longer = RobotState::new();
    for action in [a, b, c, d] {
        assert!(longer.try_action(action).is_ok());
    }
    longer.remove_last();

    assert_eq!(longer.actions(), shorter.actions());
    assert_eq!(longer.position(), shorter.position());
    assert_eq!(longer.heading(), shorter.heading());
}

#[test]
fn remove_last_on_an_empty_state_is_a_no_op() {
    let mut state = RobotState::new();
    state.remove_last();
    assert_eq!(state.actions().len(), 0);
    assert_eq!(state.position(), Vec2 { x: 0, y: 0 });
    assert_eq!(state.heading(), 0);
}

#[test]
fn committed_sequence_starts_once_and_stays_inside_the_field() {
    let mut state = RobotState::new();
    let actions = [
        start_at(0.0, -1.7, 0.0),
        Action::MoveRelAbs { rel: nano(0.2) },
        Action::MoveRel { rel: nano(1.0) },
        Action::TurnRel { angle: nano(1.0) },
        Action::MoveRel { rel: nano(0.5) },
    ];
    for action in actions {
        assert!(state.try_action(action).is_ok());
        // The invariants, observed after every successful commit.
        let committed = state.actions();
        assert!(matches!(committed[0], Action::StartAt { .. }));
        for later in &committed[1..] {
            assert!(!matches!(later, Action::StartAt { .. }));
        }
        let pos = state.position();
        assert!(pos.x.abs() < FIELD_HALF_WIDTH);
        assert!(pos.y.abs() < FIELD_HALF_WIDTH);
    }
    assert_eq!(state.actions().len(), actions.len());
}

#[test]
fn the_field_bound_is_exclusive() {
    let mut state = RobotState::new();
    let on_the_wall = Action::StartAt { pos: Vec2 { x: FIELD_HALF_WIDTH, y: 0 }, heading: 0 };
    assert_eq!(state.try_action(on_the_wall), Err(ActionCreationError::OutOfBounds));
    let just_inside = Action::StartAt { pos: Vec2 { x: FIELD_HALF_WIDTH - 1, y: 0 }, heading: 0 };
    assert!(state.try_action(just_inside).is_ok());
}

#[test]
fn turns_never_fail_the_bounds_check() {
    let mut state = RobotState::new();
    assert!(state.try_action(start_at(1.82, 1.82, 0.0)).is_ok());
    assert!(state.try_action(Action::TurnRel { angle: i64::MAX }).is_ok());
    assert!(state.try_action(Action::TurnRelAbs { angle: i64::MIN }).is_ok());
    assert!(state.try_action(Action::TurnTo { heading: nano(3.0) }).is_ok());
    assert_eq!(state.position(), Vec2 { x: nano(1.82), y: nano(1.82) });
    assert_eq!(state.heading(), nano(3.0));
}

#[test]
fn seeding_drops_only_the_rejected_actions() {
    let actions = vec![
        start_at(0.0, 0.0, 0.0),
        Action::MoveRel { rel: nano(1.0) },
        Action::MoveRel { rel: nano(5.0) },   // would leave the field: dropped
        start_at(0.1, 0.1, 0.0),              // duplicate start: dropped
        Action::TurnRel { angle: nano(0.5) },
    ];
    let state = RobotState::from_actions(actions);
    assert_eq!(state.actions().len(), 3);
    assert!(matches!(state.actions()[0], Action::StartAt { .. }));
    assert!(matches!(state.actions()[1], Action::MoveRel { .. }));
    assert!(matches!(state.actions()[2], Action::TurnRel { .. }));
    assert!((state.position().x - nano(1.0)).abs() <= 1_000);
}

#[test]
fn seeding_an_invalid_first_action_gives_an_empty_state() {
    let state = RobotState::from_actions(vec![Action::MoveRel { rel: nano(1.0) }]);
    assert_eq!(state.actions().len(), 0);
    assert_eq!(state.position(), Vec2 { x: 0, y: 0 });
}

#[test]
fn loud_seeding_reports_the_first_rejection_with_its_index() {
    let actions = vec![
        start_at(0.0, 0.0, 0.0),
        Action::MoveRel { rel: nano(1.0) },
        Action::MoveRel { rel: nano(5.0) },
        start_at(0.1, 0.1, 0.0),
    ];
    let seeded = RobotState::try_from_actions(actions);
    assert_eq!(
        seeded.map(|_| ()),
        Err((2, ActionCreationError::OutOfBounds))
    );

    let fine = vec![start_at(0.0, 0.0, 0.0), Action::MoveRel { rel: nano(1.0) }];
    let state = RobotState::try_from_actions(fine).unwrap();
    assert_eq!(state.actions().len(), 2);
}

#[test]
fn is_valid_next_reports_without_mutating() {
    let mut state = RobotState::new();
    assert!(state.try_action(start_at(0.0, 0.0, 0.0)).is_ok());
    let candidate = Action::MoveRel { rel: nano(9.9) };
    assert_eq!(state.is_valid_next(&candidate), Err(ActionCreationError::OutOfBounds));
    assert_eq!(state.is_valid_next(&candidate), Err(ActionCreationError::OutOfBounds));
    assert_eq!(state.actions().len(), 1);
    let fine = Action::MoveRel { rel: nano(0.5) };
    assert_eq!(state.is_valid_next(&fine), Ok(()));
    assert_eq!(state.actions().len(), 1);
}

#[test]
fn undoing_everything_returns_to_the_origin() {
    let mut state = RobotState::new();
    assert!(state.try_action(start_at(0.4, 0.4, 1.0)).is_ok());
    assert!(state.try_action(Action::MoveRel { rel: nano(0.3) }).is_ok());
    state.remove_last();
    state.remove_last();
    assert_eq!(state.actions().len(), 0);
    assert_eq!(state.position(), Vec2 { x: 0, y: 0 });
    assert_eq!(state.heading(), 0);
}

#[test]
fn precomputed_moves_displace_exactly_like_odometry_moves() {
    let mut odometry = RobotState::new();
    assert!(odometry.try_action(start_at(0.0, 0.0, 0.7)).is_ok());
    assert!(odometry.try_action(Action::MoveRel { rel: nano(0.9) }).is_ok());

    let mut precomputed = RobotState::new();
    assert!(precomputed.try_action(start_at(0.0, 0.0, 0.7)).is_ok());
    assert!(precomputed.try_action(Action::MoveRelAbs { rel: nano(0.9) }).is_ok());

    assert_eq!(odometry.position(), precomputed.position());
    assert_eq!(odometry.heading(), precomputed.heading());
}

#[test]
fn headings_accumulate_without_normalisation() {
    let mut state = RobotState::new();
    assert!(state.try_action(start_at(0.0, 0.0, 0.0)).is_ok());
    let two_pi = nano(2.0 * std::f64::consts::PI);
    for _ in 0..3 {
        assert!(state.try_action(Action::TurnRel { angle: two_pi }).is_ok());
    }
    assert_eq!(state.heading(), 3 * two_pi);
}

#[test]
fn error_messages_match_the_status_line() {
    assert_eq!(ActionCreationError::MissingStart.message(), "Start First!");
    assert_eq!(ActionCreationError::DuplicateStart.message(), "Can Only Start Once!");
    assert_eq!(ActionCreationError::InvalidField.message(), "Error in Fields!");
    assert_eq!(ActionCreationError::OutOfBounds.message(), "Out of Bounds!");
}

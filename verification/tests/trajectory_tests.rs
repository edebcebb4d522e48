//! Path simplification and the rendered polyline.
use robot_path::action::Action;
use robot_path::robot_state::RobotState;
use robot_path::trajectory::{simplify, POINT_EPSILON};
use robot_path::vec::Vec2;

fn nano(v: f64) -> i64 {
    (v * 1e9).round() as i64
}

fn point(x: f64, y: f64) -> Vec2 {
    Vec2 { x: nano(x), y: nano(y) }
}

#[test]
fn a_millimetre_wiggle_is_coalesced() {
    let dense = vec![point(0.0, 0.0), point(0.0, 0.001), point(0.0, 1.0)];
    let simplified = simplify(&dense);
    assert_eq!(simplified, vec![point(0.0, 0.0), point(0.0, 1.0)]);
}

#[test]
fn the_same_wiggle_is_coalesced_through_the_renderer() {
    let mut state = RobotState::new();
    assert!(state.try_action(Action::StartAt { pos: point(0.0, 0.0), heading: 0 }).is_ok());
    assert!(state.try_action(Action::MoveTo { pos: point(0.0, 0.001) }).is_ok());
    assert!(state.try_action(Action::MoveTo { pos: point(0.0, 1.0) }).is_ok());
    assert_eq!(state.render(), vec![point(0.0, 0.0), point(0.0, 1.0)]);
}

#[test]
fn rendering_keeps_the_start_spaces_vertices_and_repeats_itself() {
    let mut state = RobotState::new();
    let actions = [
        Action::StartAt { pos: point(-1.0, -1.0), heading: 0 },
        Action::MoveRel { rel: nano(0.5) },
        Action::MoveRel { rel: nano(0.004) },
        Action::TurnRel { angle: nano(1.2) },
        Action::MoveRel { rel: nano(0.75) },
        Action::MoveTo { pos: point(0.5, -0.25) },
        Action::MoveRel { rel: nano(-0.006) },
    ];
    for action in actions {
        assert!(state.try_action(action).is_ok());
    }
    let path = state.render();
    assert!(!path.is_empty());
    assert_eq!(path[0], point(-1.0, -1.0));
    for pair in path.windows(2) {
        let dx = (pair[1].x - pair[0].x) as i128;
        let dy = (pair[1].y - pair[0].y) as i128;
        let eps = POINT_EPSILON as i128;
        assert!(dx * dx + dy * dy > eps * eps);
    }
    // Replaying the same committed sequence twice is deterministic.
    assert_eq!(state.render(), path);
}

#[test]
fn an_empty_state_renders_nothing() {
    let state = RobotState::new();
    assert_eq!(state.render(), Vec::<Vec2>::new());
}

#[test]
fn a_lone_start_renders_a_single_vertex() {
    let mut state = RobotState::new();
    assert!(state.try_action(Action::StartAt { pos: point(0.25, 0.5), heading: 0 }).is_ok());
    assert_eq!(state.render(), vec![point(0.25, 0.5)]);
}

#[test]
fn the_coalescing_threshold_is_strict() {
    // Exactly one centimetre apart: not strictly farther, so coalesced.
    let touching = vec![Vec2 { x: 0, y: 0 }, Vec2 { x: POINT_EPSILON, y: 0 }];
    assert_eq!(simplify(&touching), vec![Vec2 { x: 0, y: 0 }]);
    // One nanometre past the threshold: kept.
    let apart = vec![Vec2 { x: 0, y: 0 }, Vec2 { x: POINT_EPSILON + 1, y: 0 }];
    assert_eq!(simplify(&apart), apart);
}

#[test]
fn simplify_of_an_empty_list_is_empty() {
    assert_eq!(simplify(&Vec::new()), Vec::<Vec2>::new());
}

#[test]
fn consecutive_near_duplicates_collapse_onto_the_first() {
    let dense = vec![
        point(0.0, 0.0),
        point(0.004, 0.0),
        point(0.008, 0.0),
        point(0.0, 0.0),
        point(0.009, 0.0),
    ];
    // Every point stays within a centimetre of the first kept vertex.
    assert_eq!(simplify(&dense), vec![point(0.0, 0.0)]);
}

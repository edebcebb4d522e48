//! Fixed-point numerics: trigonometry, vectors, parsing and building.
use robot_path::builder::{build_action, parse_decimal_nano, ActionKind};
use robot_path::action::Action;
use robot_path::error::ActionCreationError;
use robot_path::field_labels::FieldLabel;
use robot_path::trig::{atan2_nano, cos_nano, sin_nano};
use robot_path::units::{AngleUnit, LengthUnit, Unit};
use robot_path::vec::Vec2;

fn nano(v: f64) -> i64 {
    (v * 1e9).round() as i64
}

#[test]
fn sine_and_cosine_track_the_real_functions() {
    let angles = [
        0.0,
        0.5,
        -0.5,
        1.0,
        std::f64::consts::FRAC_PI_2,
        std::f64::consts::PI,
        2.0 * std::f64::consts::PI,
        3.7,
        -2.5,
        100.0,
        -12345.678,
    ];
    for a in angles {
        let s = sin_nano(nano(a)) as f64 / 1e9;
        let c = cos_nano(nano(a)) as f64 / 1e9;
        assert!((s - a.sin()).abs() < 2e-5, "sin({a}): {s}");
        assert!((c - a.cos()).abs() < 2e-5, "cos({a}): {c}");
    }
}

#[test]
fn sine_and_cosine_are_exact_at_zero() {
    assert_eq!(sin_nano(0), 0);
    assert_eq!(cos_nano(0), 1_000_000_000);
}

#[test]
fn bearings_track_the_real_atan2() {
    let pairs = [
        (0.0, 1.0),
        (1.0, 0.0),
        (1.0, 1.0),
        (-1.0, 1.0),
        (-1.0, -1.0),
        (1.0, -1.0),
        (0.3, -0.7),
        (0.0, -1.0),
        (-0.2, 0.0),
    ];
    for (y, x) in pairs {
        let got = atan2_nano(nano(y) as i128, nano(x) as i128) as f64 / 1e9;
        assert!((got - y.atan2(x)).abs() < 2e-5, "atan2({y}, {x}): {got}");
    }
}

#[test]
fn vector_algebra_is_exact() {
    let a = Vec2 { x: 300_000_000, y: 400_000_000 };
    let b = Vec2 { x: -100_000_000, y: 250_000_000 };
    assert_eq!(a.x(), 300_000_000);
    assert_eq!(a.y(), 400_000_000);
    assert_eq!(a.add(b), Vec2 { x: 200_000_000, y: 650_000_000 });
    assert_eq!(a.sub(b), Vec2 { x: 400_000_000, y: 150_000_000 });
    assert_eq!(a.neg(), Vec2 { x: -300_000_000, y: -400_000_000 });
    assert_eq!(a.mul(nano(0.5)), Vec2 { x: 150_000_000, y: 200_000_000 });
    assert_eq!(a.div(nano(2.0)), Vec2 { x: 150_000_000, y: 200_000_000 });
    assert_eq!(
        a.dot(&b),
        300_000_000i128 * -100_000_000i128 + 400_000_000i128 * 250_000_000i128
    );
    assert_eq!(a.mag_sq(), 250_000_000_000_000_000i128);
    assert_eq!(a.mag(), 500_000_000);
    // A three-four-five triangle normalises exactly.
    assert_eq!(a.normalised(), Vec2 { x: 600_000_000, y: 800_000_000 });
}

#[test]
fn a_coordinate_pair_converts_into_a_vector() {
    assert_eq!(Vec2::from([3, -4]), Vec2 { x: 3, y: -4 });
}

#[test]
fn mutable_coordinate_access_writes_through() {
    let mut v = Vec2 { x: 1, y: 2 };
    *v.mut_x() = 10;
    *v.mut_y() = 20;
    assert_eq!(v, Vec2 { x: 10, y: 20 });
}

#[test]
fn decimal_fields_parse_to_nano_units() {
    assert_eq!(parse_decimal_nano(b"1.5"), Some(1_500_000_000));
    assert_eq!(parse_decimal_nano(b"-0.25"), Some(-250_000_000));
    assert_eq!(parse_decimal_nano(b"+2"), Some(2_000_000_000));
    assert_eq!(parse_decimal_nano(b"0"), Some(0));
    assert_eq!(parse_decimal_nano(b".5"), Some(500_000_000));
    assert_eq!(parse_decimal_nano(b"5."), Some(5_000_000_000));
    assert_eq!(parse_decimal_nano(b"1.2345678949"), Some(1_234_567_894));
}

#[test]
fn malformed_fields_are_rejected() {
    assert_eq!(parse_decimal_nano(b""), None);
    assert_eq!(parse_decimal_nano(b"."), None);
    assert_eq!(parse_decimal_nano(b"-"), None);
    assert_eq!(parse_decimal_nano(b"1.2.3"), None);
    assert_eq!(parse_decimal_nano(b"abc"), None);
    assert_eq!(parse_decimal_nano(b"1e3"), None);
    assert_eq!(parse_decimal_nano(b" 1"), None);
    assert_eq!(parse_decimal_nano(b"99999999999999999999"), None);
}

#[test]
fn parsing_saturates_exactly_at_the_representable_edge() {
    assert_eq!(parse_decimal_nano(b"9223372036.854775807"), Some(i64::MAX));
    assert_eq!(parse_decimal_nano(b"9223372036.854775808"), None);
}

#[test]
fn unit_factors_scale_fields_exactly() {
    assert_eq!(LengthUnit::Metre.modifier(), 1_000_000_000);
    assert_eq!(LengthUnit::Inch.modifier(), 25_400_000);
    assert_eq!(LengthUnit::Foot.modifier(), 304_800_000);
    assert_eq!(AngleUnit::Radian.modifier(), 1_000_000_000);
    assert_eq!(AngleUnit::Degree.modifier(), 17_453_293);

    // Twelve inches are exactly a foot.
    let built = build_action(
        &ActionKind::MoveRel,
        "12",
        "",
        "",
        LengthUnit::Inch,
        AngleUnit::Radian,
    );
    assert_eq!(built, Ok(Action::MoveRel { rel: 304_800_000 }));
}

#[test]
fn a_filled_start_form_builds_the_start_action() {
    let built = build_action(
        &ActionKind::StartAt,
        "1.0",
        "0.5",
        "90",
        LengthUnit::Metre,
        AngleUnit::Degree,
    );
    assert_eq!(
        built,
        Ok(Action::StartAt {
            pos: Vec2 { x: 1_000_000_000, y: 500_000_000 },
            heading: 90 * 17_453_293,
        })
    );
}

#[test]
fn a_bad_field_reports_invalid_field() {
    let built = build_action(
        &ActionKind::MoveTo,
        "1.0",
        "oops",
        "",
        LengthUnit::Metre,
        AngleUnit::Degree,
    );
    assert_eq!(built, Err(ActionCreationError::InvalidField));
    let empty = build_action(
        &ActionKind::TurnTo,
        "",
        "",
        "",
        LengthUnit::Metre,
        AngleUnit::Radian,
    );
    assert_eq!(empty, Err(ActionCreationError::InvalidField));
}

#[test]
fn field_captions_follow_the_selected_kind() {
    assert_eq!(FieldLabel::for_input(&ActionKind::StartAt, 0), FieldLabel::X);
    assert_eq!(FieldLabel::for_input(&ActionKind::StartAt, 1), FieldLabel::Y);
    assert_eq!(FieldLabel::for_input(&ActionKind::StartAt, 2), FieldLabel::Heading);
    assert_eq!(FieldLabel::for_input(&ActionKind::MoveRel, 0), FieldLabel::Distance);
    assert_eq!(FieldLabel::for_input(&ActionKind::MoveRel, 1), FieldLabel::Unused);
    assert_eq!(FieldLabel::for_input(&ActionKind::MoveTo, 1), FieldLabel::Y);
    assert_eq!(FieldLabel::for_input(&ActionKind::TurnTo, 0), FieldLabel::Angle);
    assert_eq!(FieldLabel::Heading.label(), "Heading:");
    assert_eq!(FieldLabel::Unused.label(), "");
    assert!(FieldLabel::Distance.enabled());
    assert!(!FieldLabel::Unused.enabled());
    assert_eq!(LengthUnit::Metre.label(), "Metres");
    assert_eq!(AngleUnit::Degree.label(), "Degrees");
}

#[test]
fn action_projections_for_the_help_table() {
    let start = Action::StartAt { pos: Vec2 { x: 0, y: 0 }, heading: 0 };
    let move_rel = Action::MoveRel { rel: 0 };
    let move_abs = Action::MoveRelAbs { rel: 0 };
    let move_to = Action::MoveTo { pos: Vec2 { x: 0, y: 0 } };
    let turn_rel = Action::TurnRel { angle: 0 };
    let turn_to = Action::TurnTo { heading: 0 };
    assert_eq!(start.name(), "Start At");
    assert_eq!(move_rel.name(), "Move");
    assert_eq!(move_to.name(), "Move To");
    assert_eq!(turn_rel.name(), "Turn By");
    assert_eq!(turn_to.name(), "Turn To");
    assert_eq!(start.modifiers(), "Absolute");
    assert_eq!(move_rel.modifiers(), "Relative");
    assert_eq!(move_abs.modifiers(), "Relative (precomputed)");
    assert!(move_rel.description().contains("odometry"));
    assert!(turn_to.description().contains("target heading"));
}

#[test]
fn action_values_format_like_the_plan_table() {
    let start = Action::StartAt {
        pos: Vec2 { x: nano(0.5), y: nano(1.2) },
        heading: nano(std::f64::consts::FRAC_PI_2),
    };
    assert_eq!(start.value(), "(0.5m, 1.2m) @ 90 deg");
    assert_eq!(Action::MoveRel { rel: nano(2.0) }.value(), "2m");
    assert_eq!(Action::MoveRelAbs { rel: nano(-0.25) }.value(), "-0.25m");
    assert_eq!(
        Action::MoveTo { pos: Vec2 { x: 0, y: nano(0.1) } }.value(),
        "(0m, 0.1m)"
    );
    assert_eq!(Action::TurnRel { angle: nano(-std::f64::consts::PI) }.value(), "-180 deg");
    assert_eq!(Action::TurnTo { heading: nano(0.01) }.value(), "1 deg");
    assert_eq!(Action::TurnTo { heading: 0 }.value(), "0 deg");
}

#[test]
fn modify_position_advances_a_pose_in_place() {
    let mut pos = Vec2 { x: 0, y: 0 };
    let mut heading = 0i64;
    Action::TurnTo { heading: nano(std::f64::consts::FRAC_PI_2) }
        .modify_position(&mut pos, &mut heading);
    Action::MoveRel { rel: nano(1.0) }.modify_position(&mut pos, &mut heading);
    assert!(pos.x.abs() <= 1_000);
    assert!((pos.y - nano(1.0)).abs() <= 1_000);
    assert_eq!(heading, nano(std::f64::consts::FRAC_PI_2));
}

//! Which input fields an action kind needs, and how to caption them.
use crate::builder::ActionKind;
use vstd::prelude::*;

verus! {

/// The caption of one input field in the action form.
#[derive(Clone, Copy, PartialEq, Eq, Structural, Debug)]
pub enum FieldLabel {
    X,
    Y,
    Heading,
    Distance,
    Angle,
    Unused,
}

/// The caption the form shows for field `num` of an action kind: the
/// start takes a position and heading, moves a distance or a target, and
/// turns an angle; every other slot stays disabled.
pub open spec fn field_label_spec(kind: ActionKind, num: int) -> FieldLabel {
    match kind {
        ActionKind::TurnRel | ActionKind::TurnRelAbs | ActionKind::TurnTo => if num == 0 {
            FieldLabel::Angle
        } else {
            FieldLabel::Unused
        },
        ActionKind::MoveRel | ActionKind::MoveRelAbs => if num == 0 {
            FieldLabel::Distance
        } else {
            FieldLabel::Unused
        },
        ActionKind::MoveTo => if num == 0 {
            FieldLabel::X
        } else if num == 1 {
            FieldLabel::Y
        } else {
            FieldLabel::Unused
        },
        ActionKind::StartAt => if num == 0 {
            FieldLabel::X
        } else if num == 1 {
            FieldLabel::Y
        } else if num == 2 {
            FieldLabel::Heading
        } else {
            FieldLabel::Unused
        },
    }
}

impl FieldLabel {
    /// The caption the form shows for field `num` of an action kind.
    pub fn for_input(kind: &ActionKind, num: usize) -> (r: FieldLabel)
        ensures
            r == field_label_spec(*kind, num as int),
    {
        match (kind, num) {
            (ActionKind::TurnRel, 0) | (ActionKind::TurnRelAbs, 0) | (ActionKind::TurnTo, 0) => FieldLabel::Angle,
            (ActionKind::MoveRel, 0) | (ActionKind::MoveRelAbs, 0) => FieldLabel::Distance,
            (ActionKind::StartAt, 0) | (ActionKind::MoveTo, 0) => FieldLabel::X,
            (ActionKind::StartAt, 1) | (ActionKind::MoveTo, 1) => FieldLabel::Y,
            (ActionKind::StartAt, 2) => FieldLabel::Heading,
            _ => FieldLabel::Unused,
        }
    }

    /// The text of the caption.
    pub fn label(&self) -> (r: &'static str)
        ensures
            self is X ==> r@ == "X:"@,
            self is Y ==> r@ == "Y:"@,
            self is Heading ==> r@ == "Heading:"@,
            self is Distance ==> r@ == "Distance:"@,
            self is Angle ==> r@ == "Angle:"@,
            self is Unused ==> r@ == ""@,
    {
        match self {
            FieldLabel::X => "X:",
            FieldLabel::Y => "Y:",
            FieldLabel::Heading => "Heading:",
            FieldLabel::Distance => "Distance:",
            FieldLabel::Angle => "Angle:",
            FieldLabel::Unused => "",
        }
    }

    /// Whether the field is live at all: only captioned fields accept
    /// input; an unused slot stays greyed out.
    pub fn enabled(&self) -> (r: bool)
        ensures
            r == !(self is Unused),
    {
        !matches!(self, FieldLabel::Unused)
    }
}

} // verus!

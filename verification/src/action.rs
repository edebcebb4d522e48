//! Motion commands and how each one advances the robot's pose.
use crate::fixed::{mul_div_scale, wrap_i64};
use crate::trig::{atan2_spec, cos_spec, sin_spec};
use crate::vec::Vec2;
use vstd::prelude::*;

verus! {

/// A pose: where the robot is and which way it faces, the position in
/// nanometres and the heading in nanoradians. Heading zero points along
/// the positive x axis; the heading grows counter-clockwise.
#[derive(Clone, Copy, PartialEq, Eq, Structural, Debug)]
pub struct Pose {
    pub pos: Vec2,
    pub heading: i64,
}

impl Pose {
    /// The pose a fresh, never-started robot reports: the origin, facing
    /// along the positive x axis.
    pub fn origin() -> (r: Pose)
        ensures
            r == origin_spec(),
    {
        Pose { pos: Vec2 { x: 0, y: 0 }, heading: 0 }
    }
}

/// The pose a fresh, never-started robot reports.
pub open spec fn origin_spec() -> Pose {
    Pose { pos: Vec2 { x: 0, y: 0 }, heading: 0 }
}

/// One motion command. The sum is closed: adding a variant is meant to
/// fail every `match` in this crate until each rule says what it does.
#[derive(Clone, Copy, PartialEq, Eq, Structural, Debug)]
pub enum Action {
    /// Reset the pose outright; must come first, and only once.
    StartAt { pos: Vec2, heading: i64 },
    /// Advance by `rel` nanometres along the current heading, as measured
    /// at run time by odometry.
    MoveRel { rel: i64 },
    /// Advance by `rel` nanometres along the current heading, with the
    /// target worked out ahead of time instead of from odometry. The
    /// displacement itself is the same as `MoveRel`.
    MoveRelAbs { rel: i64 },
    /// Go straight to `pos`; the heading becomes the bearing of the move.
    MoveTo { pos: Vec2 },
    /// Turn in place by `angle` nanoradians, measured at run time.
    TurnRel { angle: i64 },
    /// Turn in place by `angle` nanoradians, worked out ahead of time.
    TurnRelAbs { angle: i64 },
    /// Turn in place to the absolute heading given.
    TurnTo { heading: i64 },
}

/// The x coordinate, y coordinate and heading after `a` acts on `p`,
/// as unbounded integers: the admission check inspects these before
/// anything is narrowed back to machine width.
pub open spec fn advanced(p: Pose, a: Action) -> (int, int, int) {
    match a {
        Action::StartAt { pos, heading } => (pos.x as int, pos.y as int, heading as int),
        Action::MoveRel { rel } | Action::MoveRelAbs { rel } => (
            p.pos.x + mul_div_scale(cos_spec(p.heading as int), rel as int),
            p.pos.y + mul_div_scale(sin_spec(p.heading as int), rel as int),
            p.heading as int,
        ),
        Action::MoveTo { pos } => (
            pos.x as int,
            pos.y as int,
            atan2_spec(pos.y - p.pos.y, pos.x - p.pos.x),
        ),
        Action::TurnRel { angle } | Action::TurnRelAbs { angle } => (
            p.pos.x as int,
            p.pos.y as int,
            wrap_i64(p.heading + angle),
        ),
        Action::TurnTo { heading } => (p.pos.x as int, p.pos.y as int, heading as int),
    }
}

/// Whether the pose `a` advances `p` to still fits the coordinate width.
/// Every pose inside the field does; the admission check only ever
/// narrows poses it has found to be inside.
pub open spec fn advanced_fits(p: Pose, a: Action) -> bool {
    &&& i64::MIN <= advanced(p, a).0 <= i64::MAX
    &&& i64::MIN <= advanced(p, a).1 <= i64::MAX
}

/// The advanced triple, folded back into a `Pose`. Meaningful whenever
/// `advanced_fits` holds.
pub open spec fn advanced_pose(p: Pose, a: Action) -> Pose {
    Pose {
        pos: Vec2 { x: advanced(p, a).0 as i64, y: advanced(p, a).1 as i64 },
        heading: advanced(p, a).2 as i64,
    }
}

impl Action {
    /// Advance a pose in place: the one transition rule every caller
    /// shares, from the admission check to the on-screen replay.
    pub fn modify_position(&self, pos: &mut Vec2, heading: &mut i64)
        requires
            advanced_fits(Pose { pos: *old(pos), heading: *old(heading) }, *self),
        ensures
            (Pose { pos: *final(pos), heading: *final(heading) }) == advanced_pose(
                Pose { pos: *old(pos), heading: *old(heading) },
                *self,
            ),
    {
        match self {
            Action::StartAt { pos: start_pos, heading: start_heading } => {
                *pos = *start_pos;
                *heading = *start_heading;
            },
            Action::MoveRel { rel } | Action::MoveRelAbs { rel } => {
                let c: i64 = crate::trig::cos_nano(*heading);
                let s: i64 = crate::trig::sin_nano(*heading);
                let dx: i128 = crate::fixed::scaled_product(c as i128, *rel as i128);
                let dy: i128 = crate::fixed::scaled_product(s as i128, *rel as i128);
                let nx: i128 = pos.x as i128 + dx;
                let ny: i128 = pos.y as i128 + dy;
                *pos = Vec2 { x: nx as i64, y: ny as i64 };
            },
            Action::MoveTo { pos: target } => {
                let dy: i128 = target.y as i128 - pos.y as i128;
                let dx: i128 = target.x as i128 - pos.x as i128;
                *heading = crate::trig::atan2_nano(dy, dx);
                *pos = *target;
            },
            Action::TurnRel { angle } | Action::TurnRelAbs { angle } => {
                *heading = crate::fixed::wrap_add(*heading, *angle);
            },
            Action::TurnTo { heading: target } => {
                *heading = *target;
            },
        }
    }

    /// The short name the action tables show.
    pub fn name(&self) -> (r: &'static str)
        ensures
            r@ == self.name_spec(),
    {
        match self {
            Action::StartAt { .. } => "Start At",
            Action::MoveRel { .. } | Action::MoveRelAbs { .. } => "Move",
            Action::MoveTo { .. } => "Move To",
            Action::TurnRel { .. } | Action::TurnRelAbs { .. } => "Turn By",
            Action::TurnTo { .. } => "Turn To",
        }
    }

    /// What `name` returns for each variant.
    pub open spec fn name_spec(&self) -> Seq<char> {
        match self {
            Action::StartAt { .. } => "Start At"@,
            Action::MoveRel { .. } | Action::MoveRelAbs { .. } => "Move"@,
            Action::MoveTo { .. } => "Move To"@,
            Action::TurnRel { .. } | Action::TurnRelAbs { .. } => "Turn By"@,
            Action::TurnTo { .. } => "Turn To"@,
        }
    }

    /// Whether the command is absolute, relative, or relative but worked
    /// out ahead of time.
    pub fn modifiers(&self) -> (r: &'static str)
        ensures
            r@ == self.modifiers_spec(),
    {
        match self {
            Action::StartAt { .. } | Action::MoveTo { .. } | Action::TurnTo { .. } => "Absolute",
            Action::MoveRel { .. } | Action::TurnRel { .. } => "Relative",
            Action::MoveRelAbs { .. } | Action::TurnRelAbs { .. } => "Relative (precomputed)",
        }
    }

    /// What `modifiers` returns for each variant.
    pub open spec fn modifiers_spec(&self) -> Seq<char> {
        match self {
            Action::StartAt { .. } | Action::MoveTo { .. } | Action::TurnTo { .. } => "Absolute"@,
            Action::MoveRel { .. } | Action::TurnRel { .. } => "Relative"@,
            Action::MoveRelAbs { .. } | Action::TurnRelAbs { .. } => "Relative (precomputed)"@,
        }
    }

    /// The help text shown for the action's kind.
    pub fn description(&self) -> (r: &'static str)
        ensures
            r@ == self.description_spec(),
    {
        match self {
            Action::StartAt { .. } => "Sets the robots current position to the specified",
            Action::MoveRel { .. } => "Moves the robot forwards or backwards by the amount specified, where a negative number will make the robot go backwards. This is a relative command meaning it will generate the target point based on the current position given by odometry. Currently this will move the robot in a straight line.",
            Action::MoveRelAbs { .. } => "Moves the robot forwards or backwards by the amount specified, where a negative number will make the robot go backwards. This is a precomputed relative command (not to be confused with relative command) meaning it will generate the target point based on where the robot should be *in theory* meaning it does not need odometry to calculate the target point and instead can calculate it ahead of time. You probably don't want to use this after using MoveRel. Currently this will move the robot in a straight line.",
            Action::MoveTo { .. } => "Moves the robot to the specified target position. Currently this will move the robot in a straight line.",
            Action::TurnRel { .. } => "Turns the robot clockwise or counter-clockwise by the amount specified, where a negative number will make the robot turn clockwise. This is a relative command meaning it will generate the target heading based on the current heading given by odometry.",
            Action::TurnRelAbs { .. } => "Turns the robot clockwise or counter-clockwise by the amount specified, where a negative number will make the robot turn clockwise. This is a precomputed relative command (not to be confused with relative command) meaning it will generate the target point based on where the robot should be *in theory* meaning it does not need odometry to calculate the target point and instead can calculate it ahead of time. You probably don't want to use this after using TurnRel.",
            Action::TurnTo { .. } => "Turns the robot to the specified target heading.",
        }
    }

    /// What `description` returns for each variant.
    pub open spec fn description_spec(&self) -> Seq<char> {
        match self {
            Action::StartAt { .. } => "Sets the robots current position to the specified"@,
            Action::MoveRel { .. } => "Moves the robot forwards or backwards by the amount specified, where a negative number will make the robot go backwards. This is a relative command meaning it will generate the target point based on the current position given by odometry. Currently this will move the robot in a straight line."@,
            Action::MoveRelAbs { .. } => "Moves the robot forwards or backwards by the amount specified, where a negative number will make the robot go backwards. This is a precomputed relative command (not to be confused with relative command) meaning it will generate the target point based on where the robot should be *in theory* meaning it does not need odometry to calculate the target point and instead can calculate it ahead of time. You probably don't want to use this after using MoveRel. Currently this will move the robot in a straight line."@,
            Action::MoveTo { .. } => "Moves the robot to the specified target position. Currently this will move the robot in a straight line."@,
            Action::TurnRel { .. } => "Turns the robot clockwise or counter-clockwise by the amount specified, where a negative number will make the robot turn clockwise. This is a relative command meaning it will generate the target heading based on the current heading given by odometry."@,
            Action::TurnRelAbs { .. } => "Turns the robot clockwise or counter-clockwise by the amount specified, where a negative number will make the robot turn clockwise. This is a precomputed relative command (not to be confused with relative command) meaning it will generate the target point based on where the robot should be *in theory* meaning it does not need odometry to calculate the target point and instead can calculate it ahead of time. You probably don't want to use this after using TurnRel."@,
            Action::TurnTo { .. } => "Turns the robot to the specified target heading."@,
        }
    }
}

} // verus!

//! Why a candidate action may be refused.
use vstd::prelude::*;

verus! {

/// The ways building or committing an action can fail. Every failure is
/// reported to the caller as a value; nothing here panics.
#[derive(Clone, Copy, PartialEq, Eq, Structural, Debug)]
pub enum ActionCreationError {
    /// The first committed action must set the starting pose.
    MissingStart,
    /// Only the first committed action may set the starting pose.
    DuplicateStart,
    /// A field of the action could not be read as a number.
    InvalidField,
    /// The action would take the robot outside the field.
    OutOfBounds,
}

impl ActionCreationError {
    /// A short status line for display next to the input form.
    pub fn message(&self) -> (r: &'static str)
        ensures
            self is MissingStart ==> r@ == "Start First!"@,
            self is DuplicateStart ==> r@ == "Can Only Start Once!"@,
            self is InvalidField ==> r@ == "Error in Fields!"@,
            self is OutOfBounds ==> r@ == "Out of Bounds!"@,
    {
        match self {
            ActionCreationError::MissingStart => "Start First!",
            ActionCreationError::DuplicateStart => "Can Only Start Once!",
            ActionCreationError::InvalidField => "Error in Fields!",
            ActionCreationError::OutOfBounds => "Out of Bounds!",
        }
    }
}

} // verus!

//! Input units and their conversion factors.
//!
//! A factor is a nano-scaled multiplier: applying a unit to a field value
//! means `mul_div_scale(value, modifier)`. Metres and radians are the
//! identity; inches and feet are exact; the degree factor is `pi / 180`
//! rounded to nano precision, within half a nano unit of the true ratio.
use vstd::prelude::*;

verus! {

/// Anything that can scale a raw field value into core units.
pub trait Unit {
    /// The factor `modifier` returns.
    spec fn modifier_spec(&self) -> i64;

    /// The nano-scaled conversion factor into metres or radians.
    fn modifier(&self) -> (r: i64)
        ensures
            r == self.modifier_spec(),
    ;
}

/// The unit a length field is typed in.
#[derive(Clone, Copy, PartialEq, Eq, Structural, Debug)]
pub enum LengthUnit {
    Metre,
    Inch,
    Foot,
}

/// The unit an angle field is typed in.
#[derive(Clone, Copy, PartialEq, Eq, Structural, Debug)]
pub enum AngleUnit {
    Degree,
    Radian,
}

impl Unit for LengthUnit {
    open spec fn modifier_spec(&self) -> i64 {
        match self {
            LengthUnit::Metre => 1_000_000_000,
            LengthUnit::Inch => 25_400_000,
            LengthUnit::Foot => 304_800_000,
        }
    }

    fn modifier(&self) -> (r: i64)
        ensures
            r == self.modifier_spec(),
    {
        match self {
            LengthUnit::Metre => 1_000_000_000,
            LengthUnit::Inch => 25_400_000,
            LengthUnit::Foot => 304_800_000,
        }
    }
}

impl Unit for AngleUnit {
    open spec fn modifier_spec(&self) -> i64 {
        match self {
            AngleUnit::Degree => 17_453_293,
            AngleUnit::Radian => 1_000_000_000,
        }
    }

    fn modifier(&self) -> (r: i64)
        ensures
            r == self.modifier_spec(),
    {
        match self {
            AngleUnit::Degree => 17_453_293,
            AngleUnit::Radian => 1_000_000_000,
        }
    }
}

impl LengthUnit {
    /// The unit's name, as the unit pickers show it.
    pub fn label(&self) -> (r: &'static str)
        ensures
            self is Metre ==> r@ == "Metres"@,
            self is Inch ==> r@ == "Inches"@,
            self is Foot ==> r@ == "Feet"@,
    {
        match self {
            LengthUnit::Metre => "Metres",
            LengthUnit::Inch => "Inches",
            LengthUnit::Foot => "Feet",
        }
    }
}

impl AngleUnit {
    /// The unit's name, as the unit pickers show it.
    pub fn label(&self) -> (r: &'static str)
        ensures
            self is Degree ==> r@ == "Degrees"@,
            self is Radian ==> r@ == "Radians"@,
    {
        match self {
            AngleUnit::Degree => "Degrees",
            AngleUnit::Radian => "Radians",
        }
    }
}

} // verus!

//! Building an `Action` out of operator-typed fields.
//!
//! The operator picks an action kind, types plain decimal numbers into
//! the fields the kind enables, and picks the units they are in. Parsing
//! is verified end to end: a field is accepted exactly when it is an
//! optionally signed decimal numeral — digits around at most one point —
//! whose value fits the nano-unit range. Anything else, exponents and
//! infinities included, is an `InvalidField`. Fraction digits beyond
//! nano precision are read but ignored.
use crate::action::Action;
use crate::error::ActionCreationError;
use crate::fixed::{mul_div_scale, SCALE};
use crate::units::{AngleUnit, LengthUnit, Unit};
use crate::vec::Vec2;
use vstd::prelude::*;
use vstd::string::StringSliceAdditionalSpecFns;

verus! {

/// Which action the operator is composing, before its fields are filled
/// in. Keeping the selection free of payloads means no placeholder
/// values ever sit inside a real `Action`.
#[derive(Clone, Copy, PartialEq, Eq, Structural, Debug)]
pub enum ActionKind {
    StartAt,
    MoveRel,
    MoveRelAbs,
    MoveTo,
    TurnRel,
    TurnRelAbs,
    TurnTo,
}

/// An ASCII decimal digit.
pub open spec fn is_digit(b: u8) -> bool {
    48 <= b <= 57
}

/// The state of the one-pass decimal scan: whether the bytes so far are
/// still a valid numeral, whether the point has been seen, how many
/// digits were read, and the integer and fraction accumulators.
pub struct DecimalScan {
    pub ok: bool,
    pub seen_dot: bool,
    pub digits: int,
    pub intv: int,
    pub fracv: int,
    pub fracn: int,
}

/// Where the scan starts.
pub open spec fn scan_init() -> DecimalScan {
    DecimalScan { ok: true, seen_dot: false, digits: 0, intv: 0, fracv: 0, fracn: 0 }
}

/// One byte of the scan: digits accumulate — into the fraction once the
/// point is seen, and only to nano depth — one point is allowed, and
/// anything else spoils the numeral.
pub open spec fn scan_step(st: DecimalScan, b: u8) -> DecimalScan {
    if !st.ok {
        st
    } else if is_digit(b) {
        if !st.seen_dot {
            DecimalScan { digits: st.digits + 1, intv: st.intv * 10 + (b - 48), ..st }
        } else if st.fracn < 9 {
            DecimalScan {
                digits: st.digits + 1,
                fracv: st.fracv * 10 + (b - 48),
                fracn: st.fracn + 1,
                ..st
            }
        } else {
            DecimalScan { digits: st.digits + 1, ..st }
        }
    } else if b == 46 {
        if st.seen_dot {
            DecimalScan { ok: false, ..st }
        } else {
            DecimalScan { seen_dot: true, ..st }
        }
    } else {
        DecimalScan { ok: false, ..st }
    }
}

/// The scan folded over a byte sequence.
pub open spec fn scan(s: Seq<u8>) -> DecimalScan
    decreases s.len(),
{
    if s.len() == 0 {
        scan_init()
    } else {
        scan_step(scan(s.drop_last()), s.last())
    }
}

/// The numeral with any leading sign removed.
pub open spec fn decimal_body(s: Seq<u8>) -> Seq<u8> {
    if s.len() > 0 && (s[0] == 43 || s[0] == 45) {
        s.drop_first()
    } else {
        s
    }
}

/// Whether the numeral carries a leading minus.
pub open spec fn decimal_neg(s: Seq<u8>) -> bool {
    s.len() > 0 && s[0] == 45
}

/// What one fraction digit at depth `n` is worth, in nano units.
pub open spec fn frac_unit(n: int) -> int {
    if n <= 0 {
        1_000_000_000
    } else if n == 1 {
        100_000_000
    } else if n == 2 {
        10_000_000
    } else if n == 3 {
        1_000_000
    } else if n == 4 {
        100_000
    } else if n == 5 {
        10_000
    } else if n == 6 {
        1_000
    } else if n == 7 {
        100
    } else if n == 8 {
        10
    } else {
        1
    }
}

/// The nano-unit value of a decimal numeral, or `None` when the bytes
/// are not a numeral or the value does not fit.
pub open spec fn parse_decimal_spec(s: Seq<u8>) -> Option<i64> {
    let st = scan(decimal_body(s));
    if st.ok && st.digits >= 1 {
        let v = st.intv * (SCALE as int) + st.fracv * frac_unit(st.fracn);
        if v > i64::MAX {
            None
        } else if decimal_neg(s) {
            Some((-v) as i64)
        } else {
            Some(v as i64)
        }
    } else {
        None
    }
}

/// The most a fraction accumulator of depth `n` can hold, plus one.
pub open spec fn frac_cap(n: int) -> int {
    if n <= 0 {
        1
    } else if n == 1 {
        10
    } else if n == 2 {
        100
    } else if n == 3 {
        1_000
    } else if n == 4 {
        10_000
    } else if n == 5 {
        100_000
    } else if n == 6 {
        1_000_000
    } else if n == 7 {
        10_000_000
    } else if n == 8 {
        100_000_000
    } else {
        1_000_000_000
    }
}

/// The scan's counters never go negative, and the fraction depth and
/// accumulator stay within nano precision.
proof fn lemma_scan_ranges(s: Seq<u8>)
    ensures
        scan(s).intv >= 0,
        scan(s).digits >= 0,
        0 <= scan(s).fracn <= 9,
        0 <= scan(s).fracv < frac_cap(scan(s).fracn),
        scan(s).fracv < 1_000_000_000,
    decreases s.len(),
{
    if s.len() > 0 {
        lemma_scan_ranges(s.drop_last());
    }
}

/// What one fraction digit is worth, on machine integers.
fn frac_unit_exec(n: usize) -> (r: u64)
    requires
        n <= 9,
    ensures
        r as int == frac_unit(n as int),
        1 <= r <= 1_000_000_000,
{
    if n == 0 {
        1_000_000_000
    } else if n == 1 {
        100_000_000
    } else if n == 2 {
        10_000_000
    } else if n == 3 {
        1_000_000
    } else if n == 4 {
        100_000
    } else if n == 5 {
        10_000
    } else if n == 6 {
        1_000
    } else if n == 7 {
        100
    } else if n == 8 {
        10
    } else {
        1
    }
}

/// Parse a decimal numeral into nano units: the verified counterpart of
/// reading a metre or radian value typed by the operator.
pub fn parse_decimal_nano(b: &[u8]) -> (r: Option<i64>)
    ensures
        r == parse_decimal_spec(b@),
{
    let n: usize = b.len();
    let mut neg: bool = false;
    let mut start: usize = 0;
    if n > 0 && (b[0] == 43 || b[0] == 45) {
        neg = b[0] == 45;
        start = 1;
    }
    let ghost body = decimal_body(b@);
    proof {
        assert(body =~= b@.skip(start as int));
        assert(body.take(0) =~= Seq::<u8>::empty());
    }
    let mut ok: bool = true;
    let mut seen_dot: bool = false;
    let mut has_digit: bool = false;
    let mut too_big: bool = false;
    let mut intv: u64 = 0;
    let mut fracv: u64 = 0;
    let mut fracn: usize = 0;
    let mut i: usize = start;
    while i < n
        invariant
            start <= i <= n,
            n == b@.len(),
            start <= 1,
            body == decimal_body(b@),
            body =~= b@.skip(start as int),
            ok == scan(body.take(i - start)).ok,
            ok ==> seen_dot == scan(body.take(i - start)).seen_dot,
            ok ==> fracn as int == scan(body.take(i - start)).fracn,
            ok ==> fracv as int == scan(body.take(i - start)).fracv,
            ok ==> has_digit == (scan(body.take(i - start)).digits >= 1),
            ok && !too_big ==> intv as int == scan(body.take(i - start)).intv,
            ok && too_big ==> scan(body.take(i - start)).intv > 10_000_000_000,
            fracn <= 9,
            intv <= 10_000_000_000,
            fracv < 1_000_000_000,
        decreases n - i,
    {
        let ghost k = i - start;
        proof {
            assert(body.take(k + 1).drop_last() =~= body.take(k as int));
            assert(body.take(k + 1).last() == body[k as int]);
            assert(body[k as int] == b@[i as int]);
            lemma_scan_ranges(body.take(k as int));
        }
        let c: u8 = b[i];
        if ok {
            if 48 <= c && c <= 57 {
                let d: u64 = (c - 48) as u64;
                has_digit = true;
                if !seen_dot {
                    if too_big {
                        proof {
                            let st = scan(body.take(k as int));
                            assert(st.intv * 10 + (c - 48) > 10_000_000_000) by (nonlinear_arith)
                                requires
                                    st.intv > 10_000_000_000,
                                    c - 48 >= 0,
                            ;
                        }
                    } else {
                        let grown: u64 = intv * 10 + d;
                        if grown > 10_000_000_000 {
                            too_big = true;
                        } else {
                            intv = grown;
                        }
                    }
                } else {
                    if fracn < 9 {
                        fracv = fracv * 10 + d;
                        fracn = fracn + 1;
                    }
                }
            } else if c == 46 {
                if seen_dot {
                    ok = false;
                } else {
                    seen_dot = true;
                }
            } else {
                ok = false;
            }
        } else {
            proof {
                assert(scan(body.take(k + 1)) == scan(body.take(k as int)));
            }
        }
        i = i + 1;
    }
    proof {
        assert(body.take(n - start) =~= body);
    }
    if !ok || !has_digit {
        return None;
    }
    if too_big {
        proof {
            let st = scan(body);
            lemma_scan_ranges(body);
            assert(st.intv * (SCALE as int) > 10_000_000_000 * 1_000_000_000) by (nonlinear_arith)
                requires
                    st.intv > 10_000_000_000,
                    SCALE as int == 1_000_000_000,
            ;
            assert(st.fracv * frac_unit(st.fracn) >= 0) by (nonlinear_arith)
                requires
                    st.fracv >= 0,
                    frac_unit(st.fracn) >= 1,
            ;
        }
        return None;
    }
    let unit: u64 = frac_unit_exec(fracn);
    let wide: u128 = (intv as u128) * (SCALE as u128) + (fracv as u128) * (unit as u128);
    proof {
        let st = scan(body);
        assert((intv as int) * (SCALE as int) <= 10_000_000_000 * 1_000_000_000)
            by (nonlinear_arith)
            requires
                0 <= intv as int <= 10_000_000_000,
                SCALE as int == 1_000_000_000,
        ;
        assert((fracv as int) * (unit as int) <= 1_000_000_000 * 1_000_000_000)
            by (nonlinear_arith)
            requires
                0 <= fracv as int <= 1_000_000_000,
                0 <= unit as int <= 1_000_000_000,
        ;
        assert((fracv as int) * (unit as int) >= 0) by (nonlinear_arith)
            requires
                fracv as int >= 0,
                unit as int >= 0,
        ;
    }
    if wide > i64::MAX as u128 {
        return None;
    }
    let value: i64 = wide as i64;
    if neg {
        Some(-value)
    } else {
        Some(value)
    }
}

/// A field value scaled by a unit factor, when the field parses at all.
pub open spec fn scaled_field(s: Seq<u8>, m: i64) -> Option<i64> {
    match parse_decimal_spec(s) {
        Some(v) => Some(mul_div_scale(m as int, v as int) as i64),
        None => None,
    }
}

/// Parse one field and bring it into core units.
fn read_field(s: &str, m: i64) -> (r: Option<i64>)
    requires
        0 < m <= SCALE,
    ensures
        r == scaled_field(s.spec_bytes(), m),
{
    match parse_decimal_nano(s.as_bytes()) {
        Some(v) => {
            let w: i128 = crate::fixed::scaled_product(m as i128, v as i128);
            Some(w as i64)
        },
        None => None,
    }
}

/// The action a filled-in form denotes: each enabled field parsed and
/// scaled by its unit, or `InvalidField` if any of them fails.
pub open spec fn build_action_spec(
    kind: ActionKind,
    f0: Seq<u8>,
    f1: Seq<u8>,
    f2: Seq<u8>,
    length_unit: LengthUnit,
    angle_unit: AngleUnit,
) -> Result<Action, ActionCreationError> {
    let lm = length_unit.modifier_spec();
    let am = angle_unit.modifier_spec();
    match kind {
        ActionKind::StartAt => match (scaled_field(f0, lm), scaled_field(f1, lm), scaled_field(
            f2,
            am,
        )) {
            (Some(x), Some(y), Some(h)) => Ok(
                Action::StartAt { pos: Vec2 { x, y }, heading: h },
            ),
            _ => Err(ActionCreationError::InvalidField),
        },
        ActionKind::MoveRel => match scaled_field(f0, lm) {
            Some(rel) => Ok(Action::MoveRel { rel }),
            None => Err(ActionCreationError::InvalidField),
        },
        ActionKind::MoveRelAbs => match scaled_field(f0, lm) {
            Some(rel) => Ok(Action::MoveRelAbs { rel }),
            None => Err(ActionCreationError::InvalidField),
        },
        ActionKind::MoveTo => match (scaled_field(f0, lm), scaled_field(f1, lm)) {
            (Some(x), Some(y)) => Ok(Action::MoveTo { pos: Vec2 { x, y } }),
            _ => Err(ActionCreationError::InvalidField),
        },
        ActionKind::TurnRel => match scaled_field(f0, am) {
            Some(angle) => Ok(Action::TurnRel { angle }),
            None => Err(ActionCreationError::InvalidField),
        },
        ActionKind::TurnRelAbs => match scaled_field(f0, am) {
            Some(angle) => Ok(Action::TurnRelAbs { angle }),
            None => Err(ActionCreationError::InvalidField),
        },
        ActionKind::TurnTo => match scaled_field(f0, am) {
            Some(heading) => Ok(Action::TurnTo { heading }),
            None => Err(ActionCreationError::InvalidField),
        },
    }
}

/// Turn the form's three fields into an action of the selected kind.
/// Fields are expected already trimmed; a field the kind disables is
/// ignored entirely.
pub fn build_action(
    kind: &ActionKind,
    field0: &str,
    field1: &str,
    field2: &str,
    length_unit: LengthUnit,
    angle_unit: AngleUnit,
) -> (r: Result<Action, ActionCreationError>)
    ensures
        r == build_action_spec(
            *kind,
            field0.spec_bytes(),
            field1.spec_bytes(),
            field2.spec_bytes(),
            length_unit,
            angle_unit,
        ),
{
    let lm: i64 = length_unit.modifier();
    let am: i64 = angle_unit.modifier();
    proof {
        assert(0 < lm <= SCALE);
        assert(0 < am <= SCALE);
    }
    match kind {
        ActionKind::StartAt => {
            match (read_field(field0, lm), read_field(field1, lm), read_field(field2, am)) {
                (Some(x), Some(y), Some(h)) => Ok(
                    Action::StartAt { pos: Vec2 { x, y }, heading: h },
                ),
                _ => Err(ActionCreationError::InvalidField),
            }
        },
        ActionKind::MoveRel => match read_field(field0, lm) {
            Some(rel) => Ok(Action::MoveRel { rel }),
            None => Err(ActionCreationError::InvalidField),
        },
        ActionKind::MoveRelAbs => match read_field(field0, lm) {
            Some(rel) => Ok(Action::MoveRelAbs { rel }),
            None => Err(ActionCreationError::InvalidField),
        },
        ActionKind::MoveTo => match (read_field(field0, lm), read_field(field1, lm)) {
            (Some(x), Some(y)) => Ok(Action::MoveTo { pos: Vec2 { x, y } }),
            _ => Err(ActionCreationError::InvalidField),
        },
        ActionKind::TurnRel => match read_field(field0, am) {
            Some(angle) => Ok(Action::TurnRel { angle }),
            None => Err(ActionCreationError::InvalidField),
        },
        ActionKind::TurnRelAbs => match read_field(field0, am) {
            Some(angle) => Ok(Action::TurnRelAbs { angle }),
            None => Err(ActionCreationError::InvalidField),
        },
        ActionKind::TurnTo => match read_field(field0, am) {
            Some(heading) => Ok(Action::TurnTo { heading }),
            None => Err(ActionCreationError::InvalidField),
        },
    }
}

} // verus!

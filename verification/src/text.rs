//! Textual projections of action values, for the plan table.
//!
//! Lengths print as plain decimals in metres with the trailing zeros
//! trimmed; angles print as whole degrees, rounded half away from zero.
//! Everything here is exact integer work, verified down to the character
//! sequence produced.
use crate::action::Action;
use crate::fixed::abs_int;
use vstd::prelude::*;
use vstd::string::StringExecFns;

verus! {

/// Twice pi times ten to the fifteenth, the denominator scale of the
/// whole-degree rounding below.
pub const PI_FEMTO: u128 = 3_141_592_653_589_793;

/// The character of one decimal digit.
pub open spec fn digit_char(d: int) -> char {
    if d == 0 {
        '0'
    } else if d == 1 {
        '1'
    } else if d == 2 {
        '2'
    } else if d == 3 {
        '3'
    } else if d == 4 {
        '4'
    } else if d == 5 {
        '5'
    } else if d == 6 {
        '6'
    } else if d == 7 {
        '7'
    } else if d == 8 {
        '8'
    } else {
        '9'
    }
}

/// The decimal digits of a nonnegative integer, most significant first.
pub open spec fn dec_digits(n: int) -> Seq<char>
    decreases n,
{
    if n < 10 {
        seq![digit_char(n)]
    } else {
        dec_digits(n / 10).push(digit_char(n % 10))
    }
}

/// The last `width` decimal digits of a nonnegative integer, zero-padded.
pub open spec fn pad_digits(n: int, width: int) -> Seq<char>
    decreases width,
{
    if width <= 0 {
        Seq::empty()
    } else {
        pad_digits(n / 10, width - 1).push(digit_char(n % 10))
    }
}

/// The characters with any run of trailing zeros removed.
pub open spec fn strip_zeros(s: Seq<char>) -> Seq<char>
    decreases s.len(),
{
    if s.len() > 0 && s.last() == '0' {
        strip_zeros(s.drop_last())
    } else {
        s
    }
}

/// A nanometre value as a decimal metre numeral: sign, whole metres,
/// and the fraction only when there is one, trimmed of trailing zeros.
pub open spec fn length_text(v: int) -> Seq<char> {
    let mag = abs_int(v);
    let sign: Seq<char> = if v < 0 {
        seq!['-']
    } else {
        Seq::empty()
    };
    let whole = dec_digits(mag / 1_000_000_000);
    let f = mag % 1_000_000_000;
    if f == 0 {
        sign + whole
    } else {
        sign + whole + seq!['.'] + strip_zeros(pad_digits(f, 9))
    }
}

/// A nanoradian value as whole degrees, rounded half away from zero.
pub open spec fn degree_round(v: int) -> int {
    (2 * abs_int(v) * 180_000_000 + PI_FEMTO as int) / (2 * PI_FEMTO as int)
}

/// The degree numeral of a nanoradian value; a magnitude that rounds to
/// zero drops its sign.
pub open spec fn degree_text(v: int) -> Seq<char> {
    let d = degree_round(v);
    if v < 0 && d != 0 {
        seq!['-'] + dec_digits(d)
    } else {
        dec_digits(d)
    }
}

/// One digit as a borrowed numeral.
fn digit_str(d: u64) -> (r: &'static str)
    requires
        d < 10,
    ensures
        r@ == seq![digit_char(d as int)],
{
    proof {
        reveal_strlit("0");
        reveal_strlit("1");
        reveal_strlit("2");
        reveal_strlit("3");
        reveal_strlit("4");
        reveal_strlit("5");
        reveal_strlit("6");
        reveal_strlit("7");
        reveal_strlit("8");
        reveal_strlit("9");
    }
    if d == 0 {
        "0"
    } else if d == 1 {
        "1"
    } else if d == 2 {
        "2"
    } else if d == 3 {
        "3"
    } else if d == 4 {
        "4"
    } else if d == 5 {
        "5"
    } else if d == 6 {
        "6"
    } else if d == 7 {
        "7"
    } else if d == 8 {
        "8"
    } else {
        "9"
    }
}

/// Append the decimal digits of `n`.
fn push_digits(n: u64, out: &mut String)
    ensures
        final(out)@ == old(out)@ + dec_digits(n as int),
    decreases n,
{
    if n < 10 {
        out.append(digit_str(n));
    } else {
        proof {
            vstd::arithmetic::div_mod::lemma_div_decreases(n as int, 10);
            vstd::arithmetic::div_mod::lemma_div_pos_is_pos(n as int, 10);
        }
        let ghost before = out@;
        push_digits(n / 10, out);
        out.append(digit_str(n % 10));
        proof {
            assert(final(out)@ =~= before + dec_digits(n as int));
        }
    }
}

/// Append the last `width` decimal digits of `n`, zero-padded.
fn push_padded(n: u64, width: u64, out: &mut String)
    ensures
        final(out)@ == old(out)@ + pad_digits(n as int, width as int),
    decreases width,
{
    if width == 0 {
        proof {
            assert(old(out)@ + pad_digits(n as int, 0) =~= old(out)@);
        }
    } else {
        let ghost before = out@;
        push_padded(n / 10, width - 1, out);
        out.append(digit_str(n % 10));
        proof {
            assert(final(out)@ =~= before + pad_digits(n as int, width as int));
        }
    }
}

/// Stripping one trailing zero digit strips one trailing zero character.
proof fn lemma_strip_step(n: int, width: int)
    requires
        width > 0,
        n >= 0,
        n % 10 == 0,
    ensures
        strip_zeros(pad_digits(n, width)) == strip_zeros(pad_digits(n / 10, width - 1)),
{
    assert(pad_digits(n, width).drop_last() =~= pad_digits(n / 10, width - 1));
}

/// A numeral whose last digit is not zero has nothing to strip.
proof fn lemma_strip_done(n: int, width: int)
    requires
        n >= 0,
        width <= 0 || n % 10 != 0,
    ensures
        strip_zeros(pad_digits(n, width)) == pad_digits(n, width),
{
    if width > 0 {
        assert(pad_digits(n, width).last() == digit_char(n % 10));
    }
}

/// Append a nanometre value as a decimal metre numeral.
fn push_length(v: i64, out: &mut String)
    ensures
        final(out)@ == old(out)@ + length_text(v as int),
{
    let ghost before = out@;
    let mag: u64 = if v < 0 {
        (-(v as i128)) as u64
    } else {
        v as u64
    };
    if v < 0 {
        out.append("-");
        proof {
            reveal_strlit("-");
        }
    }
    push_digits(mag / 1_000_000_000, out);
    let f: u64 = mag % 1_000_000_000;
    if f != 0 {
        out.append(".");
        proof {
            reveal_strlit(".");
        }
        let mut g: u64 = f;
        let mut w: u64 = 9;
        while g % 10 == 0 && w > 0
            invariant
                g > 0,
                w <= 9,
                strip_zeros(pad_digits(f as int, 9)) == strip_zeros(
                    pad_digits(g as int, w as int),
                ),
            decreases w,
        {
            proof {
                lemma_strip_step(g as int, w as int);
                vstd::arithmetic::div_mod::lemma_div_pos_is_pos(g as int, 10);
                if g / 10 == 0 {
                    assert(g < 10);
                    assert(g % 10 == g);
                }
            }
            g = g / 10;
            w = w - 1;
        }
        proof {
            lemma_strip_done(g as int, w as int);
        }
        push_padded(g, w, out);
    }
    proof {
        assert(final(out)@ =~= before + length_text(v as int));
    }
}

/// Append a nanoradian value as whole degrees.
fn push_degrees(v: i64, out: &mut String)
    ensures
        final(out)@ == old(out)@ + degree_text(v as int),
{
    let ghost before = out@;
    let mag: u128 = if v < 0 {
        (-(v as i128)) as u128
    } else {
        v as u128
    };
    let num: u128 = 2 * mag * 180_000_000 + PI_FEMTO;
    let d128: u128 = num / (2 * PI_FEMTO);
    proof {
        vstd::arithmetic::div_mod::lemma_multiply_divide_le(
            num as int,
            2 * PI_FEMTO as int,
            1_000_000_000_000,
        );
    }
    let d: u64 = d128 as u64;
    if v < 0 && d != 0 {
        out.append("-");
        proof {
            reveal_strlit("-");
        }
    }
    push_digits(d, out);
    proof {
        assert(final(out)@ =~= before + degree_text(v as int));
    }
}

impl Action {
    /// What `value` returns: the action's parameters as the plan table
    /// prints them.
    pub open spec fn value_spec(&self) -> Seq<char> {
        match self {
            Action::StartAt { pos, heading } => "("@ + length_text(pos.x as int) + "m, "@
                + length_text(pos.y as int) + "m) @ "@ + degree_text(heading as int) + " deg"@,
            Action::MoveRel { rel } | Action::MoveRelAbs { rel } => length_text(rel as int)
                + "m"@,
            Action::MoveTo { pos } => "("@ + length_text(pos.x as int) + "m, "@ + length_text(
                pos.y as int,
            ) + "m)"@,
            Action::TurnRel { angle } | Action::TurnRelAbs { angle } => degree_text(angle as int)
                + " deg"@,
            Action::TurnTo { heading } => degree_text(heading as int) + " deg"@,
        }
    }

    /// The action's parameters, formatted for the plan table: positions
    /// as `(xm, ym)`, distances in metres, angles in whole degrees.
    pub fn value(&self) -> (r: String)
        ensures
            r@ == self.value_spec(),
    {
        let mut out: String = String::new();
        match self {
            Action::StartAt { pos, heading } => {
                out.append("(");
                push_length(pos.x, &mut out);
                out.append("m, ");
                push_length(pos.y, &mut out);
                out.append("m) @ ");
                push_degrees(*heading, &mut out);
                out.append(" deg");
                proof {
                    assert(out@ =~= self.value_spec());
                }
            },
            Action::MoveRel { rel } | Action::MoveRelAbs { rel } => {
                push_length(*rel, &mut out);
                out.append("m");
                proof {
                    assert(out@ =~= self.value_spec());
                }
            },
            Action::MoveTo { pos } => {
                out.append("(");
                push_length(pos.x, &mut out);
                out.append("m, ");
                push_length(pos.y, &mut out);
                out.append("m)");
                proof {
                    assert(out@ =~= self.value_spec());
                }
            },
            Action::TurnRel { angle } | Action::TurnRelAbs { angle } => {
                push_degrees(*angle, &mut out);
                out.append(" deg");
                proof {
                    assert(out@ =~= self.value_spec());
                }
            },
            Action::TurnTo { heading } => {
                push_degrees(*heading, &mut out);
                out.append(" deg");
                proof {
                    assert(out@ =~= self.value_spec());
                }
            },
        }
        out
    }
}

} // verus!

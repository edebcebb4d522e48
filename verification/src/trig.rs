//! Trigonometry on nano-radian angles.
//!
//! `sin_nano`, `cos_nano` and `atan2_nano` evaluate truncated Taylor series
//! in fixed point. The absolute error is a few millionths of a radian —
//! far below the centimetre-level decisions the path core makes — and every
//! function equals its spec-level definition exactly, so replaying a
//! committed sequence is deterministic.
use crate::fixed::SCALE;
use vstd::prelude::*;

verus! {

/// Nanoradians in a full turn, `2 * pi` rounded to nano precision.
pub const FULL_TURN: u64 = 6_283_185_307;

/// Nanoradians in a quarter turn, `pi / 2` rounded to nano precision.
pub const QUARTER_TURN: u64 = 1_570_796_327;

/// Nanoradians in half a turn, `pi` rounded to nano precision.
pub const HALF_TURN: u64 = 3_141_592_654;

/// Nanoradians in an eighth of a turn, `pi / 4` rounded to nano precision.
pub const EIGHTH_TURN: u64 = 785_398_163;

/// The tangent of an eighth of a turn, in nano units.
pub const TAN_EIGHTH: u64 = 414_213_562;

/// `a - b`, stopping at zero: the fixed-point series below clamp every
/// subtraction so that well-formedness never depends on numeric bounds.
pub open spec fn sat_sub(a: int, b: int) -> int {
    if a >= b {
        a - b
    } else {
        0
    }
}

/// The product of two nano-unit scalars rescaled back to nano units
/// (nonnegative operands, quotient truncated).
pub(crate) fn mul_scale(a: u128, b: u128) -> (r: u128)
    requires
        a <= 0x1_0000_0000_0000_0000,
        b <= 2_000_000_000,
    ensures
        r as int == (a as int) * (b as int) / (SCALE as int),
        r as int <= 2 * (a as int),
{
    assert((a as int) * (b as int) <= 0x1_0000_0000_0000_0000 * 2_000_000_000) by (nonlinear_arith)
        requires
            0 <= a as int <= 0x1_0000_0000_0000_0000,
            0 <= b as int <= 2_000_000_000,
    ;
    let r: u128 = (a * b) / (SCALE as u128);
    assert(r as int <= 2 * (a as int)) by {
        assert((a as int) * (b as int) <= (a as int) * (2 * SCALE as int)) by (nonlinear_arith)
            requires
                0 <= a as int,
                0 <= b as int <= 2_000_000_000,
                SCALE as int == 1_000_000_000,
        ;
        assert((a as int) * (2 * SCALE as int) / (SCALE as int) == 2 * (a as int)) by (nonlinear_arith)
            requires
                SCALE as int > 0,
                0 <= a as int,
        ;
        vstd::arithmetic::div_mod::lemma_div_is_ordered(
            (a as int) * (b as int),
            (a as int) * (2 * SCALE as int),
            SCALE as int,
        );
    }
    r
}

/// The sine of `r` nanoradians for `r` within the first quarter turn,
/// in nano units: a five-term Taylor series, clamped into `[0, SCALE]`.
pub closed spec fn sin_quarter_spec(r: int) -> int {
    let x2 = r * r / (SCALE as int);
    let t5 = sat_sub(SCALE as int, x2 / 110);
    let t4 = sat_sub(SCALE as int, (x2 / 72) * t5 / (SCALE as int));
    let t3 = sat_sub(SCALE as int, (x2 / 42) * t4 / (SCALE as int));
    let t2 = sat_sub(SCALE as int, (x2 / 20) * t3 / (SCALE as int));
    let t1 = sat_sub(SCALE as int, (x2 / 6) * t2 / (SCALE as int));
    let s = r * t1 / (SCALE as int);
    if s > SCALE as int {
        SCALE as int
    } else {
        s
    }
}

/// The cosine of `r` nanoradians for `r` within the first quarter turn,
/// in nano units: a five-term Taylor series, clamped into `[0, SCALE]`.
pub closed spec fn cos_quarter_spec(r: int) -> int {
    let x2 = r * r / (SCALE as int);
    let t4 = sat_sub(SCALE as int, x2 / 90);
    let t3 = sat_sub(SCALE as int, (x2 / 56) * t4 / (SCALE as int));
    let t2 = sat_sub(SCALE as int, (x2 / 30) * t3 / (SCALE as int));
    let t1 = sat_sub(SCALE as int, (x2 / 12) * t2 / (SCALE as int));
    sat_sub(SCALE as int, (x2 / 2) * t1 / (SCALE as int))
}

fn sin_quarter(r: u64) -> (s: u64)
    requires
        r < QUARTER_TURN,
    ensures
        s as int == sin_quarter_spec(r as int),
        0 <= s as int <= SCALE as int,
{
    let x2: u128 = mul_scale(r as u128, r as u128);
    let m5: u128 = x2 / 110;
    let t5: u128 = if m5 >= SCALE as u128 {
        0
    } else {
        SCALE as u128 - m5
    };
    let m4: u128 = mul_scale(x2 / 72, t5);
    let t4: u128 = if m4 >= SCALE as u128 {
        0
    } else {
        SCALE as u128 - m4
    };
    let m3: u128 = mul_scale(x2 / 42, t4);
    let t3: u128 = if m3 >= SCALE as u128 {
        0
    } else {
        SCALE as u128 - m3
    };
    let m2: u128 = mul_scale(x2 / 20, t3);
    let t2: u128 = if m2 >= SCALE as u128 {
        0
    } else {
        SCALE as u128 - m2
    };
    let m1: u128 = mul_scale(x2 / 6, t2);
    let t1: u128 = if m1 >= SCALE as u128 {
        0
    } else {
        SCALE as u128 - m1
    };
    let s: u128 = mul_scale(r as u128, t1);
    if s > SCALE as u128 {
        SCALE as u64
    } else {
        s as u64
    }
}

fn cos_quarter(r: u64) -> (c: u64)
    requires
        r < QUARTER_TURN,
    ensures
        c as int == cos_quarter_spec(r as int),
        0 <= c as int <= SCALE as int,
{
    let x2: u128 = mul_scale(r as u128, r as u128);
    let m4: u128 = x2 / 90;
    let t4: u128 = if m4 >= SCALE as u128 {
        0
    } else {
        SCALE as u128 - m4
    };
    let m3: u128 = mul_scale(x2 / 56, t4);
    let t3: u128 = if m3 >= SCALE as u128 {
        0
    } else {
        SCALE as u128 - m3
    };
    let m2: u128 = mul_scale(x2 / 30, t3);
    let t2: u128 = if m2 >= SCALE as u128 {
        0
    } else {
        SCALE as u128 - m2
    };
    let m1: u128 = mul_scale(x2 / 12, t2);
    let t1: u128 = if m1 >= SCALE as u128 {
        0
    } else {
        SCALE as u128 - m1
    };
    let m0: u128 = mul_scale(x2 / 2, t1);
    if m0 >= SCALE as u128 {
        0
    } else {
        (SCALE as u128 - m0) as u64
    }
}

/// The angle folded into `[0, FULL_TURN)`, measured the mathematical way:
/// a negative angle lands on its positive coterminal angle.
pub open spec fn phase_spec(h: int) -> int {
    if h >= 0 {
        h % (FULL_TURN as int)
    } else {
        let m = (-h) % (FULL_TURN as int);
        if m == 0 {
            0
        } else {
            FULL_TURN as int - m
        }
    }
}

fn phase(h: i64) -> (p: u64)
    ensures
        p as int == phase_spec(h as int),
        p < FULL_TURN,
{
    if h >= 0 {
        (h as u64) % FULL_TURN
    } else {
        let m: u64 = ((-(h as i128)) as u128 % (FULL_TURN as u128)) as u64;
        if m == 0 {
            0
        } else {
            FULL_TURN - m
        }
    }
}

/// Which quarter turn a folded phase falls in.
pub open spec fn quadrant_spec(p: int) -> int {
    if p < QUARTER_TURN as int {
        0
    } else if p < 2 * QUARTER_TURN as int {
        1
    } else if p < 3 * QUARTER_TURN as int {
        2
    } else {
        3
    }
}

/// The offset of a folded phase within its quarter turn.
pub open spec fn in_quadrant_spec(p: int) -> int {
    p - quadrant_spec(p) * (QUARTER_TURN as int)
}

/// The sine of `h` nanoradians, in nano units.
pub closed spec fn sin_spec(h: int) -> int {
    let p = phase_spec(h);
    let q = quadrant_spec(p);
    let r = in_quadrant_spec(p);
    if q == 0 {
        sin_quarter_spec(r)
    } else if q == 1 {
        cos_quarter_spec(r)
    } else if q == 2 {
        -sin_quarter_spec(r)
    } else {
        -cos_quarter_spec(r)
    }
}

/// The cosine of `h` nanoradians, in nano units.
pub closed spec fn cos_spec(h: int) -> int {
    let p = phase_spec(h);
    let q = quadrant_spec(p);
    let r = in_quadrant_spec(p);
    if q == 0 {
        cos_quarter_spec(r)
    } else if q == 1 {
        -sin_quarter_spec(r)
    } else if q == 2 {
        -cos_quarter_spec(r)
    } else {
        sin_quarter_spec(r)
    }
}

/// The sine of an angle in nanoradians, in nano units.
pub fn sin_nano(h: i64) -> (s: i64)
    ensures
        s as int == sin_spec(h as int),
        -(SCALE as int) <= s as int <= SCALE as int,
{
    let p: u64 = phase(h);
    if p < QUARTER_TURN {
        sin_quarter(p) as i64
    } else if p < 2 * QUARTER_TURN {
        cos_quarter(p - QUARTER_TURN) as i64
    } else if p < 3 * QUARTER_TURN {
        -(sin_quarter(p - 2 * QUARTER_TURN) as i64)
    } else {
        -(cos_quarter(p - 3 * QUARTER_TURN) as i64)
    }
}

/// The cosine of an angle in nanoradians, in nano units.
pub fn cos_nano(h: i64) -> (c: i64)
    ensures
        c as int == cos_spec(h as int),
        -(SCALE as int) <= c as int <= SCALE as int,
{
    let p: u64 = phase(h);
    if p < QUARTER_TURN {
        cos_quarter(p) as i64
    } else if p < 2 * QUARTER_TURN {
        -(sin_quarter(p - QUARTER_TURN) as i64)
    } else if p < 3 * QUARTER_TURN {
        -(cos_quarter(p - 2 * QUARTER_TURN) as i64)
    } else {
        sin_quarter(p - 3 * QUARTER_TURN) as i64
    }
}

/// The arctangent of `t` nano units for `t` at most one eighth-turn
/// tangent or so: a five-term Taylor series, clamped at an eighth turn.
pub closed spec fn atan_small_spec(t: int) -> int {
    let u2 = t * t / (SCALE as int);
    let w5 = sat_sub(111_111_111, u2 * 90_909_090 / (SCALE as int));
    let w4 = sat_sub(142_857_142, u2 * w5 / (SCALE as int));
    let w3 = sat_sub(200_000_000, u2 * w4 / (SCALE as int));
    let w2 = sat_sub(333_333_333, u2 * w3 / (SCALE as int));
    let w1 = sat_sub(SCALE as int, u2 * w2 / (SCALE as int));
    let a = t * w1 / (SCALE as int);
    if a > EIGHTH_TURN as int {
        EIGHTH_TURN as int
    } else {
        a
    }
}

fn atan_small(t: u64) -> (a: u64)
    requires
        t <= 420_000_000,
    ensures
        a as int == atan_small_spec(t as int),
        a <= EIGHTH_TURN,
{
    let u2: u128 = mul_scale(t as u128, t as u128);
    let m5: u128 = mul_scale(u2, 90_909_090);
    let w5: u128 = if m5 >= 111_111_111 {
        0
    } else {
        111_111_111 - m5
    };
    let m4: u128 = mul_scale(u2, w5);
    let w4: u128 = if m4 >= 142_857_142 {
        0
    } else {
        142_857_142 - m4
    };
    let m3: u128 = mul_scale(u2, w4);
    let w3: u128 = if m3 >= 200_000_000 {
        0
    } else {
        200_000_000 - m3
    };
    let m2: u128 = mul_scale(u2, w3);
    let w2: u128 = if m2 >= 333_333_333 {
        0
    } else {
        333_333_333 - m2
    };
    let m1: u128 = mul_scale(u2, w2);
    let w1: u128 = if m1 >= SCALE as u128 {
        0
    } else {
        SCALE as u128 - m1
    };
    let a: u128 = mul_scale(t as u128, w1);
    if a > EIGHTH_TURN as u128 {
        EIGHTH_TURN
    } else {
        a as u64
    }
}

/// The arctangent of a nano-unit ratio `t` in `[0, SCALE]`: ratios above
/// the eighth-turn tangent are folded around an eighth turn first.
pub closed spec fn atan_unit_spec(t: int) -> int {
    if t <= TAN_EIGHTH as int {
        atan_small_spec(t)
    } else {
        let u = sat_sub(SCALE as int, t) * (SCALE as int) / (SCALE as int + t);
        sat_sub(EIGHTH_TURN as int, atan_small_spec(u))
    }
}

fn atan_unit(t: u64) -> (a: u64)
    requires
        t <= SCALE as u64,
    ensures
        a as int == atan_unit_spec(t as int),
        a <= EIGHTH_TURN,
{
    if t <= TAN_EIGHTH {
        atan_small(t)
    } else {
        assert(((SCALE as u64 - t) as int) * (SCALE as int) <= 1_000_000_000 * 1_000_000_000)
            by (nonlinear_arith)
            requires
                0 <= (SCALE as u64 - t) as int <= 1_000_000_000,
        ;
        let num: u128 = ((SCALE as u64 - t) as u128) * (SCALE as u128);
        let u128v: u128 = num / (SCALE as u128 + t as u128);
        assert(u128v <= 420_000_000) by {
            vstd::arithmetic::div_mod::lemma_multiply_divide_le(
                num as int,
                SCALE as int + t as int,
                420_000_000,
            );
        }
        let u: u64 = u128v as u64;
        let inner: u64 = atan_small(u);
        if inner >= EIGHTH_TURN {
            0
        } else {
            EIGHTH_TURN - inner
        }
    }
}

/// The angle of the vector `(x, y)` in nanoradians, in `(-pi, pi]` nano
/// units, with `atan2_spec(0, 0) == 0`.
pub closed spec fn atan2_spec(y: int, x: int) -> int {
    let ay = if y < 0 {
        -y
    } else {
        y
    };
    let ax = if x < 0 {
        -x
    } else {
        x
    };
    let base = if ay <= ax {
        if ax == 0 {
            0
        } else {
            let t = ay * (SCALE as int) / ax;
            atan_unit_spec(if t > SCALE as int {
                SCALE as int
            } else {
                t
            })
        }
    } else {
        let t = ax * (SCALE as int) / ay;
        sat_sub(
            QUARTER_TURN as int,
            atan_unit_spec(
                if t > SCALE as int {
                    SCALE as int
                } else {
                    t
                },
            ),
        )
    };
    if x >= 0 && y >= 0 {
        base
    } else if x < 0 && y >= 0 {
        HALF_TURN as int - base
    } else if x < 0 {
        -(HALF_TURN as int - base)
    } else {
        -base
    }
}

/// The angle of the vector `(x, y)`: the bearing a robot at the origin
/// would take to head toward `(x, y)`.
pub fn atan2_nano(y: i128, x: i128) -> (a: i64)
    requires
        crate::fixed::abs_int(y as int) <= 0x1_0000_0000_0000_0000,
        crate::fixed::abs_int(x as int) <= 0x1_0000_0000_0000_0000,
    ensures
        a as int == atan2_spec(y as int, x as int),
        -(HALF_TURN as int) <= a as int <= HALF_TURN as int,
{
    let ay: u128 = if y < 0 {
        (-y) as u128
    } else {
        y as u128
    };
    let ax: u128 = if x < 0 {
        (-x) as u128
    } else {
        x as u128
    };
    assert((ay as int) * (SCALE as int) <= 0x1_0000_0000_0000_0000 * 1_000_000_000) by (nonlinear_arith)
        requires
            0 <= ay as int <= 0x1_0000_0000_0000_0000,
    ;
    assert((ax as int) * (SCALE as int) <= 0x1_0000_0000_0000_0000 * 1_000_000_000) by (nonlinear_arith)
        requires
            0 <= ax as int <= 0x1_0000_0000_0000_0000,
    ;
    let base: u64 = if ay <= ax {
        if ax == 0 {
            0
        } else {
            let t: u128 = (ay * (SCALE as u128)) / ax;
            let tc: u64 = if t > SCALE as u128 {
                SCALE as u64
            } else {
                t as u64
            };
            atan_unit(tc)
        }
    } else {
        let t: u128 = (ax * (SCALE as u128)) / ay;
        let tc: u64 = if t > SCALE as u128 {
            SCALE as u64
        } else {
            t as u64
        };
        let inner: u64 = atan_unit(tc);
        if inner >= QUARTER_TURN {
            0
        } else {
            QUARTER_TURN - inner
        }
    };
    if x >= 0 && y >= 0 {
        base as i64
    } else if x < 0 && y >= 0 {
        (HALF_TURN - base) as i64
    } else if x < 0 {
        -((HALF_TURN - base) as i64)
    } else {
        -(base as i64)
    }
}

} // verus!

//! Fixed-point arithmetic helpers.
//!
//! Every scalar in this crate is an exact integer in nano units: positions
//! and distances are nanometres, angles are nanoradians. One metre (or one
//! radian) is `SCALE` units. Working on integers keeps every operation
//! deterministic and lets the verifier reason about it exactly; the thin
//! presentation layer converts to and from whatever display format it wants.
use vstd::prelude::*;

verus! {

/// Nano units per metre (and per radian): all scalars carry nine
/// fractional decimal digits.
pub const SCALE: i64 = 1_000_000_000;

/// The absolute value of a mathematical integer.
pub open spec fn abs_int(a: int) -> int {
    if a < 0 {
        -a
    } else {
        a
    }
}

/// The product of `a` and `b` rescaled back to nano units, with the
/// quotient truncated toward zero, as all the rescaling in this crate is.
pub open spec fn mul_div_scale(a: int, b: int) -> int {
    let p = abs_int(a) * abs_int(b) / (SCALE as int);
    if (a < 0) != (b < 0) {
        -p
    } else {
        p
    }
}

/// The product of two nano-unit scalars, rescaled back to nano units, with
/// the signs handled explicitly so that all machine division is unsigned.
pub(crate) fn scaled_product(a: i128, b: i128) -> (r: i128)
    requires
        abs_int(a as int) <= SCALE as int,
        abs_int(b as int) <= i64::MAX as int + 1,
    ensures
        r == mul_div_scale(a as int, b as int),
        abs_int(r as int) <= abs_int(b as int),
{
    let ua: u128 = if a < 0 {
        (-a) as u128
    } else {
        a as u128
    };
    let ub: u128 = if b < 0 {
        (-b) as u128
    } else {
        b as u128
    };
    assert((ua as int) * (ub as int) <= (SCALE as int) * (i64::MAX as int + 1)) by (nonlinear_arith)
        requires
            0 <= ua as int <= SCALE as int,
            0 <= ub as int <= i64::MAX as int + 1,
    ;
    let p: u128 = (ua * ub) / (SCALE as u128);
    assert(p as int == (ua as int) * (ub as int) / (SCALE as int));
    assert(p <= ub) by {
        assert((ua as int) * (ub as int) <= (SCALE as int) * (ub as int)) by (nonlinear_arith)
            requires
                0 <= ua as int <= SCALE as int,
                0 <= ub as int,
        ;
        assert((SCALE as int) * (ub as int) / (SCALE as int) == ub as int) by (nonlinear_arith)
            requires
                SCALE as int > 0,
                0 <= ub as int,
        ;
        vstd::arithmetic::div_mod::lemma_div_is_ordered(
            (ua as int) * (ub as int),
            (SCALE as int) * (ub as int),
            SCALE as int,
        );
    }
    if (a < 0) != (b < 0) {
        -(p as i128)
    } else {
        p as i128
    }
}

/// The quotient of `a` by `b`, promoted to nano units: `a * SCALE / b`
/// with the quotient truncated toward zero.
pub open spec fn div_scale(a: int, b: int) -> int {
    let q = abs_int(a) * (SCALE as int) / abs_int(b);
    if (a < 0) != (b < 0) {
        -q
    } else {
        q
    }
}

/// `mul_div_scale` on machine integers of any magnitude; the result is
/// returned wide, so no bound on it is needed.
pub(crate) fn scaled_product_wide(a: i128, b: i128) -> (r: i128)
    requires
        abs_int(a as int) <= 0x8000_0000_0000_0000,
        abs_int(b as int) <= 0x8000_0000_0000_0000,
    ensures
        r == mul_div_scale(a as int, b as int),
{
    let ua: u128 = if a < 0 {
        (-a) as u128
    } else {
        a as u128
    };
    let ub: u128 = if b < 0 {
        (-b) as u128
    } else {
        b as u128
    };
    assert((ua as int) * (ub as int) <= 0x8000_0000_0000_0000 * 0x8000_0000_0000_0000)
        by (nonlinear_arith)
        requires
            0 <= ua as int <= 0x8000_0000_0000_0000,
            0 <= ub as int <= 0x8000_0000_0000_0000,
    ;
    let p: u128 = (ua * ub) / (SCALE as u128);
    assert(p as int <= (ua as int) * (ub as int)) by {
        vstd::arithmetic::div_mod::lemma_div_nonincreasing((ua as int) * (ub as int), SCALE as int);
    }
    if (a < 0) != (b < 0) {
        -(p as i128)
    } else {
        p as i128
    }
}

/// `div_scale` on machine integers: the component-wise division that
/// `Vec2` scaling uses, with the signs handled explicitly.
pub(crate) fn scaled_quotient(a: i128, b: i128) -> (r: i128)
    requires
        abs_int(a as int) <= 0x8000_0000_0000_0000,
        abs_int(b as int) <= 0x1_0000_0000_0000_0000,
        b != 0,
    ensures
        r == div_scale(a as int, b as int),
{
    let ua: u128 = if a < 0 {
        (-a) as u128
    } else {
        a as u128
    };
    let ub: u128 = if b < 0 {
        (-b) as u128
    } else {
        b as u128
    };
    assert((ua as int) * (SCALE as int) <= 0x8000_0000_0000_0000 * 1_000_000_000)
        by (nonlinear_arith)
        requires
            0 <= ua as int <= 0x8000_0000_0000_0000,
    ;
    let q: u128 = (ua * (SCALE as u128)) / ub;
    assert(q as int <= (ua as int) * (SCALE as int)) by {
        vstd::arithmetic::div_mod::lemma_div_nonincreasing((ua as int) * (SCALE as int), ub as int);
    }
    if (a < 0) != (b < 0) {
        -(q as i128)
    } else {
        q as i128
    }
}

/// A sum folded back into the 64-bit signed range. Headings accumulate
/// without normalisation, so after about ten trillion full turns in one
/// direction they fold over; nothing downstream minds, since every
/// trigonometric reading is periodic anyway.
pub open spec fn wrap_i64(v: int) -> int {
    if v > i64::MAX {
        v - 0x1_0000_0000_0000_0000
    } else if v < i64::MIN {
        v + 0x1_0000_0000_0000_0000
    } else {
        v
    }
}

/// The wrapping sum of two signed 64-bit scalars.
pub(crate) fn wrap_add(a: i64, b: i64) -> (r: i64)
    ensures
        r as int == wrap_i64(a as int + b as int),
{
    let wide: i128 = a as i128 + b as i128;
    if wide > i64::MAX as i128 {
        (wide - 0x1_0000_0000_0000_0000) as i64
    } else if wide < i64::MIN as i128 {
        (wide + 0x1_0000_0000_0000_0000) as i64
    } else {
        wide as i64
    }
}

/// The integer square root of a nonnegative integer: the greatest `r`
/// with `r * r <= n`.
pub open spec fn sqrt_floor(n: int) -> int {
    choose|r: int| 0 <= r && #[trigger] (r * r) <= n && n < (r + 1) * (r + 1)
}

/// The square-root floor is unique, so any witness pins `sqrt_floor` down.
pub proof fn lemma_sqrt_floor_unique(n: int, r: int)
    requires
        0 <= r,
        r * r <= n,
        n < (r + 1) * (r + 1),
    ensures
        sqrt_floor(n) == r,
{
    assert(exists|c: int| 0 <= c && #[trigger] (c * c) <= n && n < (c + 1) * (c + 1)) by {
        assert(0 <= r && r * r <= n && n < (r + 1) * (r + 1));
    }
    let c = sqrt_floor(n);
    assert(0 <= c && c * c <= n && n < (c + 1) * (c + 1));
    assert(c == r) by (nonlinear_arith)
        requires
            0 <= r,
            r * r <= n,
            n < (r + 1) * (r + 1),
            0 <= c,
            c * c <= n,
            n < (c + 1) * (c + 1),
    ;
}

/// The integer square root: the greatest `r` with `r * r <= n`.
pub fn isqrt(n: u128) -> (r: u64)
    ensures
        (r as int) * (r as int) <= n as int,
        n < (r as int + 1) * (r as int + 1),
        r == sqrt_floor(n as int),
{
    let mut lo: u128 = 0;
    let mut hi: u128 = 0x1_0000_0000_0000_0000;
    if n < hi {
        hi = n + 1;
    }
    assert((hi as int) * (hi as int) > n as int) by (nonlinear_arith)
        requires
            hi as int > n as int || hi as int == 0x1_0000_0000_0000_0000,
            n as int <= u128::MAX as int,
    ;
    while hi - lo > 1
        invariant
            lo < hi,
            hi <= 0x1_0000_0000_0000_0000u128,
            (lo as int) * (lo as int) <= n as int,
            (hi as int) * (hi as int) > n as int,
        decreases hi - lo,
    {
        let mid: u128 = lo + (hi - lo) / 2;
        assert((mid as int) * (mid as int) <= u128::MAX as int) by (nonlinear_arith)
            requires
                0 <= mid as int <= 0xFFFF_FFFF_FFFF_FFFF,
        ;
        if mid * mid <= n {
            lo = mid;
        } else {
            hi = mid;
        }
    }
    proof {
        lemma_sqrt_floor_unique(n as int, lo as int);
    }
    lo as u64
}

} // verus!

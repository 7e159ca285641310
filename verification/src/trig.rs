//! Fixed-point sine and cosine on micro-radian angles.
//!
//! Angles are measured in micro-radians (one millionth of a radian) and the
//! results are scaled by [`SCALE`] and shifted by [`SCALE`], so that a value
//! of `0` stands for `-1.0`, [`SCALE`] for `0.0` and [`TWO_SCALE`] for `1.0`.
//! The shift keeps every intermediate value non-negative, which lets the whole
//! computation run in `u64` arithmetic.
//!
//! The quarter-wave kernel is a degree-five polynomial approximation of the
//! sine, clamped into `[0, SCALE]`; the other quadrants come from the usual
//! symmetries after reducing the angle modulo a full turn.

use vstd::arithmetic::div_mod::{lemma_div_is_ordered, lemma_mod_bound};
use vstd::arithmetic::mul::lemma_mul_upper_bound;
use vstd::prelude::*;

verus! {

/// Number of fixed-point steps per unit: trigonometric values are scaled by
/// this factor, and lengths elsewhere in the crate are measured in units of
/// `1 / SCALE` (micro-units).
pub const SCALE: u64 = 1_000_000;

/// `2 * SCALE`, the top of the shifted trigonometric range.
pub const TWO_SCALE: u64 = 2_000_000;

/// One full turn (`2 * pi` radians) in micro-radians, rounded down.
pub const FULL_TURN: u64 = 6_283_185;

/// Half a turn (`pi` radians) in micro-radians; exactly twice
/// [`QUARTER_TURN`].
pub const HALF_TURN: u64 = 3_141_592;

/// A quarter turn (`pi / 2` radians) in micro-radians.
pub const QUARTER_TURN: u64 = 1_570_796;

/// Largest angle, in micro-radians, accepted by [`cos_shift`]; far beyond any
/// angle the spiral sampling can accumulate, yet small enough that adding a
/// quarter turn cannot overflow.
pub const MAX_ANGLE: u64 = 0x4000_0000_0000_0000;

/// Quarter-wave sine kernel: a clamped degree-five polynomial approximation
/// of `SCALE * sin(x / SCALE)` for `x` in `[0, QUARTER_TURN]`.
#[verifier::opaque]
pub open spec fn spec_sin_quarter(x: int) -> int
    recommends
        0 <= x <= QUARTER_TURN,
{
    let x2: int = (x * x) / (SCALE as int);
    let x3: int = (x2 * x) / (SCALE as int);
    let x5: int = (x3 * x2) / (SCALE as int);
    let v: int = x - x3 / 6 + x5 / 120;
    if v < 0 {
        0
    } else if v > SCALE {
        SCALE as int
    } else {
        v
    }
}

/// Sine over the first half turn, folded onto the quarter-wave kernel.
#[verifier::opaque]
pub open spec fn spec_sin_half(b: int) -> int
    recommends
        0 <= b <= HALF_TURN,
{
    if b <= QUARTER_TURN {
        spec_sin_quarter(b)
    } else {
        spec_sin_quarter(HALF_TURN - b)
    }
}

/// Shifted sine of an arbitrary micro-radian angle:
/// `SCALE * (1 + sin(a / SCALE))`, up to the kernel's approximation.
#[verifier::opaque]
pub open spec fn spec_sin_shift(a: int) -> int
    recommends
        0 <= a,
{
    let m: int = a % (FULL_TURN as int);
    if m < HALF_TURN {
        SCALE + spec_sin_half(m)
    } else {
        SCALE - spec_sin_half(m - HALF_TURN)
    }
}

/// Shifted cosine, defined from the sine by a quarter-turn phase shift.
#[verifier::opaque]
pub open spec fn spec_cos_shift(a: int) -> int
    recommends
        0 <= a,
{
    spec_sin_shift(a + QUARTER_TURN)
}

/// Executable quarter-wave kernel.
pub(crate) fn sin_quarter(x: u64) -> (r: u64)
    requires
        x <= QUARTER_TURN,
    ensures
        r == spec_sin_quarter(x as int),
        r <= SCALE,
{
    proof {
        reveal(spec_sin_quarter);
        assert((x as int) * (x as int) <= 2_467_400_073_616) by (nonlinear_arith)
            requires
                0 <= x <= 1_570_796,
        ;
    }
    let xx: u64 = x * x;
    let x2: u64 = xx / SCALE;
    proof {
        lemma_div_is_ordered(xx as int, 2_467_400_073_616, SCALE as int);
        assert(x2 <= 2_467_400);
        lemma_mul_upper_bound(x2 as int, 2_467_400, x as int, 1_570_796);
    }
    let x3: u64 = (x2 * x) / SCALE;
    proof {
        lemma_div_is_ordered((x2 * x) as int, (2_467_400 as int) * 1_570_796, SCALE as int);
        assert(x3 <= 3_875_784);
        lemma_mul_upper_bound(x3 as int, 3_875_784, x2 as int, 2_467_400);
    }
    let x5: u64 = (x3 * x2) / SCALE;
    proof {
        lemma_div_is_ordered((x3 * x2) as int, (3_875_784 as int) * 2_467_400, SCALE as int);
        assert(x5 <= 9_563_110);
    }
    let raised: u64 = x + x5 / 120;
    let lowered: u64 = x3 / 6;
    if raised < lowered {
        0
    } else if raised - lowered > SCALE {
        SCALE
    } else {
        raised - lowered
    }
}

/// Executable sine over the first half turn.
pub(crate) fn sin_half(b: u64) -> (r: u64)
    requires
        b <= HALF_TURN,
    ensures
        r == spec_sin_half(b as int),
        r <= SCALE,
{
    proof {
        reveal(spec_sin_half);
    }
    if b <= QUARTER_TURN {
        sin_quarter(b)
    } else {
        sin_quarter(HALF_TURN - b)
    }
}

/// Executable shifted sine; accepts any accumulated angle and reduces it
/// modulo a full turn first.
pub fn sin_shift(a: u64) -> (r: u64)
    ensures
        r == spec_sin_shift(a as int),
        r <= TWO_SCALE,
{
    let m: u64 = a % FULL_TURN;
    proof {
        reveal(spec_sin_shift);
        lemma_mod_bound(a as int, FULL_TURN as int);
    }
    if m < HALF_TURN {
        let h: u64 = sin_half(m);
        SCALE + h
    } else {
        let h: u64 = sin_half(m - HALF_TURN);
        SCALE - h
    }
}

/// Executable shifted cosine.
pub fn cos_shift(a: u64) -> (r: u64)
    requires
        a <= MAX_ANGLE,
    ensures
        r == spec_cos_shift(a as int),
        r <= TWO_SCALE,
{
    proof {
        reveal(spec_cos_shift);
    }
    sin_shift(a + QUARTER_TURN)
}

} // verus!

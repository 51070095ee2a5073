//! Fixed-point trigonometry for the cosmetic pulse effect.
//!
//! A pointer's animation cycle is measured in micro-cycles: one full cycle
//! is `CYCLE_MICRO` micro-cycles. `sin_milli` approximates the sine of the
//! cycle position (one cycle being a full turn), scaled by 1000, with a
//! rational approximation that is exact at the quarter points of the cycle
//! and always stays within `[-1000, 1000]`.

use vstd::prelude::*;
use vstd::arithmetic::div_mod::lemma_div_is_ordered;
use vstd::arithmetic::div_mod::lemma_div_multiples_vanish;

verus! {

/// Micro-cycles in one full animation cycle.
pub const CYCLE_MICRO: u32 = 1_000_000;

/// Micro-cycles in half an animation cycle.
pub const HALF_CYCLE_MICRO: u32 = 500_000;

/// The product `t * (HALF_CYCLE_MICRO - t)`, the parabola that drives the
/// rational sine approximation on a half cycle. It is zero at both ends of
/// the half cycle and peaks at the quarter point.
pub open spec fn pulse_q(t: int) -> int {
    t * (500_000 - t)
}

/// Sine of the first half cycle, scaled by 1000: for `t` in
/// `[0, HALF_CYCLE_MICRO]` this approximates `1000 * sin(pi * t / 500_000)`
/// with the classical rational approximation
/// `16 q / (5 H^2 - 4 q)` where `q = t (H - t)` and `H = 500_000`.
pub open spec fn sin_half_milli(t: int) -> int {
    (16_000 * pulse_q(t)) / (1_250_000_000_000 - 4 * pulse_q(t))
}

/// Sine of a full cycle position `p` in `[0, CYCLE_MICRO]`, scaled by 1000:
/// the first half cycle is non-negative, the second is its mirror image.
pub open spec fn sin_milli_spec(p: int) -> int {
    if p <= 500_000 {
        sin_half_milli(p)
    } else {
        -sin_half_milli(p - 500_000)
    }
}

/// Line thickness, in milli-units, derived from a cycle position: a pulse
/// around 3 units with an amplitude of 2 units.
pub open spec fn thickness_of(p: int) -> int {
    3000 + 2 * sin_milli_spec(p)
}

/// The driving parabola is non-negative on the half cycle and peaks at
/// `(H/2)^2 = 62_500_000_000`.
pub proof fn lemma_pulse_q_bounds(t: int)
    requires
        0 <= t <= 500_000,
    ensures
        0 <= pulse_q(t),
        pulse_q(t) <= 62_500_000_000,
{
    assert(0 <= t * (500_000 - t)) by (nonlinear_arith)
        requires 0 <= t <= 500_000;
    assert(t * (500_000 - t) <= 62_500_000_000) by (nonlinear_arith)
        requires 0 <= t <= 500_000;
}

/// The half-cycle sine stays within `[0, 1000]`.
pub proof fn lemma_sin_half_milli_bounds(t: int)
    requires
        0 <= t <= 500_000,
    ensures
        0 <= sin_half_milli(t),
        sin_half_milli(t) <= 1000,
{
    lemma_pulse_q_bounds(t);
    let q = pulse_q(t);
    let num = 16_000 * q;
    let den = 1_250_000_000_000 - 4 * q;
    assert(den >= 1_000_000_000_000);
    assert(num >= 0);
    lemma_div_multiples_vanish(0, den);
    assert(den * 0 == 0);
    lemma_div_is_ordered(0, num, den);
    assert(num <= 1000 * den);
    lemma_div_is_ordered(num, 1000 * den, den);
    lemma_div_multiples_vanish(1000, den);
    assert(den * 1000 == 1000 * den);
    assert(sin_half_milli(t) == num / den);
}

/// The full-cycle sine stays within `[-1000, 1000]`.
pub proof fn lemma_sin_milli_bounds(p: int)
    requires
        0 <= p <= 1_000_000,
    ensures
        -1000 <= sin_milli_spec(p),
        sin_milli_spec(p) <= 1000,
{
    if p <= 500_000 {
        lemma_sin_half_milli_bounds(p);
    } else {
        lemma_sin_half_milli_bounds(p - 500_000);
    }
}

/// Thickness bound: the derived thickness of an animated pointer lies in
/// `[1, 5]` units (`[1000, 5000]` milli-units) for every cycle position.
pub proof fn lemma_thickness_bounds(p: int)
    requires
        0 <= p <= 1_000_000,
    ensures
        1000 <= thickness_of(p),
        thickness_of(p) <= 5000,
{
    lemma_sin_milli_bounds(p);
}

/// Fixed-point sine of the first half cycle.
fn sin_half(t: u32) -> (s: i32)
    requires
        t <= HALF_CYCLE_MICRO,
    ensures
        s == sin_half_milli(t as int),
        0 <= s <= 1000,
{
    proof {
        lemma_pulse_q_bounds(t as int);
        lemma_sin_half_milli_bounds(t as int);
    }
    let q: u64 = (t as u64) * ((500_000 - t) as u64);
    assert(q == pulse_q(t as int));
    let num: u64 = 16_000 * q;
    let den: u64 = 1_250_000_000_000 - 4 * q;
    let r: u64 = num / den;
    assert(r == sin_half_milli(t as int));
    r as i32
}

/// Fixed-point sine of a full cycle position, scaled by 1000.
pub fn sin_milli(p: u32) -> (s: i32)
    requires
        p <= CYCLE_MICRO,
    ensures
        s == sin_milli_spec(p as int),
        -1000 <= s <= 1000,
{
    if p <= HALF_CYCLE_MICRO {
        sin_half(p)
    } else {
        let half = sin_half(p - HALF_CYCLE_MICRO);
        -half
    }
}

} // verus!

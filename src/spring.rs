//! A critically damped spring that moves a value towards a target without
//! overshooting it.
//!
//! Positions are fixed-point numbers, velocities are fixed-point units per
//! second and times are whole microseconds.  The decay `e^(-x)` of the
//! oscillator is taken as `1 / (1 + x + 0.48 x^2 + 0.235 x^3)`, held times
//! `2^32`.

use crate::math::{div_trunc, trunc_div};
use vstd::arithmetic::div_mod::{lemma_div_is_ordered, lemma_div_is_ordered_by_denominator};
use vstd::prelude::*;

verus! {

/// Shortest smooth time, in microseconds; shorter ones are taken as this.
pub const MIN_SMOOTH_TIME_US: u64 = 100;

/// Longest time span, in microseconds (about 16.8 s); longer smooth times and
/// frame durations are taken as this.
pub const MAX_SPAN_US: u64 = 16777216;

/// The fixed-point value of a decay factor of one.
pub const DECAY_ONE: i128 = 4294967296;

/// Microseconds per second.
pub const MICROS: i128 = 1000000;

/// The smooth time that the spring uses.
pub open spec fn effective_smooth_time(t: int) -> int {
    if t < MIN_SMOOTH_TIME_US {
        MIN_SMOOTH_TIME_US as int
    } else if t > MAX_SPAN_US {
        MAX_SPAN_US as int
    } else {
        t
    }
}

/// The frame duration that the spring uses.
pub open spec fn effective_span(t: int) -> int {
    if t > MAX_SPAN_US {
        MAX_SPAN_US as int
    } else {
        t
    }
}

/// The decay `1 / (1 + x + 0.48 x^2 + 0.235 x^3)` for `x = p / q`, times `2^32`.
pub open spec fn decay(p: int, q: int) -> int {
    (DECAY_ONE * (1000 * q * q * q)) / (1000 * q * q * q + 1000 * p * q * q + 480 * p * p * q + 235
        * p * p * p)
}

/// `x` kept within the range of `i64`.
pub open spec fn saturate(x: int) -> int {
    if x < i64::MIN {
        i64::MIN as int
    } else if x > i64::MAX {
        i64::MAX as int
    } else {
        x
    }
}

/// Position and velocity after one step of the oscillator, before the
/// overshoot check.
pub open spec fn spring_free(current: int, target: int, velocity: int, smooth_us: int, delta_us: int) -> (
    int,
    int,
) {
    let st = effective_smooth_time(smooth_us);
    let dt = effective_span(delta_us);
    let d = decay(2 * dt, st);
    let change = current - target;
    let temp = saturate(trunc_div(velocity * dt, MICROS as int) + trunc_div(change * (2 * dt), st));
    let omega_temp = trunc_div(2 * MICROS * temp, st);
    let v = saturate(trunc_div((velocity - omega_temp) * d, DECAY_ONE as int));
    let out = saturate(target + trunc_div((change + temp) * d, DECAY_ONE as int));
    (out, v)
}

/// Whether a step from `current` that lands on `out` reaches or passes `target`.
pub open spec fn arrives(current: int, target: int, out: int) -> bool {
    if current < target {
        out >= target
    } else if current > target {
        out <= target
    } else {
        true
    }
}

/// Position and velocity after one step of the spring: the oscillator's
/// step, or the target at rest where that step would reach or pass it.
pub open spec fn spring_step(current: int, target: int, velocity: int, smooth_us: int, delta_us: int) -> (
    int,
    int,
) {
    let free = spring_free(current, target, velocity, smooth_us, delta_us);
    if arrives(current, target, free.0) {
        (target, 0)
    } else {
        free
    }
}

/// Position and velocity after one step for each frame duration of `spans`.
pub open spec fn spring_run(current: int, target: int, velocity: int, smooth_us: int, spans: Seq<
    int,
>) -> (int, int)
    decreases spans.len(),
{
    if spans.len() == 0 {
        (current, velocity)
    } else {
        let s = spring_step(current, target, velocity, smooth_us, spans[0]);
        spring_run(s.0, target, s.1, smooth_us, spans.drop_first())
    }
}

fn saturate_i64(x: i128) -> (r: i64)
    ensures
        r == saturate(x as int),
{
    if x < i64::MIN as i128 {
        i64::MIN
    } else if x > i64::MAX as i128 {
        i64::MAX
    } else {
        x as i64
    }
}

/// The decay factor for `x = p / q`, times `2^32`.
fn decay_factor(p: i128, q: i128) -> (r: i128)
    requires
        0 <= p <= 2 * MAX_SPAN_US,
        MIN_SMOOTH_TIME_US <= q <= MAX_SPAN_US,
    ensures
        r == decay(p as int, q as int),
        0 <= r <= DECAY_ONE,
{
    proof {
        lemma_decay_terms(p as int, q as int);
    }
    let a = 1000 * q * q * q;
    let den = a + 1000 * p * q * q + 480 * p * p * q + 235 * p * p * p;
    let r = (DECAY_ONE * a) / den;
    proof {
        let (ai, di) = (a as int, den as int);
        lemma_div_is_ordered_by_denominator(DECAY_ONE * ai, ai, di);
        assert((DECAY_ONE * ai) / ai == DECAY_ONE) by (nonlinear_arith)
            requires
                ai > 0,
        ;
        assert(0 <= (DECAY_ONE * ai) / di) by (nonlinear_arith)
            requires
                ai > 0,
                di > 0,
        ;
    }
    r
}

proof fn lemma_decay_terms(p: int, q: int)
    requires
        0 <= p <= 2 * MAX_SPAN_US,
        MIN_SMOOTH_TIME_US <= q <= MAX_SPAN_US,
    ensures
        0 < 1000 * q <= 0x100000000000,
        0 < 1000 * q * q <= 0x200000000000000000,
        0 < 1000 * q * q * q <= 0x400000000000000000000000,
        0 <= 1000 * p <= 0x100000000000,
        0 <= 1000 * p * q <= 0x200000000000000000,
        0 <= 1000 * p * q * q <= 0x400000000000000000000000,
        0 <= 480 * p <= 0x100000000000,
        0 <= 480 * p * p <= 0x200000000000000000,
        0 <= 480 * p * p * q <= 0x400000000000000000000000,
        0 <= 235 * p <= 0x100000000000,
        0 <= 235 * p * p <= 0x200000000000000000,
        0 <= 235 * p * p * p <= 0x400000000000000000000000,
        0 <= DECAY_ONE * (1000 * q * q * q) <= 0x40000000000000000000000000000000,
{
    assert(0x100000000000 * 0x2000000 == 0x200000000000000000) by (nonlinear_arith);
    assert(0x200000000000000000 * 0x2000000 == 0x400000000000000000000000) by (nonlinear_arith);
    assert(DECAY_ONE * 0x400000000000000000000000 == 0x40000000000000000000000000000000) by (nonlinear_arith);
    assert(1000 * q > 0) by (nonlinear_arith)
        requires
            q > 0,
    ;
    lemma_mul_le(1000 * q, q, 0x100000000000, 0x2000000);
    lemma_mul_le(1000 * q * q, q, 0x200000000000000000, 0x2000000);
    assert(1000 * q * q > 0 && 1000 * q * q * q > 0) by (nonlinear_arith)
        requires
            q > 0,
    ;
    lemma_mul_le(1000 * p, q, 0x100000000000, 0x2000000);
    lemma_mul_le(1000 * p * q, q, 0x200000000000000000, 0x2000000);
    lemma_mul_le(480 * p, p, 0x100000000000, 0x2000000);
    lemma_mul_le(480 * p * p, q, 0x200000000000000000, 0x2000000);
    lemma_mul_le(235 * p, p, 0x100000000000, 0x2000000);
    lemma_mul_le(235 * p * p, p, 0x200000000000000000, 0x2000000);
    lemma_mul_le(DECAY_ONE as int, 1000 * q * q * q, DECAY_ONE as int, 0x400000000000000000000000);
}

proof fn lemma_mul_le(a: int, b: int, ka: int, kb: int)
    requires
        0 <= a <= ka,
        0 <= b <= kb,
    ensures
        0 <= a * b <= ka * kb,
{
    assert(0 <= a * b <= ka * kb) by (nonlinear_arith)
        requires
            0 <= a <= ka,
            0 <= b <= kb,
    ;
}

proof fn lemma_mul_bound(a: int, b: int, ka: int, kb: int)
    requires
        -ka <= a <= ka,
        -kb <= b <= kb,
    ensures
        -(ka * kb) <= a * b <= ka * kb,
{
    assert(-(ka * kb) <= a * b <= ka * kb) by (nonlinear_arith)
        requires
            -ka <= a <= ka,
            -kb <= b <= kb,
    ;
}

/// Moves `current` one frame of `delta_us` microseconds towards `target`, as a
/// critically damped spring with the given smooth time, and updates
/// `velocity`.  A step that would reach or pass the target ends on it, at rest.
pub fn smooth_damp(current: i64, target: i64, velocity: &mut i64, smooth_time_us: u64, delta_us: u64) -> (r:
    i64)
    ensures
        (r as int, *final(velocity) as int) == spring_step(
            current as int,
            target as int,
            *old(velocity) as int,
            smooth_time_us as int,
            delta_us as int,
        ),
        current <= target ==> r <= target,
        current >= target ==> r >= target,
        current == target ==> r == target && *final(velocity) == 0,
{
    let st: i128 = if smooth_time_us < MIN_SMOOTH_TIME_US {
        MIN_SMOOTH_TIME_US as i128
    } else if smooth_time_us > MAX_SPAN_US {
        MAX_SPAN_US as i128
    } else {
        smooth_time_us as i128
    };
    let dt: i128 = if delta_us > MAX_SPAN_US {
        MAX_SPAN_US as i128
    } else {
        delta_us as i128
    };
    let v0 = *velocity as i128;
    let d = decay_factor(2 * dt, st);
    let change = current as i128 - target as i128;
    proof {
        lemma_mul_bound(v0 as int, dt as int, 0x8000000000000000int, 0x1000000int);
        lemma_mul_bound(change as int, 2 * dt as int, 0x10000000000000000int, 0x2000000int);
    }
    let temp = saturate_i64(div_trunc(v0 * dt, MICROS) + div_trunc(change * (2 * dt), st)) as i128;
    proof {
        lemma_mul_bound(2 * MICROS as int, temp as int, 2000000int, 0x8000000000000000int);
    }
    let omega_temp = div_trunc(2 * MICROS * temp, st);
    proof {
        lemma_trunc_div_shrinks(2 * MICROS * temp, st as int, 2000000int * 0x8000000000000000int);
        lemma_mul_bound(
            (v0 - omega_temp) as int,
            d as int,
            0x8000000000000000int + 2000000int * 0x8000000000000000int,
            DECAY_ONE as int,
        );
        lemma_mul_bound((change + temp) as int, d as int, 0x20000000000000000int, DECAY_ONE as int);
    }
    let v = saturate_i64(div_trunc((v0 - omega_temp) * d, DECAY_ONE));
    let out = saturate_i64(target as i128 + div_trunc((change + temp) * d, DECAY_ONE));
    let arrived = if current < target {
        out >= target
    } else if current > target {
        out <= target
    } else {
        true
    };
    if arrived {
        *velocity = 0;
        target
    } else {
        *velocity = v;
        out
    }
}

proof fn lemma_trunc_div_shrinks(n: int, d: int, k: int)
    requires
        d >= 1,
        -k <= n <= k,
    ensures
        -k <= trunc_div(n, d) <= k,
{
    if n >= 0 {
        lemma_div_is_ordered(n, k, d);
        lemma_div_is_ordered_by_denominator(k, 1, d);
    } else {
        lemma_div_is_ordered(-n, k, d);
        lemma_div_is_ordered_by_denominator(k, 1, d);
    }
    assert(0 <= n ==> 0 <= n / d) by (nonlinear_arith)
        requires
            d >= 1,
    ;
    assert(n < 0 ==> 0 <= (-n) / d) by (nonlinear_arith)
        requires
            d >= 1,
    ;
}

/// At the target and at rest, the spring stays there: a step leaves both the
/// position and the velocity unchanged.
pub proof fn lemma_spring_rests_at_target(target: int, smooth_us: int, delta_us: int)
    ensures
        spring_step(target, target, 0, smooth_us, delta_us) == (target, 0int),
{
}

/// The spring never passes its target: from a position at or below the target,
/// every run of steps, whatever the frame durations and the starting velocity,
/// ends at or below it; and symmetrically from above.
pub proof fn lemma_spring_never_overshoots(
    current: int,
    target: int,
    velocity: int,
    smooth_us: int,
    spans: Seq<int>,
)
    ensures
        current <= target ==> spring_run(current, target, velocity, smooth_us, spans).0 <= target,
        current >= target ==> spring_run(current, target, velocity, smooth_us, spans).0 >= target,
    decreases spans.len(),
{
    if spans.len() > 0 {
        let s = spring_step(current, target, velocity, smooth_us, spans[0]);
        lemma_spring_never_overshoots(s.0, target, s.1, smooth_us, spans.drop_first());
    }
}

} // verus!

//! Free flight of the ball: bounces, drag, and how long a kick takes to travel a distance.
use vstd::prelude::*;
use crate::geometry::div0;

verus! {

/// Drag keeps `DRAG_NUM / DRAG_DEN` of the velocity every tick.
pub const DRAG_NUM: i64 = 98;
pub const DRAG_DEN: i64 = 100;

/// Speed of a kicked ball, per tick.
pub const KICK_STRENGTH: i64 = 11_500;

/// Distance at which a kicked ball would come to rest: `KICK_STRENGTH / (1 - drag)`.
pub const REST_DISTANCE: i64 = 575_000;

/// Distances from here on take the fixed number of ticks `LONG_KICK_STEPS`.
pub const LONG_KICK_DISTANCE: i64 = 574_000;
pub const LONG_KICK_STEPS: i32 = 190;

/// Fixed-point scale of the remaining-speed fraction that `steps` tracks.
pub const FRACTION_SCALE: i64 = 1_000_000_000_000;

/// Largest position or velocity magnitude that the ball step accepts.
pub const PHYSICS_LIMIT: i64 = 0x0100_0000_0000_0000;

/// One tick of drag on a velocity component, rounding toward zero.
pub open spec fn spec_drag(v: int) -> int {
    div0(v * DRAG_NUM, DRAG_DEN as int)
}

/// One tick of free flight along one axis: step, and if that leaves `[lo, hi]`, stay put and
/// reverse; then apply drag.
pub open spec fn spec_ball_physics(pos: int, vel: int, lo: int, hi: int) -> (int, int) {
    if pos + vel < lo || pos + vel > hi {
        (pos, spec_drag(-vel))
    } else {
        (pos + vel, spec_drag(vel))
    }
}

/// Ease toward `b`: snap when closer than a pixel, else take the midpoint.
pub open spec fn spec_avg(a: int, b: int) -> int {
    if -1000 < b - a < 1000 {
        b
    } else {
        div0(a + b, 2)
    }
}

/// Ticks counted from `n` until the remaining-speed fraction `p` (scaled by `FRACTION_SCALE`)
/// satisfies `p * REST_DISTANCE <= limit`, the fraction shrinking by drag each tick.
pub open spec fn ticks_until(p: int, limit: int, n: int) -> int
    decreases p,
{
    if p * REST_DISTANCE <= limit || p <= 0 {
        n
    } else {
        ticks_until(p * DRAG_NUM / (DRAG_DEN as int), limit, n + 1)
    }
}

/// Ticks for a kicked ball to cover `distance` under drag alone: the least `n` with
/// `drag^n <= 1 - distance / REST_DISTANCE`, or `LONG_KICK_STEPS` from `LONG_KICK_DISTANCE` on.
pub open spec fn spec_steps(distance: int) -> int {
    if distance < LONG_KICK_DISTANCE {
        ticks_until(FRACTION_SCALE as int, (REST_DISTANCE - distance) * FRACTION_SCALE, 0)
    } else {
        LONG_KICK_STEPS as int
    }
}

/// One tick of drag on a velocity component.
pub fn drag(v: i64) -> (r: i64)
    requires
        -PHYSICS_LIMIT <= v <= PHYSICS_LIMIT,
    ensures
        r == spec_drag(v as int),
        v >= 0 ==> 0 <= r <= v,
        v <= 0 ==> v <= r <= 0,
        v > 0 ==> r < v,
        v < 0 ==> r > v,
{
    if v >= 0 {
        v * DRAG_NUM / DRAG_DEN
    } else {
        -((-v) * DRAG_NUM / DRAG_DEN)
    }
}

/// One tick of free flight along one axis within `bounds`; returns the new position and velocity.
pub fn ball_physics(pos: i64, vel: i64, bounds: (i64, i64)) -> (r: (i64, i64))
    requires
        -PHYSICS_LIMIT <= pos <= PHYSICS_LIMIT,
        -PHYSICS_LIMIT <= vel <= PHYSICS_LIMIT,
    ensures
        (r.0 as int, r.1 as int) == spec_ball_physics(pos as int, vel as int, bounds.0 as int, bounds.1 as int),
        r.0 == pos || (bounds.0 <= r.0 && r.0 <= bounds.1),
        -crate::field::abs(vel as int) <= r.1 <= crate::field::abs(vel as int),
{
    let mut p = pos + vel;
    let mut v = vel;
    if p < bounds.0 || p > bounds.1 {
        p = p - vel;
        v = -v;
    }
    (p, drag(v))
}

/// Moves `a` toward `b`: snaps when closer than a pixel, else takes the midpoint.
pub fn avg(a: i64, b: i64) -> (r: i64)
    requires
        -PHYSICS_LIMIT <= a <= PHYSICS_LIMIT,
        -PHYSICS_LIMIT <= b <= PHYSICS_LIMIT,
    ensures
        r == spec_avg(a as int, b as int),
        a <= b ==> a <= r <= b,
        b <= a ==> b <= r <= a,
{
    if b - a > -1000 && b - a < 1000 {
        b
    } else {
        let s = a + b;
        if s >= 0 {
            s / 2
        } else {
            -((-s) / 2)
        }
    }
}

/// Number of ticks a kicked ball takes to travel `distance` under drag alone.
pub fn steps(distance: i64) -> (r: i32)
    requires
        0 <= distance,
    ensures
        r == spec_steps(distance as int),
        0 <= r <= 40_000,
{
    if distance >= LONG_KICK_DISTANCE {
        return LONG_KICK_STEPS;
    }
    let limit = (REST_DISTANCE - distance) * FRACTION_SCALE;
    let mut p: i64 = FRACTION_SCALE;
    let mut n: i32 = 0;
    while !(p * REST_DISTANCE <= limit || p <= 0)
        invariant
            0 <= p <= FRACTION_SCALE,
            0 <= n,
            p + n * 30_000_000 <= FRACTION_SCALE,
            limit == (REST_DISTANCE - distance) * FRACTION_SCALE,
            0 <= distance < LONG_KICK_DISTANCE,
            ticks_until(p as int, limit as int, n as int) == ticks_until(
                FRACTION_SCALE as int,
                limit as int,
                0,
            ),
        decreases p,
    {
        p = p * DRAG_NUM / DRAG_DEN;
        n = n + 1;
    }
    n
}

proof fn lemma_ticks_until_at_least(p: int, limit: int, n: int)
    ensures
        ticks_until(p, limit, n) >= n,
    decreases p,
{
    if !(p * REST_DISTANCE <= limit || p <= 0) {
        lemma_ticks_until_at_least(p * DRAG_NUM / (DRAG_DEN as int), limit, n + 1);
    }
}

proof fn lemma_ticks_until_monotone(p: int, l1: int, l2: int, n: int)
    requires
        l2 <= l1,
    ensures
        ticks_until(p, l1, n) <= ticks_until(p, l2, n),
    decreases p,
{
    if p * REST_DISTANCE <= l2 || p <= 0 {
    } else if p * REST_DISTANCE <= l1 {
        lemma_ticks_until_at_least(p, l2, n);
    } else {
        lemma_ticks_until_monotone(p * DRAG_NUM / (DRAG_DEN as int), l1, l2, n + 1);
    }
}

/// The number of ticks a kick needs never falls as the distance grows below
/// `LONG_KICK_DISTANCE`; from there on it is `LONG_KICK_STEPS`; and no distance takes no time.
pub proof fn lemma_steps_monotone(d1: int, d2: int)
    requires
        0 <= d1 <= d2,
    ensures
        d2 < LONG_KICK_DISTANCE ==> spec_steps(d1) <= spec_steps(d2),
        d2 >= LONG_KICK_DISTANCE ==> spec_steps(d2) == LONG_KICK_STEPS,
        spec_steps(0) == 0,
{
    if d2 < LONG_KICK_DISTANCE {
        lemma_ticks_until_monotone(
            FRACTION_SCALE as int,
            (REST_DISTANCE - d1) * FRACTION_SCALE,
            (REST_DISTANCE - d2) * FRACTION_SCALE,
            0,
        );
    }
    assert(FRACTION_SCALE * REST_DISTANCE <= (REST_DISTANCE - 0) * FRACTION_SCALE);
}

} // verus!

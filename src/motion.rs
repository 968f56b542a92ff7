//! Force combination, integration and orientation.
use vstd::prelude::*;
use crate::agent::{Align, Boid, Cohesion, Seperation};
use crate::config::{FlockConfig, PARAM_LIMIT, WEIGHT_SCALE};
use crate::vector::{
    abs, clamp_len, clamp_length_max, div_toward_zero, lemma_clamp_len, lemma_trunc_div_bound,
    len2, trunc_div, vadd, IVec, Vec2,
};

verus! {

/// Largest magnitude of an accumulated acceleration component.
pub const ACCEL_LIMIT: i64 = 0x10_0000_0000_0000;

/// Longest tick, in milliseconds.
pub const DT_LIMIT: u64 = 0x1_0000;

/// Largest magnitude of one weighted steering component.
pub const WEIGHTED_LIMIT: i64 = 0x80_0000_0000;

/// `v` scaled by a weight in thousandths.
pub open spec fn weighted(v: IVec, w: int) -> IVec {
    (trunc_div(v.0 * w, WEIGHT_SCALE as int), trunc_div(v.1 * w, WEIGHT_SCALE as int))
}

/// The weighted sum of the three steering forces.
pub open spec fn flock_acceleration(align: IVec, separation: IVec, cohesion: IVec, c: FlockConfig) -> IVec {
    vadd(
        vadd(weighted(align, c.align.mag as int), weighted(separation, c.separation.mag as int)),
        weighted(cohesion, c.cohesion.mag as int),
    )
}

/// Velocity after `acceleration` acts for `dt` milliseconds, clamped to `max_speed`.
pub open spec fn integrate_velocity(velocity: IVec, acceleration: IVec, max_speed: int, dt: int) -> IVec {
    clamp_len(
        (
            velocity.0 + trunc_div(acceleration.0 * dt, 1000),
            velocity.1 + trunc_div(acceleration.1 * dt, 1000),
        ),
        max_speed,
    )
}

/// Heading after a move with `velocity`: the velocity itself, unless it is zero.
pub open spec fn next_heading(heading: IVec, velocity: IVec) -> IVec {
    if velocity == (0int, 0int) {
        heading
    } else {
        velocity
    }
}

pub open spec fn accel_ok(v: IVec, limit: int) -> bool {
    abs(v.0) <= limit && abs(v.1) <= limit
}

fn weigh(v: i64, w: i64) -> (r: i64)
    requires
        -PARAM_LIMIT <= v <= PARAM_LIMIT,
        0 <= w <= PARAM_LIMIT,
    ensures
        r == trunc_div(v * w, WEIGHT_SCALE as int),
        abs(r as int) <= WEIGHTED_LIMIT,
{
    assert(-PARAM_LIMIT * PARAM_LIMIT <= v * w <= PARAM_LIMIT * PARAM_LIMIT) by (nonlinear_arith)
        requires
            -PARAM_LIMIT <= v <= PARAM_LIMIT,
            0 <= w <= PARAM_LIMIT,
    ;
    let p = v as i128 * w as i128;
    proof {
        lemma_trunc_div_bound(p as int, WEIGHT_SCALE as int);
    }
    div_toward_zero(p, WEIGHT_SCALE as i128) as i64
}

/// Adds the weighted steering forces to the accumulator, keeping what it held.
pub fn boid_flock(
    acceleration: &mut Vec2,
    align: &Align,
    separation: &Seperation,
    cohesion: &Cohesion,
    config: &FlockConfig,
)
    requires
        config.wf(),
        accel_ok(old(acceleration)@, ACCEL_LIMIT - 3 * WEIGHTED_LIMIT),
        accel_ok(align.vec@, config.max_force as int),
        accel_ok(separation.vec@, config.max_force as int),
        accel_ok(cohesion.vec@, config.max_force as int),
    ensures
        final(acceleration)@ == vadd(
            old(acceleration)@,
            flock_acceleration(align.vec@, separation.vec@, cohesion.vec@, *config),
        ),
        abs(final(acceleration).x - old(acceleration).x) <= 3 * WEIGHTED_LIMIT,
        abs(final(acceleration).y - old(acceleration).y) <= 3 * WEIGHTED_LIMIT,
{
    let ax = weigh(align.vec.x, config.align.mag);
    let ay = weigh(align.vec.y, config.align.mag);
    let sx = weigh(separation.vec.x, config.separation.mag);
    let sy = weigh(separation.vec.y, config.separation.mag);
    let cx = weigh(cohesion.vec.x, config.cohesion.mag);
    let cy = weigh(cohesion.vec.y, config.cohesion.mag);
    acceleration.x = acceleration.x + ((ax + sx) + cx);
    acceleration.y = acceleration.y + ((ay + sy) + cy);
}

/// Adds an avoidance push to the accumulator, keeping what it held.
pub fn accumulate(acceleration: &mut Vec2, push: Vec2)
    requires
        abs(old(acceleration).x + push.x) <= ACCEL_LIMIT,
        abs(old(acceleration).y + push.y) <= ACCEL_LIMIT,
    ensures
        final(acceleration)@ == vadd(old(acceleration)@, push@),
{
    acceleration.x = acceleration.x + push.x;
    acceleration.y = acceleration.y + push.y;
}

/// Applies the accumulated acceleration for `dt` milliseconds, clamps the
/// speed to `max_speed`, and clears the accumulator.
pub fn krill_update_velocity(boid: &mut Boid, config: &FlockConfig, dt: u64)
    requires
        config.wf(),
        old(boid).velocity.bounded(),
        accel_ok(old(boid).acceleration@, ACCEL_LIMIT as int),
        dt <= DT_LIMIT,
    ensures
        final(boid).velocity@ == integrate_velocity(
            old(boid).velocity@,
            old(boid).acceleration@,
            config.max_speed as int,
            dt as int,
        ),
        len2(final(boid).velocity@) <= config.max_speed * config.max_speed,
        final(boid).velocity.bounded(),
        final(boid).acceleration@ == (0int, 0int),
        final(boid).id == old(boid).id,
        final(boid).position == old(boid).position,
        final(boid).heading == old(boid).heading,
        final(boid).state == old(boid).state,
{
    let a = boid.acceleration;
    let v = boid.velocity;
    assert(-ACCEL_LIMIT * DT_LIMIT <= a.x * dt <= ACCEL_LIMIT * DT_LIMIT) by (nonlinear_arith)
        requires
            abs(a.x as int) <= ACCEL_LIMIT,
            0 <= dt <= DT_LIMIT,
    ;
    assert(-ACCEL_LIMIT * DT_LIMIT <= a.y * dt <= ACCEL_LIMIT * DT_LIMIT) by (nonlinear_arith)
        requires
            abs(a.y as int) <= ACCEL_LIMIT,
            0 <= dt <= DT_LIMIT,
    ;
    let px = a.x as i128 * dt as i128;
    let py = a.y as i128 * dt as i128;
    proof {
        lemma_trunc_div_bound(px as int, 1000);
        lemma_trunc_div_bound(py as int, 1000);
    }
    let nx = v.x as i128 + div_toward_zero(px, 1000);
    let ny = v.y as i128 + div_toward_zero(py, 1000);
    let (cx, cy) = clamp_length_max(nx, ny, config.max_speed as i128);
    proof {
        lemma_clamp_len((nx as int, ny as int), config.max_speed as int);
    }
    boid.velocity = Vec2 { x: cx as i64, y: cy as i64 };
    boid.acceleration = Vec2::zero();
}

/// Turns the agent to face its velocity; a zero velocity keeps the old heading.
pub fn krill_rotate_to_face_vel_vec(boid: &mut Boid)
    ensures
        final(boid).heading@ == next_heading(old(boid).heading@, old(boid).velocity@),
        final(boid).id == old(boid).id,
        final(boid).position == old(boid).position,
        final(boid).velocity == old(boid).velocity,
        final(boid).acceleration == old(boid).acceleration,
        final(boid).state == old(boid).state,
{
    if !boid.velocity.is_zero() {
        boid.heading = boid.velocity;
    }
}

} // verus!

//! Populating the swarm with randomly placed agents.
use vstd::prelude::*;
use rand::Rng;
use crate::agent::KrillState;
use crate::config::{FlockConfig, PARAM_LIMIT};
use crate::steering::MAX_AGENTS;
use crate::swarm::{Swarm, SwarmError};
use crate::vector::{
    length_squared, lemma_scale_to_len, len2, scale_to, scale_to_length, IVec, Vec2, UNIT,
};

verus! {

/// Relies on `rand::Rng::gen_range` over `rand::thread_rng()`: the value lies
/// in `lo..hi`; the call panics only on an empty range.
#[verifier::external_body]
fn random_in(lo: i64, hi: i64) -> (r: i64)
    requires
        lo < hi,
    ensures
        lo <= r < hi,
{
    rand::thread_rng().gen_range(lo..hi)
}

/// Largest magnitude of a drawn direction component. A wide range keeps the
/// rounding of the rescaled direction far below one fixed-point step.
pub const DIRECTION_RANGE: i64 = 0x10_0000;

/// How many directions are drawn before falling back to the x axis.
pub const DIRECTION_DRAWS: u32 = 8;

/// Starting velocity along `(dx, dy)` at `speed`; along the x axis when the
/// direction is zero.
pub open spec fn launch_velocity(dx: int, dy: int, speed: int) -> IVec {
    if dx == 0 && dy == 0 {
        (speed, 0int)
    } else {
        scale_to((dx, dy), speed)
    }
}

/// Starting velocity along `(dx, dy)` at `speed`.
pub fn initial_velocity(dx: i64, dy: i64, speed: i64) -> (r: Vec2)
    requires
        -DIRECTION_RANGE <= dx <= DIRECTION_RANGE,
        -DIRECTION_RANGE <= dy <= DIRECTION_RANGE,
        0 <= speed <= PARAM_LIMIT,
    ensures
        r@ == launch_velocity(dx as int, dy as int, speed as int),
        len2(r@) <= speed * speed,
        r.bounded(),
{
    if dx == 0 && dy == 0 {
        assert(len2((speed as int, 0int)) <= speed * speed) by (nonlinear_arith);
        return Vec2 { x: speed, y: 0 };
    }
    let (vx, vy) = scale_to_length(dx as i128, dy as i128, speed as i128);
    proof {
        lemma_scale_to_len((dx as int, dy as int), speed as int);
    }
    Vec2 { x: vx as i64, y: vy as i64 }
}

/// A random starting velocity: a random direction at a random speed between
/// one unit and `max_speed` inclusive, or exactly `max_speed` when that is
/// less than one unit. A draw whose rounding would leave it slower than one
/// unit is drawn again; after `DIRECTION_DRAWS` such draws the velocity
/// points along the x axis.
pub fn draw_velocity(max_speed: i64) -> (v: Vec2)
    requires
        0 <= max_speed <= PARAM_LIMIT,
    ensures
        len2(v@) <= max_speed * max_speed,
        max_speed >= UNIT ==> UNIT * UNIT <= len2(v@),
        v.bounded(),
{
    let mut tries: u32 = 0;
    while tries < DIRECTION_DRAWS
        invariant
            0 <= max_speed <= PARAM_LIMIT,
        decreases DIRECTION_DRAWS - tries,
    {
        let dx = random_in(-DIRECTION_RANGE, DIRECTION_RANGE + 1);
        let dy = random_in(-DIRECTION_RANGE, DIRECTION_RANGE + 1);
        let speed = if max_speed >= UNIT {
            random_in(UNIT, max_speed + 1)
        } else {
            max_speed
        };
        let v = initial_velocity(dx, dy, speed);
        assert(speed * speed <= max_speed * max_speed) by (nonlinear_arith)
            requires
                0 <= speed <= max_speed,
        ;
        if max_speed < UNIT || length_squared(v.x as i128, v.y as i128) >= (UNIT * UNIT) as u128 {
            return v;
        }
        tries += 1;
    }
    let speed = if max_speed >= UNIT {
        random_in(UNIT, max_speed + 1)
    } else {
        max_speed
    };
    assert(len2((speed as int, 0int)) == speed * speed) by (nonlinear_arith);
    assert(speed * speed <= max_speed * max_speed && (max_speed >= UNIT ==> UNIT * UNIT <= speed * speed))
        by (nonlinear_arith)
        requires
            0 <= speed <= max_speed,
            max_speed >= UNIT ==> UNIT <= speed,
    ;
    Vec2 { x: speed, y: 0 }
}

/// Adds up to `count` agents in `state`, each at a random point of the arena,
/// moving as `draw_velocity` gives. Stops early only when the store is full
/// or its handles run out; returns how many were added.
pub fn spawn_krill(swarm: &mut Swarm, count: usize, config: &FlockConfig, state: KrillState) -> (spawned: usize)
    requires
        old(swarm).wf(),
        config.wf(),
    ensures
        final(swarm).wf(),
        spawned <= count,
        final(swarm)@.len() == old(swarm)@.len() + spawned,
        final(swarm)@.take(old(swarm)@.len() as int) == old(swarm)@,
        final(swarm).next_handle() == old(swarm).next_handle() + spawned,
        spawned == count || final(swarm)@.len() == MAX_AGENTS || final(swarm).next_handle() == u64::MAX,
        forall|i: int|
            old(swarm)@.len() <= i < final(swarm)@.len() ==> {
                let b = #[trigger] final(swarm)@[i];
                &&& config.arena.left <= b.position.x < config.arena.right
                &&& config.arena.bottom <= b.position.y < config.arena.top
                &&& len2(b.velocity@) <= config.max_speed * config.max_speed
                &&& config.max_speed >= UNIT ==> UNIT * UNIT <= len2(b.velocity@)
                &&& b.state == state
            },
{
    let mut spawned: usize = 0;
    while spawned < count
        invariant
            swarm.wf(),
            config.wf(),
            spawned <= count,
            swarm@.len() == old(swarm)@.len() + spawned,
            swarm.next_handle() == old(swarm).next_handle() + spawned,
            swarm@.take(old(swarm)@.len() as int) == old(swarm)@,
            forall|i: int|
                old(swarm)@.len() <= i < swarm@.len() ==> {
                    let b = #[trigger] swarm@[i];
                    &&& config.arena.left <= b.position.x < config.arena.right
                    &&& config.arena.bottom <= b.position.y < config.arena.top
                    &&& len2(b.velocity@) <= config.max_speed * config.max_speed
                    &&& config.max_speed >= UNIT ==> UNIT * UNIT <= len2(b.velocity@)
                    &&& b.state == state
                },
        decreases count - spawned,
    {
        let x = random_in(config.arena.left, config.arena.right);
        let y = random_in(config.arena.bottom, config.arena.top);
        let v = draw_velocity(config.max_speed);
        let ghost before = swarm@;
        match swarm.spawn(Vec2 { x, y }, v, state) {
            Ok(_) => {
                assert(swarm@.take(old(swarm)@.len() as int) =~= before.take(old(swarm)@.len() as int));
                spawned += 1;
            },
            Err(e) => {
                assert(Vec2 { x, y }.bounded() && v.bounded());
                assert(e == SwarmError::Full || e == SwarmError::HandlesExhausted);
                proof {
                    swarm.lemma_wf();
                }
                return spawned;
            },
        }
    }
    spawned
}

} // verus!

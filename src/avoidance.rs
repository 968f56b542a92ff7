//! Pushes away from the predator and from the four walls of the arena.
use vstd::prelude::*;
use crate::config::{
    falloff_strength, square_param, strength, Arena, Falloff, FlockConfig, AVOID_LIMIT, PARAM_LIMIT,
};
use crate::vector::{
    abs, ceil_div, ceil_sqrt, ceil_sqrt_u128, dist2, distance_squared, div_round_up,
    lemma_ceil_sqrt_pos, lemma_scale_to_len, scale_to, scale_to_length, vadd, vsub, IVec, Vec2,
};

verus! {

/// One of the four walls.
#[derive(Clone, Copy, Debug, PartialEq, Eq, Structural)]
pub enum Obstacal {
    Floor,
    Ceiling,
    RightWall,
    LeftWall,
}

/// Distance from `p` to the wall, positive on the arena's side.
pub open spec fn signed_distance(o: Obstacal, arena: Arena, p: IVec) -> int {
    match o {
        Obstacal::Floor => p.1 - arena.bottom,
        Obstacal::Ceiling => arena.top - p.1,
        Obstacal::LeftWall => p.0 - arena.left,
        Obstacal::RightWall => arena.right - p.0,
    }
}

/// The wall's distance to `p`, never below `near_zero`.
pub open spec fn clamped_distance(o: Obstacal, p: IVec, c: FlockConfig) -> int {
    let d = signed_distance(o, c.arena, p);
    if d < c.near_zero {
        c.near_zero as int
    } else {
        d
    }
}

/// Strength of a push at distance `d`, whose square is `d2`, rounded up.
pub open spec fn falloff_push(strength: int, f: Falloff, d: int, d2: int) -> int {
    match f {
        Falloff::Linear => ceil_div(strength, d),
        Falloff::Square => ceil_div(strength, d2),
    }
}

/// A wall's push on an agent at `p`: straight into the arena, falling off
/// with distance as `obstacle_falloff` says, and zero beyond `obstacle_range`.
pub open spec fn obstacle_push(o: Obstacal, p: IVec, c: FlockConfig) -> IVec {
    let d = clamped_distance(o, p, c);
    if d < c.obstacle_range {
        let m = falloff_push(
            falloff_strength(c.obstacle_magnitude as int, c.obstacle_reference as int, c.obstacle_falloff),
            c.obstacle_falloff,
            d,
            d * d,
        );
        match o {
            Obstacal::Floor => (0int, m),
            Obstacal::Ceiling => (0int, -m),
            Obstacal::LeftWall => (m, 0int),
            Obstacal::RightWall => (-m, 0int),
        }
    } else {
        (0int, 0int)
    }
}

/// The four walls' pushes, summed.
pub open spec fn obstacle_avoidance(p: IVec, c: FlockConfig) -> IVec {
    vadd(
        vadd(obstacle_push(Obstacal::Floor, p, c), obstacle_push(Obstacal::Ceiling, p, c)),
        vadd(obstacle_push(Obstacal::RightWall, p, c), obstacle_push(Obstacal::LeftWall, p, c)),
    )
}

/// The predator's push on an agent at `p`: directly away from it, falling
/// off with distance as `predator_falloff` says, and zero when there is no predator,
/// when it is out of range, or when it is coincident with the agent.
pub open spec fn predator_push(p: IVec, predator: Option<Vec2>, c: FlockConfig) -> IVec {
    match predator {
        None => (0int, 0int),
        Some(q) => {
            let d2 = dist2(p, q@);
            if c.near_zero * c.near_zero < d2 && d2 < c.predator_range * c.predator_range {
                scale_to(
                    vsub(p, q@),
                    falloff_push(
                        falloff_strength(
                            c.predator_magnitude as int,
                            c.predator_reference as int,
                            c.predator_falloff,
                        ),
                        c.predator_falloff,
                        ceil_sqrt(d2),
                        d2,
                    ),
                )
            } else {
                (0int, 0int)
            }
        },
    }
}

proof fn lemma_ceil_div_le(a: int, b: int)
    requires
        a >= 0,
        b >= 1,
    ensures
        0 <= ceil_div(a, b) <= a,
        a > 0 ==> ceil_div(a, b) >= 1,
{
    assert(0 <= (a + b - 1) / b <= a) by (nonlinear_arith)
        requires
            a >= 0,
            b >= 1,
    ;
    if a > 0 {
        assert((a + b - 1) / b >= 1) by (nonlinear_arith)
            requires
                a >= 1,
                b >= 1,
        ;
    }
}

impl Obstacal {
    /// Distance from `position` to this wall, positive on the arena's side.
    pub fn signed_distance(&self, arena: &Arena, position: Vec2) -> (r: i64)
        requires
            arena.wf(),
            position.bounded(),
        ensures
            r == signed_distance(*self, *arena, position@),
    {
        match self {
            Obstacal::Floor => position.y - arena.bottom,
            Obstacal::Ceiling => arena.top - position.y,
            Obstacal::LeftWall => position.x - arena.left,
            Obstacal::RightWall => arena.right - position.x,
        }
    }

    /// This wall's push on an agent at `position`.
    pub fn push_on(&self, position: Vec2, config: &FlockConfig) -> (r: Vec2)
        requires
            config.wf(),
            position.bounded(),
        ensures
            r@ == obstacle_push(*self, position@, *config),
            abs(r.x as int) <= AVOID_LIMIT,
            abs(r.y as int) <= AVOID_LIMIT,
    {
        let sd = self.signed_distance(&config.arena, position);
        let d = if sd < config.near_zero {
            config.near_zero
        } else {
            sd
        };
        if d < config.obstacle_range {
            let s = strength(config.obstacle_magnitude, config.obstacle_reference, config.obstacle_falloff);
            assert(1 <= d * d <= PARAM_LIMIT * PARAM_LIMIT) by (nonlinear_arith)
                requires
                    1 <= d <= PARAM_LIMIT,
            ;
            let div = match config.obstacle_falloff {
                Falloff::Linear => d as i128,
                Falloff::Square => d as i128 * d as i128,
            };
            proof {
                lemma_ceil_div_le(s as int, div as int);
            }
            let m = div_round_up(s, div) as i64;
            match self {
                Obstacal::Floor => Vec2 { x: 0, y: m },
                Obstacal::Ceiling => Vec2 { x: 0, y: -m },
                Obstacal::LeftWall => Vec2 { x: m, y: 0 },
                Obstacal::RightWall => Vec2 { x: -m, y: 0 },
            }
        } else {
            Vec2::zero()
        }
    }
}

/// Sum of the four walls' pushes on an agent at `position`.
pub fn krill_avoid_obstical(position: Vec2, config: &FlockConfig) -> (r: Vec2)
    requires
        config.wf(),
        position.bounded(),
    ensures
        r@ == obstacle_avoidance(position@, *config),
        abs(r.x as int) <= 2 * AVOID_LIMIT,
        abs(r.y as int) <= 2 * AVOID_LIMIT,
{
    let f = Obstacal::Floor.push_on(position, config);
    let c = Obstacal::Ceiling.push_on(position, config);
    let rw = Obstacal::RightWall.push_on(position, config);
    let lw = Obstacal::LeftWall.push_on(position, config);
    Vec2 { x: (f.x + c.x) + (rw.x + lw.x), y: (f.y + c.y) + (rw.y + lw.y) }
}

/// The predator's push on an agent at `position`; zero without a predator.
pub fn krill_avoid_player(position: Vec2, predator: Option<Vec2>, config: &FlockConfig) -> (r: Vec2)
    requires
        config.wf(),
        position.bounded(),
        predator matches Some(q) ==> q.bounded(),
    ensures
        r@ == predator_push(position@, predator, *config),
        abs(r.x as int) <= AVOID_LIMIT,
        abs(r.y as int) <= AVOID_LIMIT,
{
    match predator {
        None => Vec2::zero(),
        Some(q) => {
            let d2 = distance_squared(position, q);
            let e2 = square_param(config.near_zero);
            let r2 = square_param(config.predator_range);
            if e2 < d2 && d2 < r2 {
                let s = strength(config.predator_magnitude, config.predator_reference, config.predator_falloff);
                assert(e2 >= 1) by (nonlinear_arith)
                    requires
                        e2 == config.near_zero * config.near_zero,
                        config.near_zero >= 1,
                ;
                let div = match config.predator_falloff {
                    Falloff::Linear => {
                        let c = ceil_sqrt_u128(d2 as u128);
                        proof {
                            lemma_ceil_sqrt_pos(d2 as int);
                        }
                        c as i128
                    },
                    Falloff::Square => d2,
                };
                proof {
                    lemma_ceil_div_le(s as int, div as int);
                }
                let m = div_round_up(s, div);
                let dx = position.x as i128 - q.x as i128;
                let dy = position.y as i128 - q.y as i128;
                let (px, py) = scale_to_length(dx, dy, m);
                proof {
                    lemma_scale_to_len((dx as int, dy as int), m as int);
                }
                Vec2 { x: px as i64, y: py as i64 }
            } else {
                Vec2::zero()
            }
        },
    }
}

} // verus!

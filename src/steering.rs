//! Neighbour query and the three steering forces, each a function of one
//! agent and a read-only snapshot of the whole swarm.
use vstd::prelude::*;
use crate::agent::{Align, Boid, Cohesion, Seperation};
use crate::config::{square_param, FlockConfig, PARAM_LIMIT};
use crate::vector::{
    clamp_len, clamp_length_max, dist2, distance_squared, div_toward_zero, lemma_clamp_len, lemma_len2_nonneg,
    lemma_scale_to_len, lemma_trunc_div_bound, len2, scale_to, scale_to_length, trunc_div, vsub,
    IVec, Vec2, WIDE_LIMIT,
};

verus! {

/// Most agents a swarm holds.
pub const MAX_AGENTS: usize = 4096;

/// Fixed-point gain of the inverse-distance separation push.
pub const SEPARATION_GAIN: i64 = 0x10_0000;

/// A neighbour count and a vector sum.
pub type Tally = (int, int, int);

/// Sum of `f` over the snapshot.
pub open spec fn tally(s: Seq<Boid>, f: spec_fn(Boid) -> Tally) -> Tally
    decreases s.len(),
{
    if s.len() == 0 {
        (0int, 0int, 0int)
    } else {
        let t = tally(s.drop_last(), f);
        let c = f(s.last());
        (t.0 + c.0, t.1 + c.1, t.2 + c.2)
    }
}

/// `b` is another agent strictly within distance `r` of `a`.
pub open spec fn is_neighbor(a: Boid, b: Boid, r: int) -> bool {
    b.id != a.id && dist2(a.position@, b.position@) < r * r
}

/// `b` is another agent within distance `r` of `a` and not coincident with it.
pub open spec fn is_separation_neighbor(a: Boid, b: Boid, r: int, eps: int) -> bool {
    &&& b.id != a.id
    &&& eps * eps < dist2(a.position@, b.position@)
    &&& dist2(a.position@, b.position@) < r * r
}

pub open spec fn align_term(a: Boid, r: int) -> spec_fn(Boid) -> Tally {
    |b: Boid|
        if is_neighbor(a, b, r) {
            (1int, b.velocity.x as int, b.velocity.y as int)
        } else {
            (0int, 0int, 0int)
        }
}

/// The push from `b` on `a`: the offset from `b` to `a`, divided by the
/// squared distance, so that it falls off inversely with distance.
pub open spec fn separation_push(a: Boid, b: Boid) -> IVec {
    let d = vsub(a.position@, b.position@);
    (trunc_div(d.0 * SEPARATION_GAIN, len2(d)), trunc_div(d.1 * SEPARATION_GAIN, len2(d)))
}

pub open spec fn separation_term(a: Boid, r: int, eps: int) -> spec_fn(Boid) -> Tally {
    |b: Boid|
        if is_separation_neighbor(a, b, r, eps) {
            (1int, separation_push(a, b).0, separation_push(a, b).1)
        } else {
            (0int, 0int, 0int)
        }
}

pub open spec fn cohesion_term(a: Boid, r: int) -> spec_fn(Boid) -> Tally {
    |b: Boid|
        if is_neighbor(a, b, r) {
            (1int, b.position.x as int, b.position.y as int)
        } else {
            (0int, 0int, 0int)
        }
}

/// The correction that turns `velocity` toward `target` at cruising speed,
/// clamped to `max_force`; zero without neighbours or without a direction.
pub open spec fn steer(n: int, target: IVec, velocity: IVec, max_speed: int, max_force: int) -> IVec {
    if n == 0 || target == (0int, 0int) {
        (0int, 0int)
    } else {
        clamp_len(vsub(scale_to(target, max_speed), velocity), max_force)
    }
}

/// Steers toward the mean heading of the neighbours. The sum of their
/// velocities has the direction of their mean.
pub open spec fn align_force(a: Boid, s: Seq<Boid>, c: FlockConfig) -> IVec {
    let t = tally(s, align_term(a, c.perception_radius as int));
    steer(t.0, (t.1, t.2), a.velocity@, c.max_speed as int, c.max_force as int)
}

/// Steers away from close neighbours, the closest weighing most.
pub open spec fn separation_force(a: Boid, s: Seq<Boid>, c: FlockConfig) -> IVec {
    let t = tally(s, separation_term(a, c.separation_radius as int, c.near_zero as int));
    steer(t.0, (t.1, t.2), a.velocity@, c.max_speed as int, c.max_force as int)
}

/// Steers toward the centroid of the neighbours: `n` times the offset to the
/// centroid is the sum of positions less `n` times the agent's own.
pub open spec fn cohesion_force(a: Boid, s: Seq<Boid>, c: FlockConfig) -> IVec {
    let t = tally(s, cohesion_term(a, c.cohesion_radius as int));
    steer(
        t.0,
        (t.1 - t.0 * a.position.x, t.2 - t.0 * a.position.y),
        a.velocity@,
        c.max_speed as int,
        c.max_force as int,
    )
}

/// Every agent's position and velocity lie in the stored range.
pub open spec fn snapshot_ok(s: Seq<Boid>) -> bool {
    &&& s.len() <= MAX_AGENTS
    &&& forall|i: int| 0 <= i < s.len() ==> #[trigger] s[i].position.bounded() && s[i].velocity.bounded()
}

/// Ids of the agents within `r` of `a`, in snapshot order.
pub open spec fn neighbor_ids(a: Boid, s: Seq<Boid>, r: int) -> Seq<u64>
    decreases s.len(),
{
    if s.len() == 0 {
        Seq::empty()
    } else {
        let rest = neighbor_ids(a, s.drop_last(), r);
        if is_neighbor(a, s.last(), r) {
            rest.push(s.last().id)
        } else {
            rest
        }
    }
}

pub proof fn lemma_tally_take(s: Seq<Boid>, f: spec_fn(Boid) -> Tally, j: int)
    requires
        0 <= j < s.len(),
    ensures
        tally(s.take(j + 1), f) == ({
            let t = tally(s.take(j), f);
            let c = f(s[j]);
            (t.0 + c.0, t.1 + c.1, t.2 + c.2)
        }),
{
    assert(s.take(j + 1).drop_last() =~= s.take(j));
}

/// The ids of the other agents strictly within `radius` of `agent`.
pub fn neighbors(agent: &Boid, snapshot: &Vec<Boid>, radius: i64) -> (r: Vec<u64>)
    requires
        agent.position.bounded(),
        snapshot_ok(snapshot@),
        0 <= radius <= PARAM_LIMIT,
    ensures
        r@ == neighbor_ids(*agent, snapshot@, radius as int),
{
    let r2 = square_param(radius);
    let mut out: Vec<u64> = Vec::new();
    let mut j: usize = 0;
    while j < snapshot.len()
        invariant
            j <= snapshot.len(),
            snapshot_ok(snapshot@),
            agent.position.bounded(),
            r2 == radius * radius,
            out@ == neighbor_ids(*agent, snapshot@.take(j as int), radius as int),
        decreases snapshot.len() - j,
    {
        let b = &snapshot[j];
        assert(snapshot@.take(j + 1).drop_last() =~= snapshot@.take(j as int));
        assert(snapshot@[j as int].position.bounded());
        let d2 = distance_squared(agent.position, b.position);
        if b.id != agent.id && d2 < r2 {
            out.push(b.id);
        }
        j += 1;
    }
    assert(snapshot@.take(snapshot.len() as int) =~= snapshot@);
    out
}

/// The steering correction for a neighbour count and a target direction.
pub fn steer_toward(n: i128, tx: i128, ty: i128, velocity: Vec2, max_speed: i64, max_force: i64) -> (r: Vec2)
    requires
        n >= 0,
        -WIDE_LIMIT <= tx <= WIDE_LIMIT,
        -WIDE_LIMIT <= ty <= WIDE_LIMIT,
        velocity.bounded(),
        0 <= max_speed <= PARAM_LIMIT,
        0 <= max_force <= PARAM_LIMIT,
    ensures
        r@ == steer(n as int, (tx as int, ty as int), velocity@, max_speed as int, max_force as int),
        len2(r@) <= max_force * max_force,
        r.bounded(),
{
    if n == 0 || (tx == 0 && ty == 0) {
        assert(max_force * max_force >= 0) by (nonlinear_arith);
        proof {
            lemma_len2_nonneg((0int, 0int));
        }
        return Vec2::zero();
    }
    let (sx, sy) = scale_to_length(tx, ty, max_speed as i128);
    proof {
        lemma_scale_to_len((tx as int, ty as int), max_speed as int);
    }
    let dx = sx - velocity.x as i128;
    let dy = sy - velocity.y as i128;
    let (cx, cy) = clamp_length_max(dx, dy, max_force as i128);
    proof {
        lemma_clamp_len((dx as int, dy as int), max_force as int);
    }
    Vec2 { x: cx as i64, y: cy as i64 }
}

/// Alignment force of `agent` against the pre-tick snapshot.
pub fn boid_align(agent: &Boid, snapshot: &Vec<Boid>, config: &FlockConfig) -> (r: Align)
    requires
        config.wf(),
        agent.position.bounded(),
        agent.velocity.bounded(),
        snapshot_ok(snapshot@),
    ensures
        r.vec@ == align_force(*agent, snapshot@, *config),
        len2(r.vec@) <= config.max_force * config.max_force,
        r.vec.bounded(),
{
    let ghost f = align_term(*agent, config.perception_radius as int);
    let r2 = square_param(config.perception_radius);
    let mut n: i128 = 0;
    let mut sx: i128 = 0;
    let mut sy: i128 = 0;
    let mut j: usize = 0;
    while j < snapshot.len()
        invariant
            j <= snapshot.len(),
            snapshot_ok(snapshot@),
            agent.position.bounded(),
            r2 == config.perception_radius * config.perception_radius,
            f == align_term(*agent, config.perception_radius as int),
            (n as int, sx as int, sy as int) == tally(snapshot@.take(j as int), f),
            0 <= n <= j,
            -(j as int) * 0x1000_0000 <= sx <= (j as int) * 0x1000_0000,
            -(j as int) * 0x1000_0000 <= sy <= (j as int) * 0x1000_0000,
        decreases snapshot.len() - j,
    {
        let b = &snapshot[j];
        proof {
            lemma_tally_take(snapshot@, f, j as int);
        }
        assert(snapshot@[j as int].position.bounded() && snapshot@[j as int].velocity.bounded());
        let d2 = distance_squared(agent.position, b.position);
        if b.id != agent.id && d2 < r2 {
            n = n + 1;
            sx = sx + b.velocity.x as i128;
            sy = sy + b.velocity.y as i128;
        }
        j += 1;
    }
    assert(snapshot@.take(snapshot.len() as int) =~= snapshot@);
    let v = steer_toward(n, sx, sy, agent.velocity, config.max_speed, config.max_force);
    Align { vec: v }
}

/// Separation force of `agent` against the pre-tick snapshot.
pub fn boid_seperation(agent: &Boid, snapshot: &Vec<Boid>, config: &FlockConfig) -> (r: Seperation)
    requires
        config.wf(),
        agent.position.bounded(),
        agent.velocity.bounded(),
        snapshot_ok(snapshot@),
    ensures
        r.vec@ == separation_force(*agent, snapshot@, *config),
        len2(r.vec@) <= config.max_force * config.max_force,
        r.vec.bounded(),
{
    let ghost f = separation_term(*agent, config.separation_radius as int, config.near_zero as int);
    let r2 = square_param(config.separation_radius);
    let e2 = square_param(config.near_zero);
    let mut n: i128 = 0;
    let mut sx: i128 = 0;
    let mut sy: i128 = 0;
    let mut j: usize = 0;
    while j < snapshot.len()
        invariant
            j <= snapshot.len(),
            snapshot_ok(snapshot@),
            agent.position.bounded(),
            r2 == config.separation_radius * config.separation_radius,
            e2 == config.near_zero * config.near_zero,
            f == separation_term(*agent, config.separation_radius as int, config.near_zero as int),
            (n as int, sx as int, sy as int) == tally(snapshot@.take(j as int), f),
            0 <= n <= j,
            -(j as int) * 0x2_0000_0000_0000 <= sx <= (j as int) * 0x2_0000_0000_0000,
            -(j as int) * 0x2_0000_0000_0000 <= sy <= (j as int) * 0x2_0000_0000_0000,
        decreases snapshot.len() - j,
    {
        let b = &snapshot[j];
        proof {
            lemma_tally_take(snapshot@, f, j as int);
        }
        assert(snapshot@[j as int].position.bounded() && snapshot@[j as int].velocity.bounded());
        let d2 = distance_squared(agent.position, b.position);
        if b.id != agent.id && e2 < d2 && d2 < r2 {
            let dx = agent.position.x as i128 - b.position.x as i128;
            let dy = agent.position.y as i128 - b.position.y as i128;
            assert(e2 >= 0) by (nonlinear_arith)
                requires
                    e2 == config.near_zero * config.near_zero,
            ;
            proof {
                lemma_trunc_div_bound(dx * SEPARATION_GAIN, d2 as int);
                lemma_trunc_div_bound(dy * SEPARATION_GAIN, d2 as int);
            }
            let px = div_toward_zero(dx * SEPARATION_GAIN as i128, d2);
            let py = div_toward_zero(dy * SEPARATION_GAIN as i128, d2);
            n = n + 1;
            sx = sx + px;
            sy = sy + py;
        }
        j += 1;
    }
    assert(snapshot@.take(snapshot.len() as int) =~= snapshot@);
    let v = steer_toward(n, sx, sy, agent.velocity, config.max_speed, config.max_force);
    Seperation { vec: v }
}

/// Cohesion force of `agent` against the pre-tick snapshot.
pub fn boid_cohesion(agent: &Boid, snapshot: &Vec<Boid>, config: &FlockConfig) -> (r: Cohesion)
    requires
        config.wf(),
        agent.position.bounded(),
        agent.velocity.bounded(),
        snapshot_ok(snapshot@),
    ensures
        r.vec@ == cohesion_force(*agent, snapshot@, *config),
        len2(r.vec@) <= config.max_force * config.max_force,
        r.vec.bounded(),
{
    let ghost f = cohesion_term(*agent, config.cohesion_radius as int);
    let r2 = square_param(config.cohesion_radius);
    let mut n: i128 = 0;
    let mut sx: i128 = 0;
    let mut sy: i128 = 0;
    let mut j: usize = 0;
    while j < snapshot.len()
        invariant
            j <= snapshot.len(),
            snapshot_ok(snapshot@),
            agent.position.bounded(),
            r2 == config.cohesion_radius * config.cohesion_radius,
            f == cohesion_term(*agent, config.cohesion_radius as int),
            (n as int, sx as int, sy as int) == tally(snapshot@.take(j as int), f),
            0 <= n <= j,
            -(j as int) * 0x1000_0000 <= sx <= (j as int) * 0x1000_0000,
            -(j as int) * 0x1000_0000 <= sy <= (j as int) * 0x1000_0000,
        decreases snapshot.len() - j,
    {
        let b = &snapshot[j];
        proof {
            lemma_tally_take(snapshot@, f, j as int);
        }
        assert(snapshot@[j as int].position.bounded() && snapshot@[j as int].velocity.bounded());
        let d2 = distance_squared(agent.position, b.position);
        if b.id != agent.id && d2 < r2 {
            n = n + 1;
            sx = sx + b.position.x as i128;
            sy = sy + b.position.y as i128;
        }
        j += 1;
    }
    assert(snapshot@.take(snapshot.len() as int) =~= snapshot@);
    let ax = agent.position.x as i128;
    let ay = agent.position.y as i128;
    assert(-0x100_0000_0000 <= n * ax <= 0x100_0000_0000) by (nonlinear_arith)
        requires
            0 <= n <= 4096,
            -0x1000_0000 <= ax <= 0x1000_0000,
    ;
    assert(-0x100_0000_0000 <= n * ay <= 0x100_0000_0000) by (nonlinear_arith)
        requires
            0 <= n <= 4096,
            -0x1000_0000 <= ay <= 0x1000_0000,
    ;
    let v = steer_toward(n, sx - n * ax, sy - n * ay, agent.velocity, config.max_speed, config.max_force);
    Cohesion { vec: v }
}

} // verus!

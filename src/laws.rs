//! Properties that hold of the engine as a whole, proved over the spec
//! functions that the executable code is verified against.
use vstd::prelude::*;
use vstd::seq_lib::{to_multiset_build, to_multiset_contains, to_multiset_len, to_multiset_remove};
use crate::agent::{decay_roll, decay_tint, Boid, DecayConfig, KrillState, INVERTED_ROLL};
use crate::avoidance::{obstacle_push, signed_distance, Obstacal};
use crate::config::FlockConfig;
use crate::steering::{
    align_force, align_term, cohesion_force, cohesion_term, is_neighbor, separation_force,
    separation_term, snapshot_ok, steer, tally, Tally,
};
use crate::swarm::stepped;
use crate::vector::{
    ceil_div, dist2, lemma_clamp_len, lemma_len2_nonneg, lemma_scale_to_len,
    lemma_trunc_div_bound, len2, mirror, vsub, IVec, Vec2,
};

verus! {

/// `v` reflected across the vertical axis.
pub open spec fn mirror_vec(v: Vec2) -> Vec2 {
    Vec2 { x: (-v.x) as i64, y: v.y }
}

/// An agent reflected across the vertical axis.
pub open spec fn mirror_boid(b: Boid) -> Boid {
    Boid {
        position: mirror_vec(b.position),
        velocity: mirror_vec(b.velocity),
        heading: mirror_vec(b.heading),
        ..b
    }
}

pub open spec fn mirror_tally(t: Tally) -> Tally {
    (t.0, -t.1, t.2)
}

proof fn lemma_tally_zero(s: Seq<Boid>, f: spec_fn(Boid) -> Tally)
    requires
        forall|i: int| 0 <= i < s.len() ==> f(#[trigger] s[i]) == (0int, 0int, 0int),
    ensures
        tally(s, f) == (0int, 0int, 0int),
    decreases s.len(),
{
    if s.len() > 0 {
        assert forall|i: int| 0 <= i < s.drop_last().len() implies f(#[trigger] s.drop_last()[i]) == (
        0int, 0int, 0int) by {
            assert(s.drop_last()[i] == s[i]);
        }
        lemma_tally_zero(s.drop_last(), f);
        assert(f(s[s.len() - 1]) == (0int, 0int, 0int));
    }
}

proof fn lemma_tally_remove(t: Seq<Boid>, j: int, f: spec_fn(Boid) -> Tally)
    requires
        0 <= j < t.len(),
    ensures
        tally(t, f) == ({
            let r = tally(t.remove(j), f);
            let c = f(t[j]);
            (r.0 + c.0, r.1 + c.1, r.2 + c.2)
        }),
    decreases t.len(),
{
    if j == t.len() - 1 {
        assert(t.remove(j) =~= t.drop_last());
    } else {
        assert(t.remove(j).drop_last() =~= t.drop_last().remove(j));
        assert(t.remove(j).last() == t.last());
        lemma_tally_remove(t.drop_last(), j, f);
        assert(t.drop_last()[j] == t[j]);
    }
}

/// A sum over the snapshot does not depend on the order of its agents.
pub proof fn lemma_tally_permutation(s: Seq<Boid>, t: Seq<Boid>, f: spec_fn(Boid) -> Tally)
    requires
        s.to_multiset() == t.to_multiset(),
    ensures
        tally(s, f) == tally(t, f),
    decreases s.len(),
{
    to_multiset_len(s);
    to_multiset_len(t);
    if s.len() > 0 {
        let x = s.last();
        let rest = s.drop_last();
        assert(rest.push(x) =~= s);
        to_multiset_build(rest, x);
        to_multiset_contains(s, x);
        assert(s.contains(x)) by {
            assert(s[s.len() - 1] == x);
        }
        to_multiset_contains(t, x);
        let j = choose|j: int| 0 <= j < t.len() && t[j] == x;
        to_multiset_remove(t, j);
        assert(rest.to_multiset() =~= rest.to_multiset().insert(x).remove(x));
        lemma_tally_permutation(rest, t.remove(j), f);
        lemma_tally_remove(t, j, f);
    }
}

/// Forces depend on the snapshot's agents, not on the order in which they
/// are stored or visited.
pub proof fn lemma_steering_order_independent(a: Boid, s: Seq<Boid>, t: Seq<Boid>, c: FlockConfig)
    requires
        s.to_multiset() == t.to_multiset(),
    ensures
        align_force(a, s, c) == align_force(a, t, c),
        separation_force(a, s, c) == separation_force(a, t, c),
        cohesion_force(a, s, c) == cohesion_force(a, t, c),
{
    lemma_tally_permutation(s, t, align_term(a, c.perception_radius as int));
    lemma_tally_permutation(s, t, separation_term(a, c.separation_radius as int, c.near_zero as int));
    lemma_tally_permutation(s, t, cohesion_term(a, c.cohesion_radius as int));
}

/// A tick's outcome for an agent is the same whatever the order of the
/// pre-tick snapshot.
pub proof fn lemma_tick_order_independent(
    a: Boid,
    b: Boid,
    s: Seq<Boid>,
    t: Seq<Boid>,
    c: FlockConfig,
    predator: Option<Vec2>,
    dt: int,
)
    requires
        s.to_multiset() == t.to_multiset(),
        stepped(a, b, s, c, predator, dt),
    ensures
        stepped(a, b, t, c, predator, dt),
{
    lemma_steering_order_independent(a, s, t, c);
}

/// An agent with no other agent within the perception radius feels no
/// alignment and no separation; with none within the cohesion radius, no
/// cohesion.
pub proof fn lemma_isolated_agent_unsteered(a: Boid, s: Seq<Boid>, c: FlockConfig)
    requires
        c.wf(),
        forall|i: int| 0 <= i < s.len() ==> !is_neighbor(a, #[trigger] s[i], c.perception_radius as int),
        forall|i: int| 0 <= i < s.len() ==> !is_neighbor(a, #[trigger] s[i], c.cohesion_radius as int),
    ensures
        align_force(a, s, c) == (0int, 0int),
        separation_force(a, s, c) == (0int, 0int),
        cohesion_force(a, s, c) == (0int, 0int),
{
    let sr = c.separation_radius as int;
    let pr = c.perception_radius as int;
    assert(sr * sr <= pr * pr) by (nonlinear_arith)
        requires
            0 <= sr <= pr,
    ;
    lemma_tally_zero(s, align_term(a, pr));
    lemma_tally_zero(s, separation_term(a, sr, c.near_zero as int));
    lemma_tally_zero(s, cohesion_term(a, c.cohesion_radius as int));
}

/// No steering force is longer than `max_force`.
pub proof fn lemma_steering_bounded(a: Boid, s: Seq<Boid>, c: FlockConfig)
    requires
        c.wf(),
    ensures
        len2(align_force(a, s, c)) <= c.max_force * c.max_force,
        len2(separation_force(a, s, c)) <= c.max_force * c.max_force,
        len2(cohesion_force(a, s, c)) <= c.max_force * c.max_force,
{
    let m = c.max_force as int;
    lemma_len2_nonneg((0int, 0int));
    assert(m * m >= 0) by (nonlinear_arith);
    let ta = tally(s, align_term(a, c.perception_radius as int));
    let ts = tally(s, separation_term(a, c.separation_radius as int, c.near_zero as int));
    let tc = tally(s, cohesion_term(a, c.cohesion_radius as int));
    let ms = c.max_speed as int;
    lemma_clamp_len(vsub(crate::vector::scale_to((ta.1, ta.2), ms), a.velocity@), m);
    lemma_clamp_len(vsub(crate::vector::scale_to((ts.1, ts.2), ms), a.velocity@), m);
    lemma_clamp_len(
        vsub(
            crate::vector::scale_to((tc.1 - tc.0 * a.position.x, tc.2 - tc.0 * a.position.y), ms),
            a.velocity@,
        ),
        m,
    );
}

/// After a tick a moving agent is no faster than `max_speed`.
pub proof fn lemma_tick_speed_bounded(
    a: Boid,
    b: Boid,
    s: Seq<Boid>,
    c: FlockConfig,
    predator: Option<Vec2>,
    dt: int,
)
    requires
        c.wf(),
        a.state is Moving,
        stepped(a, b, s, c, predator, dt),
    ensures
        len2(b.velocity@) <= c.max_speed * c.max_speed,
{
    let acc = crate::swarm::moving_acceleration(a, s, c, predator);
    lemma_clamp_len(
        (
            a.velocity@.0 + crate::vector::trunc_div(acc.0 * dt, 1000),
            a.velocity@.1 + crate::vector::trunc_div(acc.1 * dt, 1000),
        ),
        c.max_speed as int,
    );
}

proof fn lemma_mirror_dist(p: IVec, q: IVec)
    ensures
        dist2(mirror(p), mirror(q)) == dist2(p, q),
{
    assert((-p.0 - -q.0) * (-p.0 - -q.0) == (p.0 - q.0) * (p.0 - q.0)) by (nonlinear_arith);
}

proof fn lemma_tally_mirror(s: Seq<Boid>, f: spec_fn(Boid) -> Tally, g: spec_fn(Boid) -> Tally)
    requires
        forall|i: int| 0 <= i < s.len() ==> g(mirror_boid(#[trigger] s[i])) == mirror_tally(f(s[i])),
    ensures
        tally(s.map_values(|b: Boid| mirror_boid(b)), g) == mirror_tally(tally(s, f)),
    decreases s.len(),
{
    let m = s.map_values(|b: Boid| mirror_boid(b));
    if s.len() > 0 {
        assert(m.drop_last() =~= s.drop_last().map_values(|b: Boid| mirror_boid(b)));
        assert forall|i: int| 0 <= i < s.drop_last().len() implies g(
            mirror_boid(#[trigger] s.drop_last()[i]),
        ) == mirror_tally(f(s.drop_last()[i])) by {
            assert(s.drop_last()[i] == s[i]);
        }
        lemma_tally_mirror(s.drop_last(), f, g);
        assert(m.last() == mirror_boid(s.last()));
        assert(g(mirror_boid(s[s.len() - 1])) == mirror_tally(f(s[s.len() - 1])));
    }
}

proof fn lemma_steer_mirror(n: int, target: IVec, velocity: IVec, ms: int, mf: int)
    requires
        ms >= 0,
        mf >= 0,
    ensures
        steer(n, mirror(target), mirror(velocity), ms, mf) == mirror(steer(n, target, velocity, ms, mf)),
{
    lemma_scale_to_len(target, ms);
    let d = vsub(crate::vector::scale_to(target, ms), velocity);
    lemma_clamp_len(d, mf);
    assert(vsub(crate::vector::scale_to(mirror(target), ms), mirror(velocity)) == mirror(d));
}

/// Mirroring a scenario across the vertical axis mirrors every steering force.
pub proof fn lemma_steering_mirror(a: Boid, s: Seq<Boid>, c: FlockConfig)
    requires
        c.wf(),
        a.position.bounded(),
        a.velocity.bounded(),
        snapshot_ok(s),
    ensures
        align_force(mirror_boid(a), s.map_values(|b: Boid| mirror_boid(b)), c) == mirror(
            align_force(a, s, c),
        ),
        separation_force(mirror_boid(a), s.map_values(|b: Boid| mirror_boid(b)), c) == mirror(
            separation_force(a, s, c),
        ),
        cohesion_force(mirror_boid(a), s.map_values(|b: Boid| mirror_boid(b)), c) == mirror(
            cohesion_force(a, s, c),
        ),
{
    let ma = mirror_boid(a);
    let pr = c.perception_radius as int;
    let sr = c.separation_radius as int;
    let cr = c.cohesion_radius as int;
    let eps = c.near_zero as int;
    assert forall|i: int| 0 <= i < s.len() implies (#[trigger] s[i]).position.bounded()
        && s[i].velocity.bounded() by {
        assert(s[i].position.bounded());
    }
    assert forall|i: int| 0 <= i < s.len() implies align_term(ma, pr)(mirror_boid(#[trigger] s[i]))
        == mirror_tally(align_term(a, pr)(s[i])) by {
        assert(s[i].position.bounded() && s[i].velocity.bounded());
        lemma_mirror_dist(a.position@, s[i].position@);
    }
    assert forall|i: int| 0 <= i < s.len() implies cohesion_term(ma, cr)(mirror_boid(#[trigger] s[i]))
        == mirror_tally(cohesion_term(a, cr)(s[i])) by {
        assert(s[i].position.bounded() && s[i].velocity.bounded());
        lemma_mirror_dist(a.position@, s[i].position@);
    }
    assert forall|i: int| 0 <= i < s.len() implies separation_term(ma, sr, eps)(
        mirror_boid(#[trigger] s[i]),
    ) == mirror_tally(separation_term(a, sr, eps)(s[i])) by {
        let b = s[i];
        assert(b.position.bounded() && b.velocity.bounded());
        lemma_mirror_dist(a.position@, b.position@);
        let d = vsub(a.position@, b.position@);
        let k = crate::steering::SEPARATION_GAIN as int;
        assert((-d.0) * k == -(d.0 * k)) by (nonlinear_arith);
        assert(len2(mirror(d)) == len2(d)) by (nonlinear_arith);
        if crate::steering::is_separation_neighbor(a, b, sr, eps) {
            assert(eps * eps >= 0) by (nonlinear_arith);
            lemma_trunc_div_bound(d.0 * k, len2(d));
        }
    }
    lemma_tally_mirror(s, align_term(a, pr), align_term(ma, pr));
    lemma_tally_mirror(s, separation_term(a, sr, eps), separation_term(ma, sr, eps));
    lemma_tally_mirror(s, cohesion_term(a, cr), cohesion_term(ma, cr));
    let ms = c.max_speed as int;
    let mf = c.max_force as int;
    let ta = tally(s, align_term(a, pr));
    lemma_steer_mirror(ta.0, (ta.1, ta.2), a.velocity@, ms, mf);
    let ts = tally(s, separation_term(a, sr, eps));
    lemma_steer_mirror(ts.0, (ts.1, ts.2), a.velocity@, ms, mf);
    let tc = tally(s, cohesion_term(a, cr));
    assert(tc.0 * (-a.position.x) == -(tc.0 * a.position.x)) by (nonlinear_arith);
    lemma_steer_mirror(tc.0, (tc.1 - tc.0 * a.position.x, tc.2 - tc.0 * a.position.y), a.velocity@, ms, mf);
}

/// A wall within range pushes an agent straight back into the arena; a wall
/// out of range does not push at all.
pub proof fn lemma_wall_pushes_inward(o: Obstacal, p: IVec, c: FlockConfig)
    requires
        c.wf(),
        c.obstacle_magnitude > 0,
        c.obstacle_reference > 0,
        c.near_zero < c.obstacle_range,
    ensures
        signed_distance(o, c.arena, p) < c.obstacle_range ==> match o {
            Obstacal::Floor => obstacle_push(o, p, c).0 == 0 && obstacle_push(o, p, c).1 > 0,
            Obstacal::Ceiling => obstacle_push(o, p, c).0 == 0 && obstacle_push(o, p, c).1 < 0,
            Obstacal::LeftWall => obstacle_push(o, p, c).0 > 0 && obstacle_push(o, p, c).1 == 0,
            Obstacal::RightWall => obstacle_push(o, p, c).0 < 0 && obstacle_push(o, p, c).1 == 0,
        },
        signed_distance(o, c.arena, p) >= c.obstacle_range ==> obstacle_push(o, p, c) == (0int, 0int),
{
    let a = crate::config::falloff_strength(
        c.obstacle_magnitude as int,
        c.obstacle_reference as int,
        c.obstacle_falloff,
    );
    let m = c.obstacle_magnitude as int;
    let r = c.obstacle_reference as int;
    assert(m * r >= 1 && m * r * r >= 1) by (nonlinear_arith)
        requires
            m >= 1,
            r >= 1,
    ;
    let d = crate::avoidance::clamped_distance(o, p, c);
    if d < c.obstacle_range {
        assert(d * d >= 1) by (nonlinear_arith)
            requires
                d >= 1,
        ;
        let div = match c.obstacle_falloff {
            crate::config::Falloff::Linear => d,
            crate::config::Falloff::Square => d * d,
        };
        assert(ceil_div(a, div) >= 1) by (nonlinear_arith)
            requires
                a >= 1,
                div >= 1,
        ;
    }
}

/// A moving agent with no neighbour, no predator and every wall out of range
/// feels no acceleration: a tick leaves its velocity as it was, provided it
/// was not above `max_speed`, and its accumulator clear.
pub proof fn lemma_lone_agent_keeps_velocity(
    a: Boid,
    b: Boid,
    s: Seq<Boid>,
    c: FlockConfig,
    dt: int,
)
    requires
        c.wf(),
        a.state is Moving,
        len2(a.velocity@) <= c.max_speed * c.max_speed,
        forall|i: int| 0 <= i < s.len() ==> !is_neighbor(a, #[trigger] s[i], c.perception_radius as int),
        forall|i: int| 0 <= i < s.len() ==> !is_neighbor(a, #[trigger] s[i], c.cohesion_radius as int),
        signed_distance(Obstacal::Floor, c.arena, a.position@) >= c.obstacle_range,
        signed_distance(Obstacal::Ceiling, c.arena, a.position@) >= c.obstacle_range,
        signed_distance(Obstacal::LeftWall, c.arena, a.position@) >= c.obstacle_range,
        signed_distance(Obstacal::RightWall, c.arena, a.position@) >= c.obstacle_range,
        stepped(a, b, s, c, None, dt),
    ensures
        crate::swarm::moving_acceleration(a, s, c, None) == (0int, 0int),
        b.velocity == a.velocity,
        b.acceleration@ == (0int, 0int),
        b.position == a.position,
{
    lemma_isolated_agent_unsteered(a, s, c);
    assert(0int * (c.align.mag as int) == 0 && 0int * (c.separation.mag as int) == 0 && 0int * (
    c.cohesion.mag as int) == 0 && 0int * dt == 0) by (nonlinear_arith);
    assert(0int / 1000 == 0);
    assert(crate::swarm::moving_acceleration(a, s, c, None) == (0int, 0int));
    assert(b.velocity@ == a.velocity@);
}

/// Once a dead agent has decayed for the full duration, its tint is the
/// target colour and it is fully inverted.
pub proof fn lemma_decay_completes(d: DecayConfig, elapsed: int)
    requires
        elapsed >= d.duration,
    ensures
        decay_tint(d, elapsed) == (d.target.r as int, d.target.g as int, d.target.b as int),
        decay_roll(d, elapsed) == INVERTED_ROLL,
{
}

/// A tick leaves a dead agent's motion untouched, whatever the other agents
/// and the predator do, and advances its decay by the tick's length.
pub proof fn lemma_dead_agent_unsteered(
    a: Boid,
    b: Boid,
    s: Seq<Boid>,
    c: FlockConfig,
    predator: Option<Vec2>,
    dt: int,
    elapsed: u64,
)
    requires
        a.state == (KrillState::Dead { elapsed }),
        stepped(a, b, s, c, predator, dt),
        0 <= dt,
    ensures
        b.position == a.position,
        b.velocity == a.velocity,
        b.heading == a.heading,
        b.state matches KrillState::Dead { elapsed: e } && (e == u64::MAX || e == elapsed + dt),
        b.state matches KrillState::Dead { elapsed: e } && e >= elapsed,
{
}

} // verus!

use krill_boids::agent::{Boid, KrillState};
use krill_boids::avoidance::{krill_avoid_obstical, krill_avoid_player, Obstacal};
use krill_boids::config::{ConfigError, Falloff, FlockConfig};
use krill_boids::steering::{boid_align, boid_cohesion, boid_seperation, neighbors};
use krill_boids::swarm::Swarm;
use krill_boids::vector::Vec2;

fn boid(id: u64, x: i64, y: i64, vx: i64, vy: i64) -> Boid {
    Boid::new(id, Vec2::new(x, y), Vec2::new(vx, vy), KrillState::Moving)
}

fn len2(v: Vec2) -> i128 {
    v.x as i128 * v.x as i128 + v.y as i128 * v.y as i128
}

fn cruising_config() -> FlockConfig {
    let mut c = FlockConfig::default();
    c.max_speed = 10_000;
    c
}

#[test]
fn aligned_cluster_feels_no_alignment_and_separates_from_centroid() {
    let c = cruising_config();
    assert!(c.validate().is_ok());
    let snapshot = vec![
        boid(0, 0, 0, 10_000, 0),
        boid(1, 2_000, 0, 10_000, 0),
        boid(2, 1_000, 1_732, 10_000, 0),
    ];
    let cx = (0 + 2_000 + 1_000) as i128;
    let cy = (0 + 0 + 1_732) as i128;
    for a in snapshot.iter() {
        let align = boid_align(a, &snapshot, &c);
        assert_eq!(align.vec, Vec2::new(0, 0));
        let sep = boid_seperation(a, &snapshot, &c);
        let away_x = 3 * a.position.x as i128 - cx;
        let away_y = 3 * a.position.y as i128 - cy;
        let dot = sep.vec.x as i128 * away_x + sep.vec.y as i128 * away_y;
        assert!(dot > 0, "separation of {} points toward the centroid: {:?}", a.id, sep.vec);
    }
}

#[test]
fn lone_agent_keeps_its_velocity_for_one_tick() {
    let mut c = FlockConfig::default();
    c.obstacle_range = 10_000;
    assert!(c.validate().is_ok());
    let mut swarm = Swarm::new();
    let id = swarm.spawn(Vec2::new(0, 0), Vec2::new(3_000, 4_000), KrillState::Moving).unwrap();
    swarm.tick(&c, None, 16);
    let b = swarm.agents()[0];
    assert_eq!(b.id, id);
    assert_eq!(b.acceleration, Vec2::new(0, 0));
    assert_eq!(b.velocity, Vec2::new(3_000, 4_000));
    assert_eq!(b.heading, Vec2::new(3_000, 4_000));
    assert_eq!(b.position, Vec2::new(0, 0));
}

#[test]
fn isolated_agent_has_zero_steering() {
    let c = FlockConfig::default();
    let snapshot = vec![boid(0, 0, 0, 1_000, 0), boid(1, 20_000, 0, -1_000, 0)];
    let a = snapshot[0];
    assert_eq!(boid_align(&a, &snapshot, &c).vec, Vec2::new(0, 0));
    assert_eq!(boid_seperation(&a, &snapshot, &c).vec, Vec2::new(0, 0));
    assert_eq!(boid_cohesion(&a, &snapshot, &c).vec, Vec2::new(0, 0));
}

#[test]
fn coincident_agents_do_not_separate() {
    let c = FlockConfig::default();
    let snapshot = vec![boid(0, 500, 500, 0, 0), boid(1, 520, 500, 0, 0)];
    assert_eq!(boid_seperation(&snapshot[0], &snapshot, &c).vec, Vec2::new(0, 0));
}

#[test]
fn steering_forces_stay_within_max_force() {
    let c = FlockConfig::default();
    let snapshot = vec![
        boid(0, 0, 0, -40_000, 0),
        boid(1, 1_000, 0, 40_000, 10_000),
        boid(2, 0, 3_000, 0, 50_000),
        boid(3, -2_000, -1_000, 30_000, -30_000),
    ];
    let m2 = c.max_force as i128 * c.max_force as i128;
    for a in snapshot.iter() {
        assert!(len2(boid_align(a, &snapshot, &c).vec) <= m2);
        assert!(len2(boid_seperation(a, &snapshot, &c).vec) <= m2);
        assert!(len2(boid_cohesion(a, &snapshot, &c).vec) <= m2);
    }
    let align = boid_align(&snapshot[0], &snapshot, &c).vec;
    assert!(len2(align) > 0);
}

#[test]
fn tick_clamps_speed() {
    let mut c = FlockConfig::default();
    c.max_speed = 5_000;
    let mut swarm = Swarm::new();
    swarm.spawn(Vec2::new(0, -49_000), Vec2::new(0, 0), KrillState::Moving).unwrap();
    swarm.spawn(Vec2::new(1_000, 0), Vec2::new(50_000, 0), KrillState::Moving).unwrap();
    for _ in 0..5 {
        swarm.tick(&c, Some(Vec2::new(1_500, 0)), 100);
        for b in swarm.agents().iter() {
            assert!(len2(b.velocity) <= 5_000i128 * 5_000);
            assert_eq!(b.acceleration, Vec2::new(0, 0));
        }
    }
    assert!(swarm.agents()[0].velocity.y > 0);
}

#[test]
fn permuted_snapshot_gives_same_forces() {
    let c = FlockConfig::default();
    let a = boid(0, 0, 0, 1_000, 2_000);
    let b = boid(1, 2_000, 1_000, -3_000, 500);
    let d = boid(2, -1_500, 2_500, 4_000, 4_000);
    let e = boid(3, 3_000, -3_000, 0, -2_000);
    let s1 = vec![a, b, d, e];
    let s2 = vec![e, d, a, b];
    for x in s1.iter() {
        assert_eq!(boid_align(x, &s1, &c), boid_align(x, &s2, &c));
        assert_eq!(boid_seperation(x, &s1, &c), boid_seperation(x, &s2, &c));
        assert_eq!(boid_cohesion(x, &s1, &c), boid_cohesion(x, &s2, &c));
    }
}

#[test]
fn mirrored_scenario_gives_mirrored_forces() {
    let c = FlockConfig::default();
    let s1 = vec![boid(0, 1_000, 500, 2_000, 1_000), boid(1, 3_000, 0, 0, 3_000), boid(2, 500, 2_500, -1_000, 0)];
    let s2: Vec<Boid> = s1
        .iter()
        .map(|b| boid(b.id, -b.position.x, b.position.y, -b.velocity.x, b.velocity.y))
        .collect();
    for i in 0..s1.len() {
        let f1 = boid_align(&s1[i], &s1, &c).vec;
        let f2 = boid_align(&s2[i], &s2, &c).vec;
        assert_eq!(f2, Vec2::new(-f1.x, f1.y));
        let g1 = boid_seperation(&s1[i], &s1, &c).vec;
        let g2 = boid_seperation(&s2[i], &s2, &c).vec;
        assert_eq!(g2, Vec2::new(-g1.x, g1.y));
        let h1 = boid_cohesion(&s1[i], &s1, &c).vec;
        let h2 = boid_cohesion(&s2[i], &s2, &c).vec;
        assert_eq!(h2, Vec2::new(-h1.x, h1.y));
    }
}

#[test]
fn floor_pushes_up_within_range_only() {
    let c = FlockConfig::default();
    let near = Vec2::new(0, c.arena.bottom + 1_000);
    assert_eq!(Obstacal::Floor.push_on(near, &c), Vec2::new(0, 500_000));
    let edge = Vec2::new(0, c.arena.bottom + c.obstacle_range - 1);
    assert!(Obstacal::Floor.push_on(edge, &c).y > 0);
    let far = Vec2::new(0, c.arena.bottom + c.obstacle_range);
    assert_eq!(Obstacal::Floor.push_on(far, &c), Vec2::new(0, 0));
    assert_eq!(Obstacal::Floor.signed_distance(&c.arena, near), 1_000);
}

#[test]
fn corner_is_pushed_by_both_walls() {
    let mut c = FlockConfig::default();
    c.obstacle_range = 10_000;
    let corner = Vec2::new(c.arena.left + 2_000, c.arena.bottom + 4_000);
    let push = krill_avoid_obstical(corner, &c);
    assert_eq!(push, Vec2::new(250_000, 125_000));
    let center = Vec2::new(0, 0);
    assert_eq!(krill_avoid_obstical(center, &c), Vec2::new(0, 0));
}

#[test]
fn wall_beyond_boundary_uses_minimum_distance() {
    let c = FlockConfig::default();
    let outside = Vec2::new(0, c.arena.top + 5_000);
    assert_eq!(Obstacal::Ceiling.push_on(outside, &c), Vec2::new(0, -10_000_000));
}

#[test]
fn predator_pushes_directly_away() {
    let c = FlockConfig::default();
    let push = krill_avoid_player(Vec2::new(0, 0), Some(Vec2::new(3_000, 4_000)), &c);
    assert_eq!(push, Vec2::new(-1_080_000, -1_440_000));
    assert_eq!(krill_avoid_player(Vec2::new(0, 0), None, &c), Vec2::new(0, 0));
    assert_eq!(krill_avoid_player(Vec2::new(0, 0), Some(Vec2::new(40_000, 0)), &c), Vec2::new(0, 0));
    assert_eq!(krill_avoid_player(Vec2::new(0, 0), Some(Vec2::new(10, 0)), &c), Vec2::new(0, 0));
}

#[test]
fn neighbor_query_returns_ids_within_radius() {
    let snapshot = vec![
        boid(7, 0, 0, 0, 0),
        boid(3, 3_000, 0, 0, 0),
        boid(9, 7_000, 0, 0, 0),
        boid(4, 0, -6_999, 0, 0),
    ];
    let ids = neighbors(&snapshot[0], &snapshot, 7_000);
    assert_eq!(ids, vec![3, 4]);
    let none = neighbors(&snapshot[0], &snapshot, 0);
    assert!(none.is_empty());
}

#[test]
fn cohesion_steers_toward_centroid() {
    let c = FlockConfig::default();
    let snapshot = vec![boid(0, 0, 0, 0, 0), boid(1, 6_000, 0, 0, 0)];
    assert_eq!(boid_cohesion(&snapshot[0], &snapshot, &c).vec, Vec2::new(300, 0));
    assert_eq!(boid_cohesion(&snapshot[1], &snapshot, &c).vec, Vec2::new(-300, 0));
}

#[test]
fn falloff_is_configurable() {
    let mut c = FlockConfig::default();
    c.obstacle_falloff = Falloff::Square;
    assert!(c.validate().is_ok());
    let near = Vec2::new(0, c.arena.bottom + 1_000);
    let farther = Vec2::new(0, c.arena.bottom + 2_000);
    assert_eq!(Obstacal::Floor.push_on(near, &c), Vec2::new(0, 500_000));
    assert_eq!(Obstacal::Floor.push_on(farther, &c), Vec2::new(0, 125_000));
    c.obstacle_falloff = Falloff::Linear;
    assert_eq!(Obstacal::Floor.push_on(farther, &c), Vec2::new(0, 250_000));

    c.predator_falloff = Falloff::Linear;
    assert!(c.validate().is_ok());
    let push = krill_avoid_player(Vec2::new(0, 0), Some(Vec2::new(3_000, 4_000)), &c);
    assert_eq!(push, Vec2::new(-180_000, -240_000));

    let mut strong = FlockConfig::default();
    strong.obstacle_falloff = Falloff::Square;
    strong.obstacle_reference = 30_000;
    assert_eq!(strong.validate(), Err(ConfigError::AvoidanceTooStrong));
}

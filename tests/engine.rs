use krill_boids::agent::{death_roll, death_tint, Boid, DecayConfig, KrillState, LifecycleEvent, Tint, INVERTED_ROLL};
use krill_boids::agent::{Align, Cohesion, Seperation};
use krill_boids::controls::{facing_axes, movement_axes, HeldKeys};
use krill_boids::config::{AlignCoe, CohesionCoe, ConfigError, FlockConfig, SeperationCoe};
use krill_boids::display::{update_score, AnimationIndices, DisplayData, DisplayEvent};
use krill_boids::motion::{accumulate, boid_flock, krill_rotate_to_face_vel_vec, krill_update_velocity};
use krill_boids::spawn::{draw_velocity, initial_velocity, spawn_krill};
use krill_boids::steering::{steer_toward, MAX_AGENTS};
use krill_boids::swarm::{Swarm, SwarmError};
use krill_boids::vector::{
    ceil_sqrt_u128, clamp_length_max, distance_squared, div_round_up, div_toward_zero, length_squared,
    scale_to_length, Vec2, COORD_LIMIT,
};

#[test]
fn ceil_sqrt_values() {
    assert_eq!(ceil_sqrt_u128(0), 0);
    assert_eq!(ceil_sqrt_u128(1), 1);
    assert_eq!(ceil_sqrt_u128(24), 5);
    assert_eq!(ceil_sqrt_u128(25), 5);
    assert_eq!(ceil_sqrt_u128(26), 6);
    assert_eq!(ceil_sqrt_u128(1u128 << 124), 1u128 << 62);
}

#[test]
fn division_rounding() {
    assert_eq!(div_toward_zero(7, 2), 3);
    assert_eq!(div_toward_zero(-7, 2), -3);
    assert_eq!(div_round_up(7, 2), 4);
    assert_eq!(div_round_up(0, 5), 0);
}

#[test]
fn lengths_and_rescaling() {
    assert_eq!(length_squared(3, -4), 25);
    assert_eq!(distance_squared(Vec2::new(1, 1), Vec2::new(4, 5)), 25);
    assert_eq!(scale_to_length(3, 4, 10), (6, 8));
    assert_eq!(scale_to_length(-3, 4, 10), (-6, 8));
    assert_eq!(scale_to_length(0, 0, 10), (0, 0));
    assert_eq!(scale_to_length(1, 1, 1000), (500, 500));
    assert_eq!(clamp_length_max(30, 40, 10), (6, 8));
    assert_eq!(clamp_length_max(3, 4, 10), (3, 4));
    assert_eq!(clamp_length_max(6, 8, 10), (6, 8));
}

#[test]
fn steering_correction() {
    assert_eq!(steer_toward(1, 30_000, 0, Vec2::new(10_000, 0), 10_000, 300), Vec2::new(0, 0));
    assert_eq!(steer_toward(0, 30_000, 0, Vec2::new(0, 0), 10_000, 300), Vec2::new(0, 0));
    assert_eq!(steer_toward(2, 0, 0, Vec2::new(5, 0), 10_000, 300), Vec2::new(0, 0));
    assert_eq!(steer_toward(1, 0, 5, Vec2::new(0, 0), 10_000, 300), Vec2::new(0, 300));
    assert_eq!(steer_toward(1, 0, 5, Vec2::new(0, 9_900), 10_000, 300), Vec2::new(0, 100));
}

#[test]
fn default_coefficients() {
    assert_eq!(AlignCoe::default().mag, 7_600);
    assert_eq!(SeperationCoe::default().mag, 1_500);
    assert_eq!(CohesionCoe::default().mag, 1_200);
    assert_eq!(FlockConfig::default().validate(), Ok(()));
}

#[test]
fn each_configuration_error() {
    let mut c = FlockConfig::default();
    c.perception_radius = -1;
    assert_eq!(c.validate(), Err(ConfigError::Negative));
    let mut c = FlockConfig::default();
    c.max_speed = 0x100_0001;
    assert_eq!(c.validate(), Err(ConfigError::TooLarge));
    let mut c = FlockConfig::default();
    c.near_zero = 0;
    assert_eq!(c.validate(), Err(ConfigError::ZeroTolerance));
    let mut c = FlockConfig::default();
    c.separation_radius = c.perception_radius + 1;
    assert_eq!(c.validate(), Err(ConfigError::SeparationWiderThanPerception));
    let mut c = FlockConfig::default();
    c.predator_reference = 0x100_0000;
    assert_eq!(c.validate(), Err(ConfigError::AvoidanceTooStrong));
    let mut c = FlockConfig::default();
    c.arena.left = c.arena.right;
    assert_eq!(c.validate(), Err(ConfigError::BadArena));
    let mut c = FlockConfig::default();
    c.align.mag = -5;
    c.max_speed = 0x100_0001;
    assert_eq!(c.validate(), Err(ConfigError::Negative));
}

#[test]
fn combining_forces_adds_to_accumulator() {
    let c = FlockConfig::default();
    let mut acc = Vec2::new(10, -10);
    boid_flock(
        &mut acc,
        &Align { vec: Vec2::new(100, 0) },
        &Seperation { vec: Vec2::new(0, -200) },
        &Cohesion { vec: Vec2::new(-300, 300) },
        &c,
    );
    assert_eq!(acc, Vec2::new(10 + 760 - 360, -10 - 300 + 360));
    accumulate(&mut acc, Vec2::new(5, 5));
    assert_eq!(acc, Vec2::new(415, 55));
}

#[test]
fn integrator_applies_clamps_and_clears() {
    let c = FlockConfig::default();
    let mut b = Boid::new(1, Vec2::new(0, 0), Vec2::new(1_000, 0), KrillState::Moving);
    b.acceleration = Vec2::new(10_000, -20_000);
    krill_update_velocity(&mut b, &c, 100);
    assert_eq!(b.velocity, Vec2::new(2_000, -2_000));
    assert_eq!(b.acceleration, Vec2::new(0, 0));
    b.acceleration = Vec2::new(1_000_000_000, 0);
    krill_update_velocity(&mut b, &c, 1_000);
    assert_eq!(b.velocity.x * b.velocity.x + b.velocity.y * b.velocity.y <= 50_000 * 50_000, true);
    assert!(b.velocity.x > 49_000);
}

#[test]
fn heading_follows_nonzero_velocity() {
    let mut b = Boid::new(1, Vec2::new(0, 0), Vec2::new(0, 5), KrillState::Moving);
    b.velocity = Vec2::new(-3, 0);
    krill_rotate_to_face_vel_vec(&mut b);
    assert_eq!(b.heading, Vec2::new(-3, 0));
    b.velocity = Vec2::new(0, 0);
    krill_rotate_to_face_vel_vec(&mut b);
    assert_eq!(b.heading, Vec2::new(-3, 0));
}

#[test]
fn lifecycle_transitions() {
    assert_eq!(KrillState::Moving.apply(LifecycleEvent::Pause), KrillState::Idle);
    assert_eq!(KrillState::Idle.apply(LifecycleEvent::Resume), KrillState::Moving);
    assert_eq!(KrillState::Idle.apply(LifecycleEvent::Kill), KrillState::Dead { elapsed: 0 });
    assert_eq!(KrillState::Moving.apply(LifecycleEvent::Kill), KrillState::Dead { elapsed: 0 });
    let dead = KrillState::Dead { elapsed: 40 };
    assert_eq!(dead.apply(LifecycleEvent::Resume), dead);
    assert_eq!(dead.apply(LifecycleEvent::Pause), dead);
    assert!(KrillState::Moving.is_moving());
    assert!(!KrillState::Idle.is_moving());
}

#[test]
fn decay_halfway_and_complete() {
    let d = DecayConfig::standard();
    assert_eq!(death_tint(&d, 0), Tint { r: 1000, g: 1000, b: 1000 });
    assert_eq!(death_tint(&d, 500), Tint { r: 600, g: 600, b: 1000 });
    assert_eq!(death_roll(&d, 500), 90_000);
    assert_eq!(death_tint(&d, 1000), d.target);
    assert_eq!(death_roll(&d, 1000), INVERTED_ROLL);
    assert_eq!(death_tint(&d, 5000), d.target);
}

#[test]
fn dead_agent_ignores_steering_and_is_removed_after_decay() {
    let c = FlockConfig::default();
    let d = DecayConfig::standard();
    let mut swarm = Swarm::new();
    let victim = swarm.spawn(Vec2::new(0, -49_000), Vec2::new(1_000, 0), KrillState::Moving).unwrap();
    let other = swarm.spawn(Vec2::new(1_000, -49_000), Vec2::new(2_000, 0), KrillState::Moving).unwrap();
    assert!(swarm.apply_event(victim, LifecycleEvent::Kill));
    let mut ticks = 0;
    loop {
        swarm.tick(&c, Some(Vec2::new(500, -48_000)), 250);
        ticks += 1;
        let b = swarm.agents()[0];
        assert_eq!(b.velocity, Vec2::new(1_000, 0));
        assert_eq!(b.heading, Vec2::new(1_000, 0));
        match b.state {
            KrillState::Dead { elapsed } => {
                assert_eq!(elapsed, 250 * ticks);
                if elapsed >= d.duration {
                    assert_eq!(death_tint(&d, elapsed), d.target);
                    assert_eq!(death_roll(&d, elapsed), INVERTED_ROLL);
                    break;
                }
            },
            _ => panic!("a dead agent came back"),
        }
    }
    assert_eq!(ticks, 4);
    swarm.remove_decayed(&d);
    assert_eq!(swarm.len(), 2);
    swarm.tick(&c, None, 10);
    swarm.remove_decayed(&d);
    assert_eq!(swarm.len(), 1);
    assert_eq!(swarm.agents()[0].id, other);
}

#[test]
fn idle_agent_is_left_alone() {
    let c = FlockConfig::default();
    let mut swarm = Swarm::new();
    let id = swarm.spawn(Vec2::new(0, -49_500), Vec2::new(700, 0), KrillState::Idle).unwrap();
    swarm.tick(&c, None, 100);
    assert_eq!(swarm.agents()[0].velocity, Vec2::new(700, 0));
    assert!(swarm.apply_event(id, LifecycleEvent::Resume));
    swarm.tick(&c, None, 100);
    assert!(swarm.agents()[0].velocity.y > 0);
}

#[test]
fn store_errors_and_handles() {
    let mut swarm = Swarm::new();
    let a = swarm.spawn(Vec2::new(0, 0), Vec2::new(0, 0), KrillState::Moving).unwrap();
    let b = swarm.spawn(Vec2::new(10, 0), Vec2::new(0, 0), KrillState::Moving).unwrap();
    assert_ne!(a, b);
    assert_eq!(
        swarm.spawn(Vec2::new(COORD_LIMIT + 1, 0), Vec2::new(0, 0), KrillState::Moving),
        Err(SwarmError::OutOfRange)
    );
    assert_eq!(swarm.sync(99, Vec2::new(0, 0), Vec2::new(0, 0)), Err(SwarmError::NotFound));
    assert_eq!(swarm.sync(a, Vec2::new(0, 0), Vec2::new(0, -COORD_LIMIT - 1)), Err(SwarmError::OutOfRange));
    assert_eq!(swarm.sync(a, Vec2::new(5, 6), Vec2::new(7, 8)), Ok(()));
    assert_eq!(swarm.agents()[0].position, Vec2::new(5, 6));
    assert_eq!(swarm.agents()[0].velocity, Vec2::new(7, 8));
    assert!(swarm.remove(a));
    assert!(!swarm.remove(a));
    assert!(!swarm.apply_event(a, LifecycleEvent::Kill));
    let c = swarm.spawn(Vec2::new(0, 0), Vec2::new(0, 0), KrillState::Moving).unwrap();
    assert_ne!(c, a);
    assert_ne!(c, b);
    assert_eq!(swarm.find(b), Some(0));
    assert_eq!(swarm.find(a), None);
}

#[test]
fn store_refuses_beyond_capacity() {
    let mut swarm = Swarm::new();
    for _ in 0..MAX_AGENTS {
        assert!(swarm.spawn(Vec2::new(0, 0), Vec2::new(0, 0), KrillState::Idle).is_ok());
    }
    assert_eq!(swarm.spawn(Vec2::new(0, 0), Vec2::new(0, 0), KrillState::Idle), Err(SwarmError::Full));
    assert_eq!(swarm.len(), MAX_AGENTS);
}

#[test]
fn launch_velocity_values() {
    assert_eq!(initial_velocity(0, 0, 5_000), Vec2::new(5_000, 0));
    assert_eq!(initial_velocity(600, -800, 5_000), Vec2::new(3_000, -4_000));
    assert_eq!(initial_velocity(300_000, -400_000, 5_000), Vec2::new(3_000, -4_000));
}

#[test]
fn spawned_agents_are_spread_over_the_arena() {
    let c = FlockConfig::default();
    let mut swarm = Swarm::new();
    let n = spawn_krill(&mut swarm, 60, &c, KrillState::Moving);
    assert_eq!(n, 60);
    assert_eq!(swarm.len(), 60);
    let a = c.arena;
    let mut distinct_x = false;
    let mut distinct_speed = false;
    let first = swarm.agents()[0];
    for b in swarm.agents().iter() {
        assert!(a.left <= b.position.x && b.position.x < a.right);
        assert!(a.bottom <= b.position.y && b.position.y < a.top);
        let v2 = b.velocity.x as i128 * b.velocity.x as i128 + b.velocity.y as i128 * b.velocity.y as i128;
        assert!(v2 <= 50_000i128 * 50_000);
        assert!(v2 >= 1_000i128 * 1_000);
        assert_eq!(b.state, KrillState::Moving);
        distinct_x |= b.position.x != first.position.x;
        distinct_speed |= b.velocity != first.velocity;
    }
    assert!(distinct_x && distinct_speed);
}

#[test]
fn score_accumulates_points() {
    let mut data = DisplayData { total_score: 3 };
    update_score(&mut data, &vec![DisplayEvent { points: 1 }, DisplayEvent { points: 5 }]);
    assert_eq!(data.total_score, 9);
    update_score(&mut data, &vec![]);
    assert_eq!(data.total_score, 9);
}

#[test]
fn animation_frames_wrap() {
    let frames = AnimationIndices { first: 0, last: 1 };
    assert_eq!(frames.next_index(0), 1);
    assert_eq!(frames.next_index(1), 0);
}

#[test]
fn keys_map_to_directions() {
    let up_right = HeldKeys { up: true, down: false, left: false, right: true };
    assert_eq!(movement_axes(&up_right), (1, 1));
    assert_eq!(facing_axes(&up_right), (-1, 1));
    let opposite = HeldKeys { up: true, down: true, left: true, right: false };
    assert_eq!(movement_axes(&opposite), (-1, 0));
    assert_eq!(facing_axes(&opposite), (0, -1));
    let none = HeldKeys { up: false, down: false, left: false, right: false };
    assert_eq!(movement_axes(&none), (0, 0));
}

#[test]
fn drawn_speeds_lie_between_one_unit_and_max_speed() {
    for _ in 0..500 {
        let v = draw_velocity(1_000);
        let v2 = v.x as i128 * v.x as i128 + v.y as i128 * v.y as i128;
        assert!(v2 >= 1_000 * 1_000 && v2 <= 1_000 * 1_000, "{:?}", v);
        let w = draw_velocity(50_000);
        let w2 = w.x as i128 * w.x as i128 + w.y as i128 * w.y as i128;
        assert!(w2 >= 1_000 * 1_000 && w2 <= 50_000 * 50_000, "{:?}", w);
    }
    let slow = draw_velocity(500);
    assert!(slow.x as i128 * slow.x as i128 + slow.y as i128 * slow.y as i128 <= 500 * 500);
}

#[test]
fn a_fresh_store_receives_every_requested_agent() {
    let c = FlockConfig::default();
    let mut swarm = Swarm::new();
    assert_eq!(spawn_krill(&mut swarm, 600, &c, KrillState::Idle), 600);
    assert_eq!(swarm.len(), 600);
    assert_eq!(spawn_krill(&mut swarm, MAX_AGENTS, &c, KrillState::Idle), MAX_AGENTS - 600);
    assert_eq!(swarm.len(), MAX_AGENTS);
}

//! Flock controller: separation symmetry, strict radius boundaries,
//! deterministic order-independent ticks, pursuit, and ring setup.

use flightcore::flock::{enemy_ai, setup_enemy, Agent, SimulationConfig, FLEET_CAP};
use flightcore::vec3::Vec3Fx;

fn test_config() -> SimulationConfig {
    SimulationConfig {
        enemy_count: 10,
        cohesion_force: 20_000,
        separation_force: 80_000,
        alignment_force: 60_000,
        separation_distance: 10_000_000,
        alignment_distance: 10_000_000,
        cohesion_distance: 15_000_000,
        max_speed: 10_000_000,
    }
}

fn agent_at(x: i64, y: i64, z: i64) -> Agent {
    Agent { position: Vec3Fx::new(x, y, z), velocity: Vec3Fx::zero() }
}

#[test]
fn separation_terms_are_exactly_opposite() {
    // Two agents 3 units apart along (1, 2, 2): the raw pre-clamp
    // separation vectors each computes for the other are exact
    // negations of one another.
    let a = Vec3Fx::new(1_000_000, 2_000_000, 2_000_000);
    let b = Vec3Fx::zero();
    let d = a.dist(b);
    assert_eq!(d, 3_000_000);
    let from_b = a.sub(b).normalize().div_fx(d);
    let from_a = b.sub(a).normalize().div_fx(d);
    assert_eq!(from_b, Vec3Fx::new(111_111, 222_222, 222_222));
    assert_eq!(from_a, from_b.neg());
}

#[test]
fn radius_boundary_is_exclusive_for_all_three() {
    // Exactly at every radius: no separation, alignment or cohesion
    // neighbor, no pursuit (no player): the tick is a complete no-op.
    let mut cfg = test_config();
    cfg.separation_distance = 10_000_000;
    cfg.alignment_distance = 10_000_000;
    cfg.cohesion_distance = 10_000_000;
    let agents = vec![agent_at(0, 0, 0), agent_at(10_000_000, 0, 0)];
    let out = enemy_ai(&agents, None, 16_666, &cfg);
    assert_eq!(out[0], agents[0]);
    assert_eq!(out[1], agents[1]);
}

#[test]
fn just_inside_radius_does_count() {
    let mut cfg = test_config();
    cfg.separation_distance = 10_000_000;
    cfg.alignment_distance = 10_000_000;
    cfg.cohesion_distance = 10_000_000;
    let agents = vec![agent_at(0, 0, 0), agent_at(9_999_999, 0, 0)];
    let out = enemy_ai(&agents, None, 16_666, &cfg);
    // Separation (cap 0.08) pushes away, cohesion (cap 0.02) pulls in;
    // doubled: velocity.x = 2 * (-80_000 + 20_000).
    assert_eq!(out[0].velocity, Vec3Fx::new(-120_000, 0, 0));
    assert_ne!(out[0], agents[0]);
    assert_ne!(out[1], agents[1]);
}

#[test]
fn coincident_agents_skip_separation_only() {
    // Distance zero: the separation term is skipped (no valid
    // direction) but alignment and cohesion still count the neighbor.
    let cfg = test_config();
    let a = Agent {
        position: Vec3Fx::new(5_000_000, 0, 0),
        velocity: Vec3Fx::new(3_000_000, 0, 0),
    };
    let b = Agent { position: Vec3Fx::new(5_000_000, 0, 0), velocity: Vec3Fx::zero() };
    let out = enemy_ai(&vec![a, b], None, 16_666, &cfg);
    // Agent b aligns toward a's velocity; nothing explodes into NaN
    // territory because no zero-length vector was normalized.
    assert_ne!(out[1].velocity, Vec3Fx::zero());
}

#[test]
fn tick_is_deterministic() {
    let cfg = test_config();
    let agents = vec![
        agent_at(0, 0, 0),
        agent_at(4_000_000, 1_000_000, 0),
        agent_at(-3_000_000, 0, 2_000_000),
    ];
    let player = Some(Vec3Fx::new(50_000_000, 0, 0));
    let once = enemy_ai(&agents, player, 16_666, &cfg);
    let twice = enemy_ai(&agents, player, 16_666, &cfg);
    assert_eq!(once, twice);
}

#[test]
fn tick_is_order_independent() {
    // Reversing the agent array permutes the outputs identically:
    // each update reads only the previous-tick snapshot, and the
    // accumulated integer sums do not depend on scan order.
    let cfg = test_config();
    let agents = vec![
        agent_at(0, 0, 0),
        agent_at(4_000_000, 1_000_000, 0),
        agent_at(-3_000_000, 0, 2_000_000),
        agent_at(1_000_000, -2_000_000, 5_000_000),
    ];
    let reversed: Vec<Agent> = agents.iter().rev().cloned().collect();
    let player = Some(Vec3Fx::new(50_000_000, 0, 0));
    let out = enemy_ai(&agents, player, 16_666, &cfg);
    let out_rev = enemy_ai(&reversed, player, 16_666, &cfg);
    for i in 0..agents.len() {
        assert_eq!(out[i], out_rev[agents.len() - 1 - i]);
    }
}

#[test]
fn lone_agent_pursues_player_weakly() {
    // One agent, zero neighbors, player at (100, 0, 0), agent at the
    // origin, max speed 10, pursuit cap 0.01: the fleet force is the
    // full cap, the velocity gains exactly twice it, and the agent
    // moves strictly toward +X.
    let mut cfg = test_config();
    cfg.max_speed = 10_000_000;
    let agents = vec![agent_at(0, 0, 0)];
    let player = Some(Vec3Fx::new(100_000_000, 0, 0));
    let out = enemy_ai(&agents, player, 16_666, &cfg);
    // |fleet_force| <= 0.01: the velocity change is 2 * 10_000.
    assert_eq!(out[0].velocity, Vec3Fx::new(2 * FLEET_CAP, 0, 0));
    assert_eq!(out[0].position, Vec3Fx::new(333, 0, 0));
    assert!(out[0].position.x > 0);
    assert_eq!(out[0].position.y, 0);
    assert_eq!(out[0].position.z, 0);
}

#[test]
fn missing_player_disables_pursuit() {
    let cfg = test_config();
    let agents = vec![agent_at(0, 0, 0)];
    let out = enemy_ai(&agents, None, 16_666, &cfg);
    assert_eq!(out[0], agents[0]);
}

#[test]
fn ring_spawn_positions_and_rest() {
    let mut cfg = test_config();
    cfg.enemy_count = 5;
    let agents = setup_enemy(&cfg);
    assert_eq!(agents.len(), 5);
    // Agent 0 sits at angle 0: x = sin(0)*20 = 0, z = cos(0)*20 = 20.
    assert_eq!(agents[0].position, Vec3Fx::new(0, 10_000_000, 20_000_000));
    for a in &agents {
        assert_eq!(a.velocity, Vec3Fx::zero());
        assert_eq!(a.position.y, 10_000_000);
        // Every agent is on (or within rounding of) the radius-20 ring.
        let r = Vec3Fx::new(a.position.x, 0, a.position.z).norm();
        assert!((r - 20_000_000).abs() < 120_000, "off the ring: {r}");
    }
}

//! Flock controller: separation, alignment, cohesion and pursuit for
//! every enemy agent, once per tick.
//!
//! The tick is a discrete two-phase pass: all forces are computed from
//! the previous tick's snapshot of every agent (the input `Vec` is
//! read-only and a fresh `Vec` is returned), so agent `i`'s update
//! never sees agent `j`'s already-updated state — the spec
//! `step_agent_s` is a function of the snapshot alone, which makes the
//! tick deterministic and independent of commit order.
//!
//! The three neighbor conditions share one neighbor counter (each
//! condition increments it, and all three accumulators are averaged by
//! the shared total), and the integrated velocity is not clamped to
//! `max_speed`; both quirks are part of the observed behavior and are
//! kept exactly.

use vstd::prelude::*;

use crate::fx::{FX_ONE, abs_i, lemma_abs_mul, lemma_fx_mul_s_le, lemma_tdiv, lemma_tdiv_shrinks};
use crate::vec3::{
    V3, Vec3Fx, add_v, bounded_v, clamp_mag_v, dist_v, div_fx_v, divn_v, lemma_clamp_mag_bounded,
    lemma_norm_zero, neg_v, norm_v, normalize_v, scale_v, sub_v, sumsq_v, zero_v,
};

verus! {

/// Cap on the pursuit ("fleet") force: 0.01 units, deliberately weak
/// relative to the flocking forces so the swarm stays a loose group.
pub const FLEET_CAP: i64 = 10_000;

/// Largest agent coordinate/velocity component accepted by a tick
/// (one million world units).
pub const AGENT_LIM: i64 = 1_000_000_000_000;

/// Most agents a tick accepts; the O(n^2) scan is meant for prototype
/// counts anyway.
pub const MAX_AGENTS: usize = 10_000;

/// Longest tick the flock controller accepts (10 s).
pub const FLOCK_DT_MAX: i64 = 10_000_000;

/// One enemy agent. Visual orientation is derived from the velocity by
/// the renderer and is not part of the state.
#[derive(Clone, Copy, PartialEq, Eq, Structural, Debug)]
pub struct Agent {
    pub position: Vec3Fx,
    pub velocity: Vec3Fx,
}

/// The mathematical model of an agent.
pub struct AgentV {
    pub position: V3,
    pub velocity: V3,
}

impl View for Agent {
    type V = AgentV;

    open spec fn view(&self) -> AgentV {
        AgentV { position: self.position@, velocity: self.velocity@ }
    }
}

/// Tunable flocking parameters, read-only during simulation.
#[derive(Clone, Copy, PartialEq, Eq, Structural, Debug)]
pub struct SimulationConfig {
    /// How many agents the host spawns at setup.
    pub enemy_count: u32,
    /// Force-magnitude clamps.
    pub cohesion_force: i64,
    pub separation_force: i64,
    pub alignment_force: i64,
    /// Neighbor radii.
    pub separation_distance: i64,
    pub alignment_distance: i64,
    pub cohesion_distance: i64,
    /// Target speed that steering aims for (not a hard clamp).
    pub max_speed: i64,
}

/// Sane parameter ranges: everything non-negative and within the
/// simulation's coordinate range.
pub open spec fn config_wf(cfg: SimulationConfig) -> bool {
    &&& 0 <= cfg.cohesion_force <= AGENT_LIM
    &&& 0 <= cfg.separation_force <= AGENT_LIM
    &&& 0 <= cfg.alignment_force <= AGENT_LIM
    &&& 0 <= cfg.separation_distance <= AGENT_LIM
    &&& 0 <= cfg.alignment_distance <= AGENT_LIM
    &&& 0 <= cfg.cohesion_distance <= AGENT_LIM
    &&& 0 <= cfg.max_speed <= AGENT_LIM
}

/// Every agent's position and velocity within the coordinate range.
pub open spec fn agents_bounded(s: Seq<Agent>) -> bool {
    forall|k: int|
        0 <= k < s.len() ==> bounded_v(#[trigger] s[k]@.position, AGENT_LIM as int) && bounded_v(
            s[k]@.velocity,
            AGENT_LIM as int,
        )
}

/// Strictly inside the separation radius and not coincident.
pub open spec fn sep_neighbor(me: V3, other: V3, cfg: SimulationConfig) -> bool {
    0 < dist_v(me, other) < cfg.separation_distance as int
}

/// Strictly inside the alignment radius.
pub open spec fn align_neighbor(me: V3, other: V3, cfg: SimulationConfig) -> bool {
    dist_v(me, other) < cfg.alignment_distance as int
}

/// Strictly inside the cohesion radius.
pub open spec fn coh_neighbor(me: V3, other: V3, cfg: SimulationConfig) -> bool {
    dist_v(me, other) < cfg.cohesion_distance as int
}

/// The raw (pre-clamp) separation term one neighbor contributes: the
/// unit vector away from it, divided by the distance, so closer
/// neighbors push harder.
pub open spec fn sep_contrib(me: V3, other: V3) -> V3 {
    div_fx_v(normalize_v(sub_v(me, other)), dist_v(me, other))
}

/// Separation accumulator over the first `k` agents (skipping `i`
/// itself).
pub open spec fn sep_scan(s: Seq<Agent>, i: int, k: int, cfg: SimulationConfig) -> V3
    decreases k,
{
    if k <= 0 {
        zero_v()
    } else if k - 1 != i && sep_neighbor(s[i]@.position, s[k - 1]@.position, cfg) {
        add_v(sep_scan(s, i, k - 1, cfg), sep_contrib(s[i]@.position, s[k - 1]@.position))
    } else {
        sep_scan(s, i, k - 1, cfg)
    }
}

/// Alignment accumulator (sum of neighbor velocities) over the first
/// `k` agents.
pub open spec fn align_scan(s: Seq<Agent>, i: int, k: int, cfg: SimulationConfig) -> V3
    decreases k,
{
    if k <= 0 {
        zero_v()
    } else if k - 1 != i && align_neighbor(s[i]@.position, s[k - 1]@.position, cfg) {
        add_v(align_scan(s, i, k - 1, cfg), s[k - 1]@.velocity)
    } else {
        align_scan(s, i, k - 1, cfg)
    }
}

/// Cohesion accumulator (sum of neighbor positions) over the first `k`
/// agents.
pub open spec fn coh_scan(s: Seq<Agent>, i: int, k: int, cfg: SimulationConfig) -> V3
    decreases k,
{
    if k <= 0 {
        zero_v()
    } else if k - 1 != i && coh_neighbor(s[i]@.position, s[k - 1]@.position, cfg) {
        add_v(coh_scan(s, i, k - 1, cfg), s[k - 1]@.position)
    } else {
        coh_scan(s, i, k - 1, cfg)
    }
}

/// The shared neighbor counter over the first `k` agents: each of the
/// three conditions adds one, and the same total divides all three
/// accumulators.
pub open spec fn count_scan(s: Seq<Agent>, i: int, k: int, cfg: SimulationConfig) -> int
    decreases k,
{
    if k <= 0 {
        0
    } else {
        let me = s[i]@.position;
        let other = s[k - 1]@.position;
        count_scan(s, i, k - 1, cfg) + if k - 1 != i {
            (if sep_neighbor(me, other, cfg) {
                1int
            } else {
                0int
            }) + (if align_neighbor(me, other, cfg) {
                1int
            } else {
                0int
            }) + (if coh_neighbor(me, other, cfg) {
                1int
            } else {
                0int
            })
        } else {
            0int
        }
    }
}

/// Re-steer an accumulated direction as "desired velocity minus current
/// velocity", clamped to the behavior's force cap; a zero accumulator
/// is left at zero (no valid direction, per the degenerate-case
/// policy).
pub open spec fn steer(acc: V3, vel: V3, max_speed: int, cap: int) -> V3 {
    if norm_v(acc) > 0 {
        clamp_mag_v(sub_v(scale_v(normalize_v(acc), max_speed), vel), cap)
    } else {
        acc
    }
}

/// Doubling: the fixed gain the integrator applies to the force sum.
pub open spec fn double_v(a: V3) -> V3 {
    V3 { x: 2 * a.x, y: 2 * a.y, z: 2 * a.z }
}

/// One agent's next state, as a function of the previous tick's full
/// snapshot alone: forces from the scans (averaged by the shared
/// counter when it is positive), pursuit toward the player if one
/// exists, then `velocity += 2 * force_sum` and
/// `position += velocity * dt` with the updated velocity.
pub open spec fn step_agent_s(
    s: Seq<Agent>,
    i: int,
    player: Option<Vec3Fx>,
    dt: int,
    cfg: SimulationConfig,
) -> AgentV {
    let me = s[i]@;
    let n = s.len() as int;
    let cnt = count_scan(s, i, n, cfg);
    let ms = cfg.max_speed as int;
    let sep_f = if cnt > 0 {
        steer(divn_v(sep_scan(s, i, n, cfg), cnt), me.velocity, ms, cfg.separation_force as int)
    } else {
        zero_v()
    };
    let align_f = if cnt > 0 {
        steer(divn_v(align_scan(s, i, n, cfg), cnt), me.velocity, ms, cfg.alignment_force as int)
    } else {
        zero_v()
    };
    let coh_f = if cnt > 0 {
        steer(
            sub_v(divn_v(coh_scan(s, i, n, cfg), cnt), me.position),
            me.velocity,
            ms,
            cfg.cohesion_force as int,
        )
    } else {
        zero_v()
    };
    let fleet_f = match player {
        Option::Some(p) => steer(sub_v(p@, me.position), me.velocity, ms, FLEET_CAP as int),
        Option::None => zero_v(),
    };
    let vel2 = add_v(me.velocity, double_v(add_v(add_v(add_v(sep_f, align_f), coh_f), fleet_f)));
    AgentV { position: add_v(me.position, scale_v(vel2, dt)), velocity: vel2 }
}

/// Steering, executable: exactly `steer` of the views.
fn steer_exec(acc: Vec3Fx, vel: Vec3Fx, max_speed: i64, cap: i64) -> (r: Vec3Fx)
    requires
        bounded_v(acc@, 20_000_000_000_000_000),
        bounded_v(vel@, AGENT_LIM as int),
        0 <= max_speed <= AGENT_LIM,
        0 <= cap <= AGENT_LIM,
    ensures
        r@ == steer(acc@, vel@, max_speed as int, cap as int),
        bounded_v(r@, cap as int),
{
    let n: i64 = acc.norm();
    if n > 0 {
        let dir: Vec3Fx = acc.normalize();
        proof {
            lemma_abs_mul(dir@.x, max_speed as int, FX_ONE as int, AGENT_LIM as int);
            lemma_abs_mul(dir@.y, max_speed as int, FX_ONE as int, AGENT_LIM as int);
            lemma_abs_mul(dir@.z, max_speed as int, FX_ONE as int, AGENT_LIM as int);
            lemma_fx_mul_s_le(dir@.x, max_speed as int, AGENT_LIM as int);
            lemma_fx_mul_s_le(dir@.y, max_speed as int, AGENT_LIM as int);
            lemma_fx_mul_s_le(dir@.z, max_speed as int, AGENT_LIM as int);
        }
        let desired: Vec3Fx = dir.scale_fx(max_speed);
        let v: Vec3Fx = desired.sub(vel);
        proof {
            lemma_clamp_mag_bounded(v@, cap as int);
        }
        v.clamp_mag(cap)
    } else {
        proof {
            lemma_norm_zero(acc@);
        }
        acc
    }
}

/// One flock-controller tick over all agents: returns the committed
/// next states, each exactly `step_agent_s` of the unmodified input
/// snapshot — the read/compute snapshot barrier in type-checked form.
/// With no player present, pursuit is a no-op for the tick.
#[verifier::rlimit(100)]
pub fn enemy_ai(agents: &Vec<Agent>, player: Option<Vec3Fx>, dt: i64, cfg: &SimulationConfig) -> (r:
    Vec<Agent>)
    requires
        config_wf(*cfg),
        0 <= dt <= FLOCK_DT_MAX,
        agents.len() <= MAX_AGENTS,
        agents_bounded(agents@),
        player is Some ==> bounded_v(player->0@, AGENT_LIM as int),
    ensures
        r.len() == agents.len(),
        forall|i: int|
            0 <= i < r.len() ==> #[trigger] r[i]@ == step_agent_s(
                agents@,
                i,
                player,
                dt as int,
                *cfg,
            ),
        forall|i: int|
            0 <= i < r.len() ==> bounded_v(#[trigger] r[i]@.velocity, 10_000_000_000_000)
                && bounded_v(r[i]@.position, 101_000_000_000_000),
{
    let ghost s = agents@;
    let n: usize = agents.len();
    let mut out: Vec<Agent> = Vec::new();
    let mut i: usize = 0;
    while i < n
        invariant
            n == agents.len() <= MAX_AGENTS,
            s == agents@,
            config_wf(*cfg),
            0 <= dt <= FLOCK_DT_MAX,
            agents_bounded(s),
            player is Some ==> bounded_v(player->0@, AGENT_LIM as int),
            out.len() == i,
            0 <= i <= n,
            forall|k: int|
                0 <= k < i ==> #[trigger] out[k]@ == step_agent_s(s, k, player, dt as int, *cfg),
            forall|k: int|
                0 <= k < i ==> bounded_v(#[trigger] out[k]@.velocity, 10_000_000_000_000)
                    && bounded_v(out[k]@.position, 101_000_000_000_000),
        decreases n - i,
    {
        let me: Agent = agents[i];
        proof {
            assert(bounded_v(s[i as int]@.position, AGENT_LIM as int));
        }
        let (sep, align, coh, cnt) = scan_neighbors(agents, i, cfg);
        let ms: i64 = cfg.max_speed;
        let mut sep_f: Vec3Fx = Vec3Fx::zero();
        let mut align_f: Vec3Fx = Vec3Fx::zero();
        let mut coh_f: Vec3Fx = Vec3Fx::zero();
        if cnt > 0 {
            proof {
                lemma_divn_bounded(sep@, cnt as int);
                lemma_divn_bounded(align@, cnt as int);
                lemma_divn_bounded(coh@, cnt as int);
            }
            sep_f = steer_exec(sep.div_count(cnt), me.velocity, ms, cfg.separation_force);
            align_f = steer_exec(align.div_count(cnt), me.velocity, ms, cfg.alignment_force);
            coh_f = steer_exec(
                coh.div_count(cnt).sub(me.position),
                me.velocity,
                ms,
                cfg.cohesion_force,
            );
        }
        let fleet_f: Vec3Fx = match player {
            Option::Some(p) => steer_exec(p.sub(me.position), me.velocity, ms, FLEET_CAP),
            Option::None => Vec3Fx::zero(),
        };
        let force: Vec3Fx = sep_f.add(align_f).add(coh_f).add(fleet_f);
        let doubled: Vec3Fx = Vec3Fx::new(2 * force.x, 2 * force.y, 2 * force.z);
        let vel2: Vec3Fx = me.velocity.add(doubled);
        proof {
            lemma_abs_mul(vel2@.x, dt as int, 10_000_000_000_000, FLOCK_DT_MAX as int);
            lemma_abs_mul(vel2@.y, dt as int, 10_000_000_000_000, FLOCK_DT_MAX as int);
            lemma_abs_mul(vel2@.z, dt as int, 10_000_000_000_000, FLOCK_DT_MAX as int);
            lemma_fx_mul_s_le(vel2@.x, dt as int, 100_000_000_000_000);
            lemma_fx_mul_s_le(vel2@.y, dt as int, 100_000_000_000_000);
            lemma_fx_mul_s_le(vel2@.z, dt as int, 100_000_000_000_000);
        }
        let pos2: Vec3Fx = me.position.add(vel2.scale_fx(dt));
        out.push(Agent { position: pos2, velocity: vel2 });
        i = i + 1;
    }
    out
}

/// Where agent `i` starts: on a ring of radius 20 at height 10, at
/// angle `i * 10` radians (a pseudo-even scatter around the circle),
/// with zero velocity.
pub open spec fn ring_agent_s(i: int) -> AgentV {
    AgentV {
        position: V3 {
            x: crate::fx::fx_mul_s(crate::quat::sin_full_s(i * 10_000_000), 20_000_000),
            y: 10_000_000,
            z: crate::fx::fx_mul_s(crate::quat::cos_full_s(i * 10_000_000), 20_000_000),
        },
        velocity: zero_v(),
    }
}

/// Spawn the configured number of agents on the ring, at rest.
pub fn setup_enemy(cfg: &SimulationConfig) -> (r: Vec<Agent>)
    requires
        cfg.enemy_count <= 100_000,
    ensures
        r.len() == cfg.enemy_count,
        forall|i: int| 0 <= i < r.len() ==> #[trigger] r[i]@ == ring_agent_s(i),
        agents_bounded(r@),
{
    let count: u32 = cfg.enemy_count;
    let mut out: Vec<Agent> = Vec::new();
    let mut i: u32 = 0;
    while i < count
        invariant
            count <= 100_000,
            0 <= i <= count,
            out.len() == i,
            forall|k: int| 0 <= k < i ==> #[trigger] out[k]@ == ring_agent_s(k),
            forall|k: int|
                0 <= k < i ==> bounded_v(#[trigger] out[k]@.position, AGENT_LIM as int)
                    && bounded_v(out[k]@.velocity, AGENT_LIM as int),
        decreases count - i,
    {
        let angle: u64 = (i as u64) * 10_000_000;
        let sx: i64 = crate::quat::sin_full(angle);
        let cz: i64 = crate::quat::cos_full(angle);
        proof {
            lemma_abs_mul(sx as int, 20_000_000, 10_000_000, 20_000_000);
            lemma_abs_mul(cz as int, 20_000_000, 10_000_000, 20_000_000);
            lemma_fx_mul_s_le(sx as int, 20_000_000, 200_000_000);
            lemma_fx_mul_s_le(cz as int, 20_000_000, 200_000_000);
        }
        let x: i64 = crate::fx::fx_mul(sx, 20_000_000);
        let z: i64 = crate::fx::fx_mul(cz, 20_000_000);
        out.push(
            Agent {
                position: Vec3Fx::new(x, 10_000_000, z),
                velocity: Vec3Fx::zero(),
            },
        );
        i = i + 1;
    }
    out
}

/// The O(n) neighbor scan for one agent: accumulates the separation,
/// alignment and cohesion terms and the shared neighbor counter over
/// the whole (previous-tick) snapshot, skipping the agent itself.
fn scan_neighbors(agents: &Vec<Agent>, i: usize, cfg: &SimulationConfig) -> (r: (
    Vec3Fx,
    Vec3Fx,
    Vec3Fx,
    i64,
))
    requires
        config_wf(*cfg),
        i < agents.len() <= MAX_AGENTS,
        agents_bounded(agents@),
    ensures
        r.0@ == sep_scan(agents@, i as int, agents.len() as int, *cfg),
        r.1@ == align_scan(agents@, i as int, agents.len() as int, *cfg),
        r.2@ == coh_scan(agents@, i as int, agents.len() as int, *cfg),
        r.3 as int == count_scan(agents@, i as int, agents.len() as int, *cfg),
        bounded_v(r.0@, 10_000_000_000_000_000),
        bounded_v(r.1@, 10_000_000_000_000_000),
        bounded_v(r.2@, 10_000_000_000_000_000),
        0 <= r.3 as int <= 3 * agents.len(),
{
    let ghost s = agents@;
    let n: usize = agents.len();
    let me: Agent = agents[i];
    let mut sep: Vec3Fx = Vec3Fx::zero();
    let mut align: Vec3Fx = Vec3Fx::zero();
    let mut coh: Vec3Fx = Vec3Fx::zero();
    let mut cnt: i64 = 0;
    let mut j: usize = 0;
    while j < n
        invariant
            n == agents.len() <= MAX_AGENTS,
            s == agents@,
            config_wf(*cfg),
            agents_bounded(s),
            0 <= i < n,
            me == agents[i as int],
            0 <= j <= n,
            sep@ == sep_scan(s, i as int, j as int, *cfg),
            align@ == align_scan(s, i as int, j as int, *cfg),
            coh@ == coh_scan(s, i as int, j as int, *cfg),
            cnt as int == count_scan(s, i as int, j as int, *cfg),
            bounded_v(sep@, j as int * 1_000_000_000_000),
            bounded_v(align@, j as int * 1_000_000_000_000),
            bounded_v(coh@, j as int * 1_000_000_000_000),
            0 <= cnt as int <= 3 * j as int,
        decreases n - j,
    {
        proof {
            assert(bounded_v(s[i as int]@.position, AGENT_LIM as int));
            assert(bounded_v(s[j as int]@.position, AGENT_LIM as int));
            assert(bounded_v(s[j as int]@.velocity, AGENT_LIM as int));
        }
        if j != i {
            let other: Agent = agents[j];
            let d: i64 = me.position.dist(other.position);
            if d < cfg.separation_distance && d > 0 {
                let diff: Vec3Fx = me.position.sub(other.position);
                sep = sep.add(diff.normalize().div_fx(d));
                cnt = cnt + 1;
            }
            if d < cfg.alignment_distance {
                align = align.add(other.velocity);
                cnt = cnt + 1;
            }
            if d < cfg.cohesion_distance {
                coh = coh.add(other.position);
                cnt = cnt + 1;
            }
        }
        j = j + 1;
    }
    (sep, align, coh, cnt)
}

/// Averaging an accumulator cannot grow its components.
proof fn lemma_divn_bounded(a: V3, cnt: int)
    requires
        cnt >= 1,
    ensures
        abs_i(divn_v(a, cnt).x) <= abs_i(a.x),
        abs_i(divn_v(a, cnt).y) <= abs_i(a.y),
        abs_i(divn_v(a, cnt).z) <= abs_i(a.z),
{
    lemma_tdiv_shrinks(a.x, cnt);
    lemma_tdiv_shrinks(a.y, cnt);
    lemma_tdiv_shrinks(a.z, cnt);
}

/// Separation symmetry: the raw (pre-clamp) separation terms two
/// agents within range compute for each other point in exactly
/// opposite directions, and the distance itself is symmetric.
pub proof fn lemma_separation_symmetry(a: V3, b: V3)
    requires
        dist_v(a, b) > 0,
    ensures
        dist_v(a, b) == dist_v(b, a),
        sep_contrib(b, a) == neg_v(sep_contrib(a, b)),
{
    lemma_dist_symmetric(a, b);
    let v = sub_v(a, b);
    assert(sub_v(b, a) == neg_v(v));
    lemma_normalize_neg(v);
    let nv = normalize_v(v);
    let d = dist_v(a, b);
    lemma_tdiv((-nv.x) * (FX_ONE as int), d);
    lemma_tdiv((-nv.y) * (FX_ONE as int), d);
    lemma_tdiv((-nv.z) * (FX_ONE as int), d);
    assert((-nv.x) * (FX_ONE as int) == -(nv.x * (FX_ONE as int))) by (nonlinear_arith);
    assert((-nv.y) * (FX_ONE as int) == -(nv.y * (FX_ONE as int))) by (nonlinear_arith);
    assert((-nv.z) * (FX_ONE as int) == -(nv.z * (FX_ONE as int))) by (nonlinear_arith);
}

/// Distance is symmetric: opposite difference vectors have the same
/// sum of squares.
pub proof fn lemma_dist_symmetric(a: V3, b: V3)
    ensures
        dist_v(a, b) == dist_v(b, a),
        sumsq_v(sub_v(a, b)) == sumsq_v(sub_v(b, a)),
{
    let v = sub_v(a, b);
    let w = sub_v(b, a);
    assert(sumsq_v(v) == sumsq_v(w)) by (nonlinear_arith)
        requires
            w.x == -v.x && w.y == -v.y && w.z == -v.z,
            sumsq_v(v) == v.x * v.x + v.y * v.y + v.z * v.z,
            sumsq_v(w) == w.x * w.x + w.y * w.y + w.z * w.z,
    ;
}

/// Normalizing a negated vector negates the normalization.
proof fn lemma_normalize_neg(v: V3)
    ensures
        normalize_v(neg_v(v)) == neg_v(normalize_v(v)),
{
    let w = neg_v(v);
    assert(sumsq_v(w) == sumsq_v(v)) by (nonlinear_arith)
        requires
            w.x == -v.x && w.y == -v.y && w.z == -v.z,
            sumsq_v(v) == v.x * v.x + v.y * v.y + v.z * v.z,
            sumsq_v(w) == w.x * w.x + w.y * w.y + w.z * w.z,
    ;
    crate::fx::lemma_sq_nonneg(v.x);
    crate::fx::lemma_sq_nonneg(v.y);
    crate::fx::lemma_sq_nonneg(v.z);
    crate::fx::lemma_sqrt_floor(sumsq_v(v));
    let n = norm_v(v);
    if n != 0 {
        lemma_tdiv((-v.x) * (FX_ONE as int), n);
        lemma_tdiv((-v.y) * (FX_ONE as int), n);
        lemma_tdiv((-v.z) * (FX_ONE as int), n);
        assert((-v.x) * (FX_ONE as int) == -(v.x * (FX_ONE as int))) by (nonlinear_arith);
        assert((-v.y) * (FX_ONE as int) == -(v.y * (FX_ONE as int))) by (nonlinear_arith);
        assert((-v.z) * (FX_ONE as int) == -(v.z * (FX_ONE as int))) by (nonlinear_arith);
    }
}

/// Neighbor-radius boundary exclusivity: an agent at distance exactly
/// equal to a radius is not a neighbor for that behavior — all three
/// conditions are strict.
pub proof fn lemma_radius_boundary_exclusive(me: V3, other: V3, cfg: SimulationConfig)
    ensures
        dist_v(me, other) == cfg.separation_distance as int ==> !sep_neighbor(me, other, cfg),
        dist_v(me, other) == cfg.alignment_distance as int ==> !align_neighbor(me, other, cfg),
        dist_v(me, other) == cfg.cohesion_distance as int ==> !coh_neighbor(me, other, cfg),
{
}

/// Deterministic tick: the committed next state of each agent is a
/// pure function of the snapshot, so two evaluations of one tick over
/// equal snapshots, configs and players agree exactly, agent by agent.
pub proof fn lemma_deterministic_tick(
    s1: Seq<Agent>,
    s2: Seq<Agent>,
    i: int,
    player: Option<Vec3Fx>,
    dt: int,
    cfg: SimulationConfig,
)
    requires
        s1 == s2,
    ensures
        step_agent_s(s1, i, player, dt, cfg) == step_agent_s(s2, i, player, dt, cfg),
{
}

/// The separation combiner of one scanned agent, as a fold step.
pub open spec fn sep_step(me: V3, cfg: SimulationConfig) -> spec_fn(V3, Agent) -> V3 {
    |acc: V3, a: Agent|
        if sep_neighbor(me, a@.position, cfg) {
            add_v(acc, sep_contrib(me, a@.position))
        } else {
            acc
        }
}

/// The alignment combiner.
pub open spec fn align_step(me: V3, cfg: SimulationConfig) -> spec_fn(V3, Agent) -> V3 {
    |acc: V3, a: Agent|
        if align_neighbor(me, a@.position, cfg) {
            add_v(acc, a@.velocity)
        } else {
            acc
        }
}

/// The cohesion combiner.
pub open spec fn coh_step(me: V3, cfg: SimulationConfig) -> spec_fn(V3, Agent) -> V3 {
    |acc: V3, a: Agent|
        if coh_neighbor(me, a@.position, cfg) {
            add_v(acc, a@.position)
        } else {
            acc
        }
}

/// The shared-counter combiner.
pub open spec fn count_step(me: V3, cfg: SimulationConfig) -> spec_fn(int, Agent) -> int {
    |acc: int, a: Agent|
        acc + (if sep_neighbor(me, a@.position, cfg) {
            1int
        } else {
            0int
        }) + (if align_neighbor(me, a@.position, cfg) {
            1int
        } else {
            0int
        }) + (if coh_neighbor(me, a@.position, cfg) {
            1int
        } else {
            0int
        })
}

/// Each prefix scan is the fold of its combiner over the same prefix
/// with the agent itself removed.
proof fn lemma_scans_are_folds(s: Seq<Agent>, i: int, k: int, cfg: SimulationConfig)
    requires
        0 <= i < s.len(),
        0 <= k <= s.len(),
    ensures
        k <= i ==> {
            let p = s.subrange(0, k);
            &&& sep_scan(s, i, k, cfg) == p.fold_left(zero_v(), sep_step(s[i]@.position, cfg))
            &&& align_scan(s, i, k, cfg) == p.fold_left(zero_v(), align_step(s[i]@.position, cfg))
            &&& coh_scan(s, i, k, cfg) == p.fold_left(zero_v(), coh_step(s[i]@.position, cfg))
            &&& count_scan(s, i, k, cfg) == p.fold_left(0int, count_step(s[i]@.position, cfg))
        },
        k > i ==> {
            let p = s.remove(i).subrange(0, k - 1);
            &&& sep_scan(s, i, k, cfg) == p.fold_left(zero_v(), sep_step(s[i]@.position, cfg))
            &&& align_scan(s, i, k, cfg) == p.fold_left(zero_v(), align_step(s[i]@.position, cfg))
            &&& coh_scan(s, i, k, cfg) == p.fold_left(zero_v(), coh_step(s[i]@.position, cfg))
            &&& count_scan(s, i, k, cfg) == p.fold_left(0int, count_step(s[i]@.position, cfg))
        },
    decreases k,
{
    if k > 0 {
        lemma_scans_are_folds(s, i, k - 1, cfg);
        if k <= i {
            let p = s.subrange(0, k);
            assert(p.drop_last() =~= s.subrange(0, k - 1));
            assert(p.last() == s[k - 1]);
        } else if k - 1 == i {
            assert(s.remove(i).subrange(0, k - 1) =~= s.subrange(0, k - 1));
        } else {
            let p = s.remove(i).subrange(0, k - 1);
            assert(p.drop_last() =~= s.remove(i).subrange(0, k - 2));
            assert(p.last() == s.remove(i)[k - 2]);
            assert(s.remove(i)[k - 2] == s[k - 1]);
        }
    }
}

/// Order independence within a tick: an agent's committed next state
/// depends only on its own previous state and the multiset of the
/// other agents' previous states — where the agent sits in the array,
/// and in what order the others are scanned, cannot matter, because
/// every accumulator is a commutative integer sum over the snapshot.
pub proof fn lemma_step_order_independent(
    s1: Seq<Agent>,
    i1: int,
    s2: Seq<Agent>,
    i2: int,
    player: Option<Vec3Fx>,
    dt: int,
    cfg: SimulationConfig,
)
    requires
        0 <= i1 < s1.len(),
        0 <= i2 < s2.len(),
        s1[i1] == s2[i2],
        s1.remove(i1).to_multiset() == s2.remove(i2).to_multiset(),
    ensures
        step_agent_s(s1, i1, player, dt, cfg) == step_agent_s(s2, i2, player, dt, cfg),
{
    broadcast use vstd::seq_lib::group_to_multiset_ensures;

    let me = s1[i1]@.position;
    let o1 = s1.remove(i1);
    let o2 = s2.remove(i2);
    assert(o1.len() == o1.to_multiset().len());
    assert(o2.len() == o2.to_multiset().len());
    lemma_scans_are_folds(s1, i1, s1.len() as int, cfg);
    lemma_scans_are_folds(s2, i2, s2.len() as int, cfg);
    assert(o1.subrange(0, s1.len() - 1) =~= o1);
    assert(o2.subrange(0, s2.len() - 1) =~= o2);
    assert(vstd::seq_lib::commutative_foldl(sep_step(me, cfg))) by {
        lemma_add_v_commutes();
    }
    assert(vstd::seq_lib::commutative_foldl(align_step(me, cfg))) by {
        lemma_add_v_commutes();
    }
    assert(vstd::seq_lib::commutative_foldl(coh_step(me, cfg))) by {
        lemma_add_v_commutes();
    }
    assert(vstd::seq_lib::commutative_foldl(count_step(me, cfg)));
    vstd::seq_lib::lemma_fold_left_permutation(o1, o2, sep_step(me, cfg), zero_v());
    vstd::seq_lib::lemma_fold_left_permutation(o1, o2, align_step(me, cfg), zero_v());
    vstd::seq_lib::lemma_fold_left_permutation(o1, o2, coh_step(me, cfg), zero_v());
    vstd::seq_lib::lemma_fold_left_permutation(o1, o2, count_step(me, cfg), 0int);
}

/// Adding accumulated vector terms commutes: the algebraic heart of
/// order independence.
proof fn lemma_add_v_commutes()
    ensures
        forall|v: V3, a: V3, b: V3| add_v(add_v(v, a), b) == add_v(add_v(v, b), a),
{
}

} // verus!

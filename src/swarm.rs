//! The agent store and the tick that advances every agent.
use vstd::prelude::*;
use crate::agent::{next_state, Boid, DecayConfig, KrillState, LifecycleEvent};
use crate::avoidance::{krill_avoid_obstical, krill_avoid_player, obstacle_avoidance, predator_push};
use crate::config::FlockConfig;
use crate::motion::{
    accumulate, boid_flock, flock_acceleration, integrate_velocity, krill_rotate_to_face_vel_vec,
    krill_update_velocity, next_heading, DT_LIMIT,
};
use crate::steering::{
    align_force, boid_align, boid_cohesion, boid_seperation, cohesion_force, separation_force,
    snapshot_ok, MAX_AGENTS,
};
use crate::vector::{lemma_component_bound, len2, vadd, IVec, Vec2};

verus! {

/// Why the store refused a request.
#[derive(Clone, Copy, Debug, PartialEq, Eq, Structural)]
pub enum SwarmError {
    /// The store already holds `MAX_AGENTS` agents.
    Full,
    /// Every handle has been handed out.
    HandlesExhausted,
    /// A position or velocity lies outside the stored range.
    OutOfRange,
    /// No live agent has this handle.
    NotFound,
}

/// Everything that acts on a moving agent during one tick, summed.
pub open spec fn moving_acceleration(a: Boid, s: Seq<Boid>, c: FlockConfig, predator: Option<Vec2>) -> IVec {
    vadd(
        vadd(
            flock_acceleration(align_force(a, s, c), separation_force(a, s, c), cohesion_force(a, s, c), c),
            predator_push(a.position@, predator, c),
        ),
        obstacle_avoidance(a.position@, c),
    )
}

/// Decay time after `dt` more milliseconds, saturating.
pub open spec fn later(elapsed: u64, dt: int) -> u64 {
    if elapsed + dt > u64::MAX {
        u64::MAX
    } else {
        (elapsed + dt) as u64
    }
}

/// `b` is `a` one tick of `dt` milliseconds later, all forces computed from
/// the pre-tick snapshot `s`.
pub open spec fn stepped(a: Boid, b: Boid, s: Seq<Boid>, c: FlockConfig, predator: Option<Vec2>, dt: int) -> bool {
    &&& b.id == a.id
    &&& b.position == a.position
    &&& b.acceleration@ == (0int, 0int)
    &&& match a.state {
        KrillState::Moving => {
            let v = integrate_velocity(a.velocity@, moving_acceleration(a, s, c, predator), c.max_speed as int, dt);
            &&& b.state == a.state
            &&& b.velocity@ == v
            &&& b.heading@ == next_heading(a.heading@, v)
        },
        KrillState::Idle => b.velocity == a.velocity && b.heading == a.heading && b.state == a.state,
        KrillState::Dead { elapsed } => {
            &&& b.velocity == a.velocity
            &&& b.heading == a.heading
            &&& b.state == KrillState::Dead { elapsed: later(elapsed, dt) }
        },
    }
}

/// A dead agent whose decay has run its full course.
pub open spec fn decayed(b: Boid, d: DecayConfig) -> bool {
    match b.state {
        KrillState::Dead { elapsed } => elapsed > d.duration,
        _ => false,
    }
}

/// The agents of `s` that have not finished decaying, in order.
pub open spec fn survivors(s: Seq<Boid>, d: DecayConfig) -> Seq<Boid>
    decreases s.len(),
{
    if s.len() == 0 {
        s
    } else {
        let rest = survivors(s.drop_last(), d);
        if decayed(s.last(), d) {
            rest
        } else {
            rest.push(s.last())
        }
    }
}

/// No two agents share a handle.
pub open spec fn unique_ids(s: Seq<Boid>) -> bool {
    forall|i: int, j: int| 0 <= i < s.len() && 0 <= j < s.len() && i != j ==> s[i].id != s[j].id
}

/// One agent advanced by one tick against the pre-tick snapshot.
pub fn step_agent(
    agent: &Boid,
    snapshot: &Vec<Boid>,
    config: &FlockConfig,
    predator: Option<Vec2>,
    dt: u64,
) -> (b: Boid)
    requires
        config.wf(),
        agent.wf(),
        snapshot_ok(snapshot@),
        predator matches Some(q) ==> q.bounded(),
        dt <= DT_LIMIT,
    ensures
        stepped(*agent, b, snapshot@, *config, predator, dt as int),
        b.wf(),
        agent.state is Moving ==> len2(b.velocity@) <= config.max_speed * config.max_speed,
{
    match agent.state {
        KrillState::Moving => {
            let al = boid_align(agent, snapshot, config);
            let se = boid_seperation(agent, snapshot, config);
            let co = boid_cohesion(agent, snapshot, config);
            proof {
                lemma_component_bound(al.vec@, config.max_force as int);
                lemma_component_bound(se.vec@, config.max_force as int);
                lemma_component_bound(co.vec@, config.max_force as int);
            }
            let mut acc = Vec2::zero();
            boid_flock(&mut acc, &al, &se, &co, config);
            let pp = krill_avoid_player(agent.position, predator, config);
            accumulate(&mut acc, pp);
            let ob = krill_avoid_obstical(agent.position, config);
            accumulate(&mut acc, ob);
            let mut b = *agent;
            b.acceleration = acc;
            krill_update_velocity(&mut b, config, dt);
            krill_rotate_to_face_vel_vec(&mut b);
            b
        },
        KrillState::Idle => *agent,
        KrillState::Dead { elapsed } => {
            let mut b = *agent;
            b.state = KrillState::Dead { elapsed: elapsed.saturating_add(dt) };
            b
        },
    }
}

/// The live agents of one simulation. Handles are never reused.
pub struct Swarm {
    agents: Vec<Boid>,
    next_id: u64,
}

impl Swarm {
    /// The agents, in store order.
    pub closed spec fn view(&self) -> Seq<Boid> {
        self.agents@
    }

    /// The handle the next spawned agent receives.
    pub closed spec fn next_handle(&self) -> u64 {
        self.next_id
    }

    pub closed spec fn wf(&self) -> bool {
        &&& self.agents@.len() <= MAX_AGENTS
        &&& unique_ids(self.agents@)
        &&& forall|i: int|
            0 <= i < self.agents@.len() ==> (#[trigger] self.agents@[i]).wf() && self.agents@[i].id
                < self.next_id
    }

    /// What a well-formed store promises of its agents.
    pub proof fn lemma_wf(&self)
        requires
            self.wf(),
        ensures
            self@.len() <= MAX_AGENTS,
            unique_ids(self@),
            forall|i: int|
                0 <= i < self@.len() ==> (#[trigger] self@[i]).wf() && self@[i].id < self.next_handle(),
    {
    }

    pub fn new() -> (r: Swarm)
        ensures
            r.wf(),
            r@ == Seq::<Boid>::empty(),
            r.next_handle() == 0,
    {
        Swarm { agents: Vec::new(), next_id: 0 }
    }

    /// The agents, in store order.
    pub fn agents(&self) -> (r: &Vec<Boid>)
        ensures
            r@ == self@,
    {
        &self.agents
    }

    pub fn len(&self) -> (r: usize)
        ensures
            r == self@.len(),
    {
        self.agents.len()
    }

    /// Index of the agent with handle `id`.
    pub fn find(&self, id: u64) -> (r: Option<usize>)
        ensures
            r matches Some(k) ==> k < self@.len() && self@[k as int].id == id,
            r is None ==> forall|i: int| 0 <= i < self@.len() ==> self@[i].id != id,
    {
        let mut j: usize = 0;
        while j < self.agents.len()
            invariant
                j <= self.agents@.len(),
                forall|i: int| 0 <= i < j ==> self.agents@[i].id != id,
            decreases self.agents@.len() - j,
        {
            if self.agents[j].id == id {
                return Some(j);
            }
            j += 1;
        }
        None
    }

    /// Adds an agent and returns its fresh handle.
    pub fn spawn(&mut self, position: Vec2, velocity: Vec2, state: KrillState) -> (r: Result<u64, SwarmError>)
        requires
            old(self).wf(),
        ensures
            final(self).wf(),
            r == Err::<u64, SwarmError>(SwarmError::Full) <==> old(self)@.len() >= MAX_AGENTS,
            r == Err::<u64, SwarmError>(SwarmError::HandlesExhausted) <==> old(self)@.len() < MAX_AGENTS
                && old(self).next_handle() == u64::MAX,
            r == Err::<u64, SwarmError>(SwarmError::OutOfRange) <==> old(self)@.len() < MAX_AGENTS
                && old(self).next_handle() < u64::MAX && !(position.bounded() && velocity.bounded()),
            r != Err::<u64, SwarmError>(SwarmError::NotFound),
            r is Err ==> final(self)@ == old(self)@ && final(self).next_handle() == old(self).next_handle(),
            r matches Ok(id) ==> {
                &&& id == old(self).next_handle()
                &&& final(self).next_handle() == id + 1
                &&& final(self)@ == old(self)@.push(
                    Boid {
                        id,
                        position,
                        velocity,
                        acceleration: Vec2 { x: 0, y: 0 },
                        heading: velocity,
                        state,
                    },
                )
                &&& forall|i: int| 0 <= i < old(self)@.len() ==> old(self)@[i].id != id
            },
    {
        if self.agents.len() >= MAX_AGENTS {
            return Err(SwarmError::Full);
        }
        if self.next_id == u64::MAX {
            return Err(SwarmError::HandlesExhausted);
        }
        if !(-0x1000_0000 <= position.x && position.x <= 0x1000_0000 && -0x1000_0000 <= position.y
            && position.y <= 0x1000_0000 && -0x1000_0000 <= velocity.x && velocity.x <= 0x1000_0000
            && -0x1000_0000 <= velocity.y && velocity.y <= 0x1000_0000) {
            return Err(SwarmError::OutOfRange);
        }
        let id = self.next_id;
        let b = Boid::new(id, position, velocity, state);
        assert(b.acceleration == Vec2 { x: 0, y: 0 });
        self.agents.push(b);
        self.next_id = id + 1;
        Ok(id)
    }

    /// Removes the agent with handle `id`, as when the predator eats it.
    pub fn remove(&mut self, id: u64) -> (r: bool)
        requires
            old(self).wf(),
        ensures
            final(self).wf(),
            final(self).next_handle() == old(self).next_handle(),
            r == exists|i: int| 0 <= i < old(self)@.len() && old(self)@[i].id == id,
            !r ==> final(self)@ == old(self)@,
            r ==> exists|k: int|
                0 <= k < old(self)@.len() && old(self)@[k].id == id && final(self)@ == old(
                    self,
                )@.remove(k),
    {
        match self.find(id) {
            None => false,
            Some(k) => {
                let ghost before = self.agents@;
                self.agents.remove(k);
                assert(self.agents@ == before.remove(k as int));
                assert forall|i: int, j: int|
                    0 <= i < self.agents@.len() && 0 <= j < self.agents@.len() && i != j implies
                    self.agents@[i].id != self.agents@[j].id by {
                    let oi = if i < k { i } else { i + 1 };
                    let oj = if j < k { j } else { j + 1 };
                    assert(self.agents@[i] == before[oi]);
                    assert(self.agents@[j] == before[oj]);
                }
                assert forall|i: int| 0 <= i < self.agents@.len() implies (#[trigger] self.agents@[i]).wf()
                    && self.agents@[i].id < self.next_id by {
                    let oi = if i < k { i } else { i + 1 };
                    assert(self.agents@[i] == before[oi]);
                }
                true
            },
        }
    }

    /// Applies a lifecycle signal to the agent with handle `id`.
    pub fn apply_event(&mut self, id: u64, event: LifecycleEvent) -> (r: bool)
        requires
            old(self).wf(),
        ensures
            final(self).wf(),
            final(self).next_handle() == old(self).next_handle(),
            r == exists|i: int| 0 <= i < old(self)@.len() && old(self)@[i].id == id,
            !r ==> final(self)@ == old(self)@,
            r ==> exists|k: int|
                0 <= k < old(self)@.len() && old(self)@[k].id == id && final(self)@ == old(
                    self,
                )@.update(k, Boid { state: next_state(old(self)@[k].state, event), ..old(self)@[k] }),
    {
        match self.find(id) {
            None => false,
            Some(k) => {
                let mut b = self.agents[k];
                b.state = b.state.apply(event);
                self.agents.set(k, b);
                assert(forall|i: int| 0 <= i < self.agents@.len() && i != k ==> self.agents@[i] == old(self).agents@[i]);
                true
            },
        }
    }

    /// Overwrites the position and velocity of the agent with handle `id`, as
    /// the physics step does between ticks.
    pub fn sync(&mut self, id: u64, position: Vec2, velocity: Vec2) -> (r: Result<(), SwarmError>)
        requires
            old(self).wf(),
        ensures
            final(self).wf(),
            final(self).next_handle() == old(self).next_handle(),
            r == Err::<(), SwarmError>(SwarmError::OutOfRange) <==> !(position.bounded() && velocity.bounded()),
            r == Err::<(), SwarmError>(SwarmError::NotFound) <==> position.bounded() && velocity.bounded()
                && forall|i: int| 0 <= i < old(self)@.len() ==> old(self)@[i].id != id,
            r is Err ==> final(self)@ == old(self)@,
            r is Ok ==> exists|k: int|
                0 <= k < old(self)@.len() && old(self)@[k].id == id && final(self)@ == old(
                    self,
                )@.update(k, Boid { position, velocity, ..old(self)@[k] }),
    {
        if !(-0x1000_0000 <= position.x && position.x <= 0x1000_0000 && -0x1000_0000 <= position.y
            && position.y <= 0x1000_0000 && -0x1000_0000 <= velocity.x && velocity.x <= 0x1000_0000
            && -0x1000_0000 <= velocity.y && velocity.y <= 0x1000_0000) {
            return Err(SwarmError::OutOfRange);
        }
        match self.find(id) {
            None => Err(SwarmError::NotFound),
            Some(k) => {
                let mut b = self.agents[k];
                b.position = position;
                b.velocity = velocity;
                self.agents.set(k, b);
                assert(forall|i: int| 0 <= i < self.agents@.len() && i != k ==> self.agents@[i] == old(self).agents@[i]);
                Ok(())
            },
        }
    }

    /// Advances every agent by `dt` milliseconds. Every force is computed
    /// from the agents as they stood before the tick.
    pub fn tick(&mut self, config: &FlockConfig, predator: Option<Vec2>, dt: u64)
        requires
            old(self).wf(),
            config.wf(),
            predator matches Some(q) ==> q.bounded(),
            dt <= DT_LIMIT,
        ensures
            final(self).wf(),
            final(self).next_handle() == old(self).next_handle(),
            final(self)@.len() == old(self)@.len(),
            forall|i: int|
                0 <= i < old(self)@.len() ==> stepped(
                    #[trigger] old(self)@[i],
                    final(self)@[i],
                    old(self)@,
                    *config,
                    predator,
                    dt as int,
                ),
            forall|i: int|
                0 <= i < old(self)@.len() && (#[trigger] old(self)@[i]).state is Moving ==> len2(
                    final(self)@[i].velocity@,
                ) <= config.max_speed * config.max_speed,
    {
        let n = self.agents.len();
        let mut next: Vec<Boid> = Vec::with_capacity(n);
        assert forall|i: int| 0 <= i < self.agents@.len() implies #[trigger] self.agents@[i].position.bounded()
            && self.agents@[i].velocity.bounded() by {
            assert(self.agents@[i].wf());
        }
        let mut j: usize = 0;
        while j < n
            invariant
                n == self.agents@.len(),
                self.wf(),
                self.agents@ == old(self).agents@,
                config.wf(),
                predator matches Some(q) ==> q.bounded(),
                dt <= DT_LIMIT,
                snapshot_ok(self.agents@),
                j <= n,
                next@.len() == j,
                forall|i: int|
                    0 <= i < j ==> stepped(
                        #[trigger] self.agents@[i],
                        next@[i],
                        self.agents@,
                        *config,
                        predator,
                        dt as int,
                    ) && next@[i].wf() && (self.agents@[i].state is Moving ==> len2(next@[i].velocity@)
                        <= config.max_speed * config.max_speed),
            decreases n - j,
        {
            assert(self.agents@[j as int].wf());
            let b = step_agent(&self.agents[j], &self.agents, config, predator, dt);
            next.push(b);
            j += 1;
        }
        assert forall|x: int, y: int|
            0 <= x < next@.len() && 0 <= y < next@.len() && x != y implies next@[x].id != next@[y].id by {
            assert(stepped(self.agents@[x], next@[x], self.agents@, *config, predator, dt as int));
            assert(stepped(self.agents@[y], next@[y], self.agents@, *config, predator, dt as int));
        }
        assert forall|i: int| 0 <= i < next@.len() implies (#[trigger] next@[i]).wf() && next@[i].id
            < self.next_id by {
            assert(stepped(self.agents@[i], next@[i], self.agents@, *config, predator, dt as int));
            assert(self.agents@[i].wf());
        }
        self.agents = next;
    }

    /// Removes every dead agent whose decay has run its full course.
    pub fn remove_decayed(&mut self, decay: &DecayConfig)
        requires
            old(self).wf(),
        ensures
            final(self).wf(),
            final(self).next_handle() == old(self).next_handle(),
            final(self)@ == survivors(old(self)@, *decay),
    {
        let mut kept: Vec<Boid> = Vec::new();
        let mut j: usize = 0;
        while j < self.agents.len()
            invariant
                self.wf(),
                self.agents@ == old(self).agents@,
                j <= self.agents@.len(),
                kept@ == survivors(self.agents@.take(j as int), *decay),
                kept@.len() <= j,
                unique_ids(kept@),
                forall|i: int|
                    0 <= i < kept@.len() ==> exists|m: int|
                        0 <= m < j && #[trigger] kept@[i] == self.agents@[m],
            decreases self.agents@.len() - j,
        {
            let b = self.agents[j];
            assert(self.agents@.take(j + 1).drop_last() =~= self.agents@.take(j as int));
            let gone = match b.state {
                KrillState::Dead { elapsed } => elapsed > decay.duration,
                _ => false,
            };
            if !gone {
                let ghost before = kept@;
                kept.push(b);
                assert forall|i: int| 0 <= i < kept@.len() implies exists|m: int|
                    0 <= m < j + 1 && #[trigger] kept@[i] == self.agents@[m] by {
                    if i < before.len() {
                        let m = choose|m: int| 0 <= m < j && #[trigger] before[i] == self.agents@[m];
                        assert(kept@[i] == self.agents@[m]);
                    } else {
                        assert(kept@[i] == self.agents@[j as int]);
                    }
                }
                assert forall|x: int, y: int|
                    0 <= x < kept@.len() && 0 <= y < kept@.len() && x != y implies kept@[x].id
                    != kept@[y].id by {
                    if x < before.len() && y < before.len() {
                        assert(kept@[x] == before[x] && kept@[y] == before[y]);
                    } else if x < before.len() {
                        let m = choose|m: int| 0 <= m < j && #[trigger] before[x] == self.agents@[m];
                        assert(kept@[x] == self.agents@[m]);
                    } else {
                        let m = choose|m: int| 0 <= m < j && #[trigger] before[y] == self.agents@[m];
                        assert(kept@[y] == self.agents@[m]);
                    }
                }
            }
            j += 1;
        }
        assert(self.agents@.take(self.agents@.len() as int) =~= self.agents@);
        assert forall|i: int| 0 <= i < kept@.len() implies (#[trigger] kept@[i]).wf() && kept@[i].id
            < self.next_id by {
            let m = choose|m: int| 0 <= m < self.agents@.len() && #[trigger] kept@[i] == self.agents@[m];
            assert(self.agents@[m].wf());
        }
        self.agents = kept;
    }
}

} // verus!

//! One krill: its persistent state and its lifecycle.
use vstd::prelude::*;
use crate::vector::{Vec2, trunc_div, div_toward_zero};

verus! {

/// Roll of a fully inverted agent, in thousandths of a degree.
pub const INVERTED_ROLL: u32 = 180_000;

/// Full intensity of a tint channel.
pub const TINT_FULL: u16 = 1000;

/// Behavioural state of an agent.
#[derive(Clone, Copy, Debug, PartialEq, Eq, Structural)]
pub enum KrillState {
    /// Full steering, avoidance and integration.
    Moving,
    /// Gentle bobbing; no steering.
    Idle,
    /// Terminal; `elapsed` milliseconds of decay so far.
    Dead { elapsed: u64 },
}

/// An external signal that may change an agent's state.
#[derive(Clone, Copy, Debug, PartialEq, Eq, Structural)]
pub enum LifecycleEvent {
    Pause,
    Resume,
    Kill,
}

/// The state after `event`; a dead agent stays as it is.
pub open spec fn next_state(s: KrillState, e: LifecycleEvent) -> KrillState {
    match s {
        KrillState::Dead { .. } => s,
        _ => match e {
            LifecycleEvent::Pause => KrillState::Idle,
            LifecycleEvent::Resume => KrillState::Moving,
            LifecycleEvent::Kill => KrillState::Dead { elapsed: 0 },
        },
    }
}

impl KrillState {
    pub fn apply(self, event: LifecycleEvent) -> (r: KrillState)
        ensures
            r == next_state(self, event),
    {
        match self {
            KrillState::Dead { .. } => self,
            _ => match event {
                LifecycleEvent::Pause => KrillState::Idle,
                LifecycleEvent::Resume => KrillState::Moving,
                LifecycleEvent::Kill => KrillState::Dead { elapsed: 0 },
            },
        }
    }

    pub fn is_moving(&self) -> (r: bool)
        ensures
            r == (*self is Moving),
    {
        match self {
            KrillState::Moving => true,
            _ => false,
        }
    }
}

/// One simulated krill. `heading` is the most recent non-zero velocity.
#[derive(Clone, Copy, Debug, PartialEq, Eq, Structural)]
pub struct Boid {
    pub id: u64,
    pub position: Vec2,
    pub velocity: Vec2,
    /// Per-tick accumulator; zero between ticks.
    pub acceleration: Vec2,
    pub heading: Vec2,
    pub state: KrillState,
}

impl Boid {
    /// Stored values are in range and the accumulator is clear.
    pub open spec fn wf(self) -> bool {
        &&& self.position.bounded()
        &&& self.velocity.bounded()
        &&& self.heading.bounded()
        &&& self.acceleration@ == (0int, 0int)
    }

    /// A new agent at `position`, moving with `velocity`, facing along it.
    pub fn new(id: u64, position: Vec2, velocity: Vec2, state: KrillState) -> (r: Boid)
        ensures
            r.id == id,
            r.position == position,
            r.velocity == velocity,
            r.acceleration@ == (0int, 0int),
            r.heading == velocity,
            r.state == state,
    {
        Boid { id, position, velocity, acceleration: Vec2::zero(), heading: velocity, state }
    }
}

/// A colour, each channel in thousandths of full intensity.
#[derive(Clone, Copy, Debug, PartialEq, Eq, Structural)]
pub struct Tint {
    pub r: u16,
    pub g: u16,
    pub b: u16,
}

impl Tint {
    pub open spec fn wf(self) -> bool {
        self.r <= TINT_FULL && self.g <= TINT_FULL && self.b <= TINT_FULL
    }
}

/// How a dead agent fades: over `duration` milliseconds its tint goes from
/// `start` to `target` and it rolls over onto its back.
#[derive(Clone, Copy, Debug, PartialEq, Eq, Structural)]
pub struct DecayConfig {
    pub duration: u64,
    pub start: Tint,
    pub target: Tint,
}

impl DecayConfig {
    pub open spec fn wf(self) -> bool {
        self.start.wf() && self.target.wf() && self.duration <= 0x1_0000_0000
    }

    /// White fading to light blue over one second.
    pub fn standard() -> (r: DecayConfig)
        ensures
            r.wf(),
            r.duration == 1000,
    {
        DecayConfig {
            duration: 1000,
            start: Tint { r: 1000, g: 1000, b: 1000 },
            target: Tint { r: 200, g: 200, b: 1000 },
        }
    }
}

/// A channel moved from `from` toward `to` by the fraction `elapsed / duration`.
pub open spec fn blend(from: int, to: int, elapsed: int, duration: int) -> int {
    if elapsed >= duration {
        to
    } else {
        from + trunc_div((to - from) * elapsed, duration)
    }
}

/// Tint of an agent `elapsed` milliseconds after it died.
pub open spec fn decay_tint(d: DecayConfig, elapsed: int) -> (int, int, int) {
    (
        blend(d.start.r as int, d.target.r as int, elapsed, d.duration as int),
        blend(d.start.g as int, d.target.g as int, elapsed, d.duration as int),
        blend(d.start.b as int, d.target.b as int, elapsed, d.duration as int),
    )
}

/// Roll of an agent `elapsed` milliseconds after it died.
pub open spec fn decay_roll(d: DecayConfig, elapsed: int) -> int {
    blend(0, INVERTED_ROLL as int, elapsed, d.duration as int)
}

proof fn lemma_blend_range(from: int, to: int, elapsed: int, duration: int)
    requires
        0 <= from <= TINT_FULL * 180,
        0 <= to <= TINT_FULL * 180,
        0 <= elapsed,
        0 <= duration,
    ensures
        from <= to ==> from <= blend(from, to, elapsed, duration) <= to,
        to <= from ==> to <= blend(from, to, elapsed, duration) <= from,
{
    if elapsed < duration {
        let p = (to - from) * elapsed;
        if to >= from {
            assert(0 <= p <= (to - from) * duration) by (nonlinear_arith)
                requires
                    p == (to - from) * elapsed,
                    to >= from,
                    0 <= elapsed < duration,
            ;
            assert(p / duration <= to - from) by (nonlinear_arith)
                requires
                    0 <= p <= (to - from) * duration,
                    duration > 0,
            ;
            assert(p / duration >= 0) by (nonlinear_arith)
                requires
                    0 <= p,
                    duration > 0,
            ;
        } else {
            let q = (from - to) * elapsed;
            assert(0 <= q <= (from - to) * duration) by (nonlinear_arith)
                requires
                    q == (from - to) * elapsed,
                    from > to,
                    0 <= elapsed < duration,
            ;
            assert(q / duration <= from - to) by (nonlinear_arith)
                requires
                    0 <= q <= (from - to) * duration,
                    duration > 0,
            ;
            assert(q / duration >= 0) by (nonlinear_arith)
                requires
                    0 <= q,
                    duration > 0,
            ;
            assert(p == -q) by (nonlinear_arith)
                requires
                    p == (to - from) * elapsed,
                    q == (from - to) * elapsed,
            ;
            if q == 0 {
                assert(0int / duration == 0);
            }
        }
    }
}

fn blend_exec(from: u32, to: u32, elapsed: u64, duration: u64) -> (r: u32)
    requires
        from <= TINT_FULL * 180,
        to <= TINT_FULL * 180,
        duration <= 0x1_0000_0000,
    ensures
        r == blend(from as int, to as int, elapsed as int, duration as int),
{
    proof {
        lemma_blend_range(from as int, to as int, elapsed as int, duration as int);
    }
    if elapsed >= duration {
        to
    } else {
        let diff = to as i128 - from as i128;
        assert(-(TINT_FULL * 180) <= diff <= TINT_FULL * 180);
        assert(diff * elapsed <= 180_000 * 0x1_0000_0000 && diff * elapsed >= -180_000 * 0x1_0000_0000)
            by (nonlinear_arith)
            requires
                -180_000 <= diff <= 180_000,
                0 <= elapsed < duration,
                duration <= 0x1_0000_0000,
        ;
        let step = div_toward_zero(diff * elapsed as i128, duration as i128);
        (from as i128 + step) as u32
    }
}

/// Tint of an agent `elapsed` milliseconds after it died.
pub fn death_tint(d: &DecayConfig, elapsed: u64) -> (r: Tint)
    requires
        d.wf(),
    ensures
        (r.r as int, r.g as int, r.b as int) == decay_tint(*d, elapsed as int),
        r.wf(),
{
    proof {
        lemma_blend_range(d.start.r as int, d.target.r as int, elapsed as int, d.duration as int);
        lemma_blend_range(d.start.g as int, d.target.g as int, elapsed as int, d.duration as int);
        lemma_blend_range(d.start.b as int, d.target.b as int, elapsed as int, d.duration as int);
    }
    let r = blend_exec(d.start.r as u32, d.target.r as u32, elapsed, d.duration);
    let g = blend_exec(d.start.g as u32, d.target.g as u32, elapsed, d.duration);
    let b = blend_exec(d.start.b as u32, d.target.b as u32, elapsed, d.duration);
    Tint { r: r as u16, g: g as u16, b: b as u16 }
}

/// Roll, in thousandths of a degree, of an agent `elapsed` milliseconds after it died.
pub fn death_roll(d: &DecayConfig, elapsed: u64) -> (r: u32)
    requires
        d.wf(),
    ensures
        r == decay_roll(*d, elapsed as int),
        r <= INVERTED_ROLL,
{
    proof {
        lemma_blend_range(0, INVERTED_ROLL as int, elapsed as int, d.duration as int);
    }
    blend_exec(0, INVERTED_ROLL, elapsed, d.duration)
}

/// Tick-scoped alignment force of one agent.
#[derive(Clone, Copy, Debug, PartialEq, Eq, Structural)]
pub struct Align {
    pub vec: Vec2,
}

/// Tick-scoped separation force of one agent.
#[derive(Clone, Copy, Debug, PartialEq, Eq, Structural)]
pub struct Seperation {
    pub vec: Vec2,
}

/// Tick-scoped cohesion force of one agent.
#[derive(Clone, Copy, Debug, PartialEq, Eq, Structural)]
pub struct Cohesion {
    pub vec: Vec2,
}

} // verus!

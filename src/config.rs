//! Flocking coefficients and the playable area, with their validity rules.
use vstd::prelude::*;
use crate::vector::COORD_LIMIT;

verus! {

/// Largest value of any single coefficient or distance.
pub const PARAM_LIMIT: i64 = 0x100_0000;

/// Largest strength of a single avoidance contribution.
pub const AVOID_LIMIT: i64 = 0x1_0000_0000_0000;

/// Weights are expressed in thousandths.
pub const WEIGHT_SCALE: i64 = 1000;

pub const DEFAULT_ALIGN_WEIGHT: i64 = 7600;
pub const DEFAULT_SEPARATION_WEIGHT: i64 = 1500;
pub const DEFAULT_COHESION_WEIGHT: i64 = 1200;

/// Weight of the alignment force, in thousandths.
#[derive(Clone, Copy, Debug, PartialEq, Eq, Structural)]
pub struct AlignCoe {
    pub mag: i64,
}

/// Weight of the separation force, in thousandths.
#[derive(Clone, Copy, Debug, PartialEq, Eq, Structural)]
pub struct SeperationCoe {
    pub mag: i64,
}

/// Weight of the cohesion force, in thousandths.
#[derive(Clone, Copy, Debug, PartialEq, Eq, Structural)]
pub struct CohesionCoe {
    pub mag: i64,
}

impl Default for AlignCoe {
    fn default() -> (r: AlignCoe)
        ensures
            r.mag == DEFAULT_ALIGN_WEIGHT,
    {
        AlignCoe { mag: DEFAULT_ALIGN_WEIGHT }
    }
}

impl Default for SeperationCoe {
    fn default() -> (r: SeperationCoe)
        ensures
            r.mag == DEFAULT_SEPARATION_WEIGHT,
    {
        SeperationCoe { mag: DEFAULT_SEPARATION_WEIGHT }
    }
}

impl Default for CohesionCoe {
    fn default() -> (r: CohesionCoe)
        ensures
            r.mag == DEFAULT_COHESION_WEIGHT,
    {
        CohesionCoe { mag: DEFAULT_COHESION_WEIGHT }
    }
}

/// The rectangle bounded by the four walls.
#[derive(Clone, Copy, Debug, PartialEq, Eq, Structural)]
pub struct Arena {
    pub left: i64,
    pub right: i64,
    pub bottom: i64,
    pub top: i64,
}

/// How a repulsion weakens with distance `d`: as `1/d` or as `1/d²`.
#[derive(Clone, Copy, Debug, PartialEq, Eq, Structural)]
pub enum Falloff {
    Linear,
    Square,
}

/// The numerator of a push of `magnitude` at `reference` distance: the push
/// at distance `d` is this over `d` (linear) or over `d²` (square).
pub open spec fn falloff_strength(magnitude: int, reference: int, f: Falloff) -> int {
    match f {
        Falloff::Linear => magnitude * reference,
        Falloff::Square => magnitude * reference * reference,
    }
}

/// The numerator of a push of `magnitude` at `reference` distance.
pub fn strength(magnitude: i64, reference: i64, f: Falloff) -> (r: i128)
    requires
        0 <= magnitude <= PARAM_LIMIT,
        0 <= reference <= PARAM_LIMIT,
    ensures
        r == falloff_strength(magnitude as int, reference as int, f),
        0 <= r <= PARAM_LIMIT * PARAM_LIMIT * PARAM_LIMIT,
{
    let m = magnitude as i128;
    let r = reference as i128;
    assert(0 <= m * r <= PARAM_LIMIT * PARAM_LIMIT) by (nonlinear_arith)
        requires
            0 <= m <= PARAM_LIMIT,
            0 <= r <= PARAM_LIMIT,
    ;
    assert(0 <= m * r * r <= PARAM_LIMIT * PARAM_LIMIT * PARAM_LIMIT) by (nonlinear_arith)
        requires
            0 <= m * r <= PARAM_LIMIT * PARAM_LIMIT,
            0 <= r <= PARAM_LIMIT,
    ;
    assert(PARAM_LIMIT * PARAM_LIMIT <= PARAM_LIMIT * PARAM_LIMIT * PARAM_LIMIT);
    match f {
        Falloff::Linear => m * r,
        Falloff::Square => m * r * r,
    }
}

/// The coefficients read by every agent on every tick.
#[derive(Clone, Copy, Debug, PartialEq, Eq, Structural)]
pub struct FlockConfig {
    pub align: AlignCoe,
    pub separation: SeperationCoe,
    pub cohesion: CohesionCoe,
    /// Radius of the alignment neighbourhood.
    pub perception_radius: i64,
    /// Radius of the separation neighbourhood, at most `perception_radius`.
    pub separation_radius: i64,
    /// Radius of the cohesion neighbourhood.
    pub cohesion_radius: i64,
    /// Distances at or below this count as coincident.
    pub near_zero: i64,
    pub max_force: i64,
    pub max_speed: i64,
    /// The predator repels within this distance.
    pub predator_range: i64,
    pub predator_magnitude: i64,
    /// Distance at which the predator's push equals `predator_magnitude`.
    pub predator_reference: i64,
    pub predator_falloff: Falloff,
    /// A wall repels within this distance.
    pub obstacle_range: i64,
    pub obstacle_magnitude: i64,
    /// Distance at which a wall's push equals `obstacle_magnitude`.
    pub obstacle_reference: i64,
    pub obstacle_falloff: Falloff,
    pub arena: Arena,
}

/// Why a configuration was refused.
#[derive(Clone, Copy, Debug, PartialEq, Eq, Structural)]
pub enum ConfigError {
    /// A weight, radius, speed or force is negative.
    Negative,
    /// A coefficient exceeds `PARAM_LIMIT`.
    TooLarge,
    /// `near_zero` is not positive.
    ZeroTolerance,
    /// The separation radius exceeds the perception radius.
    SeparationWiderThanPerception,
    /// An avoidance push could exceed `AVOID_LIMIT`.
    AvoidanceTooStrong,
    /// The arena is empty or leaves the coordinate range.
    BadArena,
}

/// The square of a coefficient.
pub fn square_param(v: i64) -> (r: i128)
    requires
        0 <= v <= PARAM_LIMIT,
    ensures
        r == v * v,
        0 <= r <= PARAM_LIMIT * PARAM_LIMIT,
{
    assert(0 <= v * v <= PARAM_LIMIT * PARAM_LIMIT) by (nonlinear_arith)
        requires
            0 <= v <= PARAM_LIMIT,
    ;
    v as i128 * v as i128
}

impl Arena {
    pub open spec fn wf(self) -> bool {
        &&& -COORD_LIMIT <= self.left < self.right <= COORD_LIMIT
        &&& -COORD_LIMIT <= self.bottom < self.top <= COORD_LIMIT
    }
}

impl FlockConfig {
    pub open spec fn any_negative(self) -> bool {
        ||| self.align.mag < 0
        ||| self.separation.mag < 0
        ||| self.cohesion.mag < 0
        ||| self.perception_radius < 0
        ||| self.separation_radius < 0
        ||| self.cohesion_radius < 0
        ||| self.near_zero < 0
        ||| self.max_force < 0
        ||| self.max_speed < 0
        ||| self.predator_range < 0
        ||| self.predator_magnitude < 0
        ||| self.predator_reference < 0
        ||| self.obstacle_range < 0
        ||| self.obstacle_magnitude < 0
        ||| self.obstacle_reference < 0
    }

    pub open spec fn any_too_large(self) -> bool {
        ||| self.align.mag > PARAM_LIMIT
        ||| self.separation.mag > PARAM_LIMIT
        ||| self.cohesion.mag > PARAM_LIMIT
        ||| self.perception_radius > PARAM_LIMIT
        ||| self.separation_radius > PARAM_LIMIT
        ||| self.cohesion_radius > PARAM_LIMIT
        ||| self.near_zero > PARAM_LIMIT
        ||| self.max_force > PARAM_LIMIT
        ||| self.max_speed > PARAM_LIMIT
        ||| self.predator_range > PARAM_LIMIT
        ||| self.predator_magnitude > PARAM_LIMIT
        ||| self.predator_reference > PARAM_LIMIT
        ||| self.obstacle_range > PARAM_LIMIT
        ||| self.obstacle_magnitude > PARAM_LIMIT
        ||| self.obstacle_reference > PARAM_LIMIT
    }

    pub open spec fn avoidance_too_strong(self) -> bool {
        ||| falloff_strength(
            self.predator_magnitude as int,
            self.predator_reference as int,
            self.predator_falloff,
        ) > AVOID_LIMIT
        ||| falloff_strength(
            self.obstacle_magnitude as int,
            self.obstacle_reference as int,
            self.obstacle_falloff,
        ) > AVOID_LIMIT
    }

    /// The first rule that the configuration breaks, if any.
    pub open spec fn error(self) -> Option<ConfigError> {
        if self.any_negative() {
            Some(ConfigError::Negative)
        } else if self.any_too_large() {
            Some(ConfigError::TooLarge)
        } else if self.near_zero == 0 {
            Some(ConfigError::ZeroTolerance)
        } else if self.separation_radius > self.perception_radius {
            Some(ConfigError::SeparationWiderThanPerception)
        } else if self.avoidance_too_strong() {
            Some(ConfigError::AvoidanceTooStrong)
        } else if !self.arena.wf() {
            Some(ConfigError::BadArena)
        } else {
            None
        }
    }

    pub open spec fn wf(self) -> bool {
        self.error() is None
    }

    /// Checks every rule; a configuration that fails must not start a simulation.
    pub fn validate(&self) -> (r: Result<(), ConfigError>)
        ensures
            r is Ok <==> self.wf(),
            r is Err ==> self.error() == Some(r->Err_0),
    {
        let c = self;
        if c.align.mag < 0 || c.separation.mag < 0 || c.cohesion.mag < 0 || c.perception_radius < 0
            || c.separation_radius < 0 || c.cohesion_radius < 0 || c.near_zero < 0 || c.max_force
            < 0 || c.max_speed < 0 || c.predator_range < 0 || c.predator_magnitude < 0
            || c.predator_reference < 0 || c.obstacle_range < 0 || c.obstacle_magnitude < 0
            || c.obstacle_reference < 0 {
            return Err(ConfigError::Negative);
        }
        if c.align.mag > PARAM_LIMIT || c.separation.mag > PARAM_LIMIT || c.cohesion.mag
            > PARAM_LIMIT || c.perception_radius > PARAM_LIMIT || c.separation_radius > PARAM_LIMIT
            || c.cohesion_radius > PARAM_LIMIT || c.near_zero > PARAM_LIMIT || c.max_force
            > PARAM_LIMIT || c.max_speed > PARAM_LIMIT || c.predator_range > PARAM_LIMIT
            || c.predator_magnitude > PARAM_LIMIT || c.predator_reference > PARAM_LIMIT
            || c.obstacle_range > PARAM_LIMIT || c.obstacle_magnitude > PARAM_LIMIT
            || c.obstacle_reference > PARAM_LIMIT {
            return Err(ConfigError::TooLarge);
        }
        if c.near_zero == 0 {
            return Err(ConfigError::ZeroTolerance);
        }
        if c.separation_radius > c.perception_radius {
            return Err(ConfigError::SeparationWiderThanPerception);
        }
        let ps = strength(c.predator_magnitude, c.predator_reference, c.predator_falloff);
        let os = strength(c.obstacle_magnitude, c.obstacle_reference, c.obstacle_falloff);
        if ps > AVOID_LIMIT as i128 || os > AVOID_LIMIT as i128 {
            return Err(ConfigError::AvoidanceTooStrong);
        }
        let a = c.arena;
        if !(-COORD_LIMIT <= a.left && a.left < a.right && a.right <= COORD_LIMIT && -COORD_LIMIT
            <= a.bottom && a.bottom < a.top && a.top <= COORD_LIMIT) {
            return Err(ConfigError::BadArena);
        }
        Ok(())
    }
}

impl Default for FlockConfig {
    /// Coefficients tuned for the krill swarm, in thousandths of a world unit.
    fn default() -> (r: FlockConfig)
        ensures
            r.wf(),
            r.align.mag == DEFAULT_ALIGN_WEIGHT,
            r.separation.mag == DEFAULT_SEPARATION_WEIGHT,
            r.cohesion.mag == DEFAULT_COHESION_WEIGHT,
            r.perception_radius == 7000,
            r.max_force == 300,
            r.max_speed == 50000,
    {
        let r = FlockConfig {
            align: AlignCoe::default(),
            separation: SeperationCoe::default(),
            cohesion: CohesionCoe::default(),
            perception_radius: 7000,
            separation_radius: 4667,
            cohesion_radius: 7700,
            near_zero: 50,
            max_force: 300,
            max_speed: 50000,
            predator_range: 35000,
            predator_magnitude: 50000,
            predator_reference: 30000,
            predator_falloff: Falloff::Square,
            obstacle_range: 70000,
            obstacle_magnitude: 500000,
            obstacle_reference: 1000,
            obstacle_falloff: Falloff::Linear,
            arena: Arena { left: -110000, right: 110000, bottom: -50000, top: 50000 },
        };
        assert(50000int * 30000 * 30000 <= AVOID_LIMIT);
        r
    }
}

} // verus!

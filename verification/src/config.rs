//! The parameters of a simulation, the stock values, and the check that a
//! set of parameters is usable.
//!
//! Lengths are in arena sub-units, a thousand to the pixel in the stock
//! values. Speeds are in sub-units per second, angles in millionths of a
//! radian, the time factor in thousandths.

use crate::angle::Angle;
use vstd::prelude::*;

verus! {

/// The largest value that a length, speed or acceleration parameter may
/// have. It leaves room for the sums that the rules form in 32 bits.
pub const LENGTH_LIMIT: i32 = 1_000_000_000;

/// Stock number of entities of each kind.
pub const ENTITY_COUNT: u16 = 10;

/// Stock speed limit per axis.
pub const ENTITY_MAX_SPEED: i32 = 10_000;

/// Stock entity size, which is also the contact distance.
pub const ENTITY_SIZE: i32 = 64_000;

/// Stock speed gained per frame by an entity that faces its way.
pub const ENTITY_ACCELERATION: i32 = 1_000;

/// Stock time factor: real time.
pub const TIME_FACTOR: u32 = 1_000;

/// Stock margin that same-kind entities keep beyond their size.
pub const PERSONAL_MARGIN: i32 = 5_000;

/// Stock turn per frame of an entity that does not face its way.
pub const TURN_STEP: i32 = 100_000;

/// Stock bound below which an entity counts as facing its way.
pub const ALIGNED_BELOW: i32 = 500_000;

/// Stock bound from which an entity counts as facing the wrong way.
pub const REVERSED_FROM: i32 = 1_500_000;

/// Stock number of random positions tried for one entity.
pub const PLACEMENT_ATTEMPTS: u32 = 100_000;

/// The parameters of a simulation. They are fixed when the entities are
/// spawned and read by every rule.
#[derive(Clone, Copy, Debug, PartialEq, Eq, Structural)]
pub struct Config {
    /// The arena is `[0, arena_width] x [0, arena_height]`.
    pub arena_width: i32,
    pub arena_height: i32,
    /// Bound on the size of each velocity component.
    pub max_speed: i32,
    /// Extent of an entity. Half of it is the margin of the wrap-around,
    /// all of it the distance below which a predator converts its prey.
    pub entity_size: i32,
    /// Speed gained in one frame by an entity that faces its way.
    pub acceleration: i32,
    /// Thousandths of simulated time per unit of elapsed time.
    pub time_factor: u32,
    /// Same-kind entities avoid coming closer than size plus this margin;
    /// so do freshly spawned entities of any kind.
    pub personal_margin: i32,
    /// Turn per frame of an entity that does not face its way.
    pub turn_step: Angle,
    /// An entity whose heading is off by less than this faces its way.
    pub aligned_below: Angle,
    /// An entity whose heading is off by this or more faces the wrong way.
    pub reversed_from: Angle,
    /// How many random positions are tried for one entity at spawn.
    pub placement_attempts: u32,
}

/// Why a set of parameters cannot be used.
#[derive(Clone, Copy, Debug, PartialEq, Eq, Structural)]
pub enum ConfigError {
    /// The arena's width or height is zero or negative.
    NonPositiveArena,
    /// The arena is positive, but some parameter is negative, above
    /// `LENGTH_LIMIT`, or an angle outside one turn.
    OutOfRange,
}

impl Config {
    /// Whether the arena has a positive width and height.
    pub open spec fn arena_is_positive(self) -> bool {
        self.arena_width > 0 && self.arena_height > 0
    }

    /// Whether every parameter lies in its range.
    pub open spec fn wf(self) -> bool {
        &&& 0 < self.arena_width <= LENGTH_LIMIT
        &&& 0 < self.arena_height <= LENGTH_LIMIT
        &&& 0 <= self.max_speed <= LENGTH_LIMIT
        &&& 0 <= self.entity_size <= LENGTH_LIMIT
        &&& 0 <= self.acceleration <= LENGTH_LIMIT
        &&& 0 <= self.personal_margin <= LENGTH_LIMIT
        &&& self.turn_step.wf()
        &&& self.aligned_below.wf()
        &&& self.reversed_from.wf()
    }

    /// Half the entity size, rounded down.
    pub open spec fn half_size_spec(self) -> int {
        self.entity_size as int / 2
    }

    /// The distance that same-kind entities keep: size plus margin.
    pub open spec fn personal_space_spec(self) -> int {
        self.entity_size + self.personal_margin
    }

    /// The stock parameters for an arena of the given size.
    pub open spec fn standard_spec(arena_width: i32, arena_height: i32) -> Config {
        Config {
            arena_width,
            arena_height,
            max_speed: ENTITY_MAX_SPEED,
            entity_size: ENTITY_SIZE,
            acceleration: ENTITY_ACCELERATION,
            time_factor: TIME_FACTOR,
            personal_margin: PERSONAL_MARGIN,
            turn_step: Angle(TURN_STEP),
            aligned_below: Angle(ALIGNED_BELOW),
            reversed_from: Angle(REVERSED_FROM),
            placement_attempts: PLACEMENT_ATTEMPTS,
        }
    }

    /// The stock parameters for an arena of the given size, whether or not
    /// that size is usable.
    #[verifier::when_used_as_spec(standard_spec)]
    pub fn standard(arena_width: i32, arena_height: i32) -> (config: Config)
        ensures
            config == Config::standard_spec(arena_width, arena_height),
            config.wf() <==> 0 < arena_width <= LENGTH_LIMIT && 0 < arena_height <= LENGTH_LIMIT,
    {
        Config {
            arena_width,
            arena_height,
            max_speed: ENTITY_MAX_SPEED,
            entity_size: ENTITY_SIZE,
            acceleration: ENTITY_ACCELERATION,
            time_factor: TIME_FACTOR,
            personal_margin: PERSONAL_MARGIN,
            turn_step: Angle(TURN_STEP),
            aligned_below: Angle(ALIGNED_BELOW),
            reversed_from: Angle(REVERSED_FROM),
            placement_attempts: PLACEMENT_ATTEMPTS,
        }
    }

    /// What is wrong with the parameters, if anything. An arena without
    /// extent is reported as such, any other fault as a value out of range.
    pub open spec fn fault(self) -> Option<ConfigError> {
        if !self.arena_is_positive() {
            Some(ConfigError::NonPositiveArena)
        } else if !self.wf() {
            Some(ConfigError::OutOfRange)
        } else {
            None
        }
    }

    /// Accepts the parameters that are well formed, and names the fault of
    /// those that are not.
    pub fn validate(&self) -> (outcome: Result<(), ConfigError>)
        ensures
            outcome is Ok <==> self.wf(),
            outcome == match self.fault() {
                Some(fault) => Err::<(), ConfigError>(fault),
                None => Ok::<(), ConfigError>(()),
            },
    {
        if self.arena_width <= 0 || self.arena_height <= 0 {
            return Err(ConfigError::NonPositiveArena);
        }
        let lengths_fit = self.arena_width <= LENGTH_LIMIT && self.arena_height <= LENGTH_LIMIT
            && Config::in_range(self.max_speed) && Config::in_range(self.entity_size)
            && Config::in_range(self.acceleration) && Config::in_range(self.personal_margin);
        let angles_fit = self.turn_step.is_wf() && self.aligned_below.is_wf()
            && self.reversed_from.is_wf();
        if lengths_fit && angles_fit {
            Ok(())
        } else {
            Err(ConfigError::OutOfRange)
        }
    }

    /// Whether a length, speed or acceleration lies in `0..=LENGTH_LIMIT`.
    fn in_range(value: i32) -> (fits: bool)
        ensures
            fits <==> 0 <= value <= LENGTH_LIMIT,
    {
        0 <= value && value <= LENGTH_LIMIT
    }

    /// Half the entity size, rounded down.
    pub fn half_size(&self) -> (half: i32)
        requires
            self.wf(),
        ensures
            half == self.half_size_spec(),
            0 <= half <= LENGTH_LIMIT / 2,
    {
        self.entity_size / 2
    }

    /// The distance that same-kind entities keep: size plus margin.
    pub fn personal_space(&self) -> (reach: u32)
        requires
            self.wf(),
        ensures
            reach == self.personal_space_spec(),
    {
        (self.entity_size as u32) + (self.personal_margin as u32)
    }
}

} // verus!

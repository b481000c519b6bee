//! Engine configuration and its validation.
//!
//! All quantities are plain integers: probabilities are expressed out of
//! `PROB_DENOM` and the lifecycle thresholds in milliseconds. A world is
//! only ever built from a configuration that passed validation, so the
//! engine can never start in an inconsistent state.

use vstd::prelude::*;

use crate::rng::PROB_DENOM;
use crate::space::{Color, MAX_EXTENT};

verus! {

/// Largest accepted lifecycle threshold, in milliseconds. Keeps threshold
/// sums far from the integer limit.
pub const MAX_TIME_MS: u64 = 0x1000_0000_0000;

/// Largest accepted number of palette entries.
pub const MAX_PALETTE: usize = 4096;

/// Everything the simulation core consumes: grid extent, population cap,
/// per-tick chances, lifecycle thresholds, and the color palette.
#[derive(Clone, Debug)]
pub struct Config {
    /// Grid extent along each axis, in cells.
    pub size_x: u32,
    pub size_y: u32,
    pub size_z: u32,
    /// Largest number of concurrently alive pipes.
    pub max_pipes: usize,
    /// Per-tick chance of spawning a pipe, out of `PROB_DENOM`.
    pub spawn_chance: u32,
    /// Per-tick chance that a pipe tries a turn first, out of `PROB_DENOM`.
    pub turn_chance: u32,
    /// Elapsed time at which growing ends and the freeze fires, in ms.
    pub max_gen_time: u64,
    /// Length of the freeze window that follows growing, in ms.
    pub max_freeze_time: u64,
    /// Elapsed time at which a reset of the whole scene is requested, in ms.
    pub max_cycle_time: u64,
    /// When set, the reset signal is suppressed and the final state persists.
    pub single_run: bool,
    /// Colors new pipes draw from, uniformly.
    pub palette: Vec<Color>,
}

/// Why a configuration was rejected.
#[derive(Clone, Copy, PartialEq, Eq, Structural, Debug)]
pub enum ConfigError {
    /// Some axis of the grid extent is zero.
    ZeroExtent,
    /// Some axis of the grid extent exceeds `MAX_EXTENT`.
    ExtentTooLarge,
    /// A chance parameter exceeds `PROB_DENOM`.
    InvalidChance,
    /// The grow/freeze/cycle thresholds are not strictly increasing.
    NonMonotonicThresholds,
    /// A lifecycle threshold exceeds `MAX_TIME_MS`.
    TimeTooLarge,
    /// The color palette is empty.
    EmptyPalette,
    /// The color palette exceeds `MAX_PALETTE` entries.
    PaletteTooLarge,
}

impl ConfigError {
    /// A short human-readable account of the rejection.
    pub fn describe(&self) -> &'static str {
        match self {
            ConfigError::ZeroExtent => "grid extent must be at least one cell on every axis",
            ConfigError::ExtentTooLarge => "grid extent exceeds the supported maximum",
            ConfigError::InvalidChance => "chance parameters must not exceed the probability denominator",
            ConfigError::NonMonotonicThresholds => "lifecycle thresholds must be strictly increasing",
            ConfigError::TimeTooLarge => "lifecycle thresholds exceed the supported maximum",
            ConfigError::EmptyPalette => "the color palette must hold at least one color",
            ConfigError::PaletteTooLarge => "the color palette exceeds the supported maximum",
        }
    }
}

/// The checks a configuration must pass, applied in a fixed order; `None`
/// means the configuration is accepted.
pub open spec fn spec_validate(cfg: Config) -> Option<ConfigError> {
    if cfg.size_x == 0 || cfg.size_y == 0 || cfg.size_z == 0 {
        Some(ConfigError::ZeroExtent)
    } else if cfg.size_x > MAX_EXTENT || cfg.size_y > MAX_EXTENT || cfg.size_z > MAX_EXTENT {
        Some(ConfigError::ExtentTooLarge)
    } else if cfg.spawn_chance > PROB_DENOM || cfg.turn_chance > PROB_DENOM {
        Some(ConfigError::InvalidChance)
    } else if cfg.max_cycle_time > MAX_TIME_MS {
        Some(ConfigError::TimeTooLarge)
    } else if cfg.max_freeze_time == 0 || cfg.max_gen_time + cfg.max_freeze_time
        >= cfg.max_cycle_time {
        Some(ConfigError::NonMonotonicThresholds)
    } else if cfg.palette@.len() == 0 {
        Some(ConfigError::EmptyPalette)
    } else if cfg.palette@.len() > MAX_PALETTE {
        Some(ConfigError::PaletteTooLarge)
    } else {
        None
    }
}

/// A configuration that passed every check of `spec_validate`.
pub open spec fn spec_valid_config(cfg: Config) -> bool {
    spec_validate(cfg) is None
}

impl Config {
    /// Checks this configuration, reporting the first failed check.
    pub fn validate(&self) -> (r: Option<ConfigError>)
        ensures
            r == spec_validate(*self),
    {
        if self.size_x == 0 || self.size_y == 0 || self.size_z == 0 {
            Some(ConfigError::ZeroExtent)
        } else if self.size_x > MAX_EXTENT || self.size_y > MAX_EXTENT
            || self.size_z > MAX_EXTENT {
            Some(ConfigError::ExtentTooLarge)
        } else if self.spawn_chance > PROB_DENOM || self.turn_chance > PROB_DENOM {
            Some(ConfigError::InvalidChance)
        } else if self.max_cycle_time > MAX_TIME_MS {
            Some(ConfigError::TimeTooLarge)
        } else if self.max_freeze_time == 0 || self.max_gen_time >= self.max_cycle_time
            || self.max_freeze_time >= self.max_cycle_time
            || self.max_gen_time + self.max_freeze_time >= self.max_cycle_time {
            Some(ConfigError::NonMonotonicThresholds)
        } else if self.palette.len() == 0 {
            Some(ConfigError::EmptyPalette)
        } else if self.palette.len() > MAX_PALETTE {
            Some(ConfigError::PaletteTooLarge)
        } else {
            None
        }
    }
}

} // verus!

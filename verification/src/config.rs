//! The tunable parameters of the simulation and their validation.

use vstd::prelude::*;
use crate::fixed::UNIT;
use crate::grid::SimulationConstants;

verus! {

/// The tuning record read at the start of every frame. Real-valued fields are
/// in millionths; they are signed so that a bad value handed in from outside
/// can be held and reported rather than silently reinterpreted.
#[derive(Clone, Copy, Debug, PartialEq, Eq, Structural)]
pub struct ConfigState {
    /// Distance an agent advances per frame, in millionths of a cell.
    pub move_speed: i64,
    /// Intensity removed from every cell per frame, in millionths.
    pub fade_speed: i64,
    /// Blend weight towards the neighbourhood average, in millionths.
    pub diffuse_speed: i64,
    /// Half-width, in cells, of the square window summed around a sensor.
    pub sensor_size: u32,
    /// Distance from an agent to its sensors, in millionths of a cell.
    pub sensor_distance: i64,
    /// Heading change of one turn, in millionths of a radian.
    pub turning_speed: i64,
}

/// Why a configuration is refused.
#[derive(Clone, Copy, Debug, PartialEq, Eq, Structural)]
pub enum ConfigError {
    /// `move_speed` is below zero.
    NegativeMoveSpeed,
    /// `fade_speed` is below zero.
    NegativeFadeSpeed,
    /// `diffuse_speed` is below zero.
    NegativeDiffuseSpeed,
    /// `sensor_size` is zero.
    SensorSizeZero,
    /// `sensor_distance` is under one cell or over the grid's shorter side.
    SensorDistanceOutOfRange,
    /// `turning_speed` is below zero.
    NegativeTurningSpeed,
}

impl ConfigState {
    /// Whether the sensor distance is at least one cell and at most the
    /// shorter side of the grid.
    pub open spec fn sensor_distance_in_range(&self, constants: SimulationConstants) -> bool {
        UNIT as int <= self.sensor_distance as int <= constants.shorter_side() * UNIT as int
    }

    /// The first field, in declaration order, that is out of range on the
    /// given grid, if there is one.
    pub open spec fn fault(&self, constants: SimulationConstants) -> Option<ConfigError> {
        if self.move_speed < 0 {
            Some(ConfigError::NegativeMoveSpeed)
        } else if self.fade_speed < 0 {
            Some(ConfigError::NegativeFadeSpeed)
        } else if self.diffuse_speed < 0 {
            Some(ConfigError::NegativeDiffuseSpeed)
        } else if self.sensor_size < 1 {
            Some(ConfigError::SensorSizeZero)
        } else if !self.sensor_distance_in_range(constants) {
            Some(ConfigError::SensorDistanceOutOfRange)
        } else if self.turning_speed < 0 {
            Some(ConfigError::NegativeTurningSpeed)
        } else {
            None
        }
    }

    /// No field is below zero: all that the two kernels themselves need.
    pub open spec fn non_negative(&self) -> bool {
        &&& self.move_speed >= 0
        &&& self.fade_speed >= 0
        &&& self.diffuse_speed >= 0
        &&& self.sensor_distance >= 0
        &&& self.turning_speed >= 0
    }

    /// Every field is within its range on the given grid.
    pub open spec fn valid_for(&self, constants: SimulationConstants) -> bool {
        &&& self.move_speed >= 0
        &&& self.fade_speed >= 0
        &&& self.diffuse_speed >= 0
        &&& self.sensor_size >= 1
        &&& self.sensor_distance_in_range(constants)
        &&& self.turning_speed >= 0
    }

    /// The configuration with every out-of-range field moved to the nearest
    /// end of its range.
    pub open spec fn clamped_to(&self, constants: SimulationConstants) -> ConfigState {
        let reach = constants.shorter_side() * UNIT as int;
        ConfigState {
            move_speed: if self.move_speed < 0 { 0 } else { self.move_speed },
            fade_speed: if self.fade_speed < 0 { 0 } else { self.fade_speed },
            diffuse_speed: if self.diffuse_speed < 0 { 0 } else { self.diffuse_speed },
            sensor_size: if self.sensor_size < 1 { 1 } else { self.sensor_size },
            sensor_distance: if self.sensor_distance < UNIT as int {
                UNIT as i64
            } else if self.sensor_distance as int > reach {
                reach as i64
            } else {
                self.sensor_distance
            },
            turning_speed: if self.turning_speed < 0 { 0 } else { self.turning_speed },
        }
    }

    /// Checks every field against its range and names the first that fails.
    pub fn validate(&self, constants: &SimulationConstants) -> (checked: Result<(), ConfigError>)
        ensures
            checked is Ok <==> self.valid_for(*constants),
            checked matches Err(e) ==> self.fault(*constants) == Some(e),
            checked is Ok ==> self.fault(*constants) is None,
    {
        if self.move_speed < 0 {
            return Err(ConfigError::NegativeMoveSpeed);
        }
        if self.fade_speed < 0 {
            return Err(ConfigError::NegativeFadeSpeed);
        }
        if self.diffuse_speed < 0 {
            return Err(ConfigError::NegativeDiffuseSpeed);
        }
        if self.sensor_size < 1 {
            return Err(ConfigError::SensorSizeZero);
        }
        let reach: u64 = constants.sensor_reach();
        if self.sensor_distance < UNIT as i64 || self.sensor_distance as u64 > reach {
            return Err(ConfigError::SensorDistanceOutOfRange);
        }
        if self.turning_speed < 0 {
            return Err(ConfigError::NegativeTurningSpeed);
        }
        Ok(())
    }

    /// Moves every out-of-range field to the nearest end of its range, for
    /// hosts that prefer to correct a bad value rather than refuse it.
    pub fn clamp(&self, constants: &SimulationConstants) -> (fixed: ConfigState)
        requires
            constants.valid(),
        ensures
            fixed == self.clamped_to(*constants),
            fixed.valid_for(*constants),
            self.valid_for(*constants) ==> fixed == *self,
    {
        let reach: u64 = constants.sensor_reach();
        let sensor_distance: i64 = if self.sensor_distance < UNIT as i64 {
            UNIT as i64
        } else if self.sensor_distance as u64 > reach {
            reach as i64
        } else {
            self.sensor_distance
        };
        ConfigState {
            move_speed: if self.move_speed < 0 { 0 } else { self.move_speed },
            fade_speed: if self.fade_speed < 0 { 0 } else { self.fade_speed },
            diffuse_speed: if self.diffuse_speed < 0 { 0 } else { self.diffuse_speed },
            sensor_size: if self.sensor_size < 1 { 1 } else { self.sensor_size },
            sensor_distance,
            turning_speed: if self.turning_speed < 0 { 0 } else { self.turning_speed },
        }
    }
}

} // verus!

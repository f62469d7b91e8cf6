//! The fixed dimensions of a simulation: grid size and population size.

use vstd::prelude::*;
use crate::fixed::UNIT;

verus! {

/// Grid dimensions and population size, fixed when a simulation is built.
#[derive(Clone, Copy, Debug, PartialEq, Eq, Structural)]
pub struct SimulationConstants {
    /// Number of cell columns.
    pub grid_width: u32,
    /// Number of cell rows.
    pub grid_height: u32,
    /// Number of agents.
    pub agent_count: u32,
}

impl SimulationConstants {
    /// A grid needs at least one cell for wrap-around to mean anything.
    pub open spec fn valid(&self) -> bool {
        self.grid_width >= 1 && self.grid_height >= 1
    }

    /// Number of cells of the grid.
    pub open spec fn cell_count(&self) -> int {
        self.grid_width as int * self.grid_height as int
    }

    /// Length of the horizontal axis in millionths of a cell.
    pub open spec fn extent_x(&self) -> int {
        self.grid_width as int * UNIT as int
    }

    /// Length of the vertical axis in millionths of a cell.
    pub open spec fn extent_y(&self) -> int {
        self.grid_height as int * UNIT as int
    }

    /// The shorter side of the grid, in cells.
    pub open spec fn shorter_side(&self) -> int {
        if self.grid_width <= self.grid_height {
            self.grid_width as int
        } else {
            self.grid_height as int
        }
    }

    /// Whether the grid has at least one cell.
    pub fn is_valid(&self) -> (ok: bool)
        ensures
            ok == self.valid(),
    {
        self.grid_width >= 1 && self.grid_height >= 1
    }

    /// Length of the horizontal axis in millionths of a cell.
    pub fn width_extent(&self) -> (extent: u64)
        ensures
            extent == self.extent_x(),
    {
        self.grid_width as u64 * UNIT
    }

    /// Length of the vertical axis in millionths of a cell.
    pub fn height_extent(&self) -> (extent: u64)
        ensures
            extent == self.extent_y(),
    {
        self.grid_height as u64 * UNIT
    }

    /// The largest sensor distance the grid admits, in millionths of a cell:
    /// the shorter side of the grid.
    pub fn sensor_reach(&self) -> (reach: u64)
        ensures
            reach == self.shorter_side() * UNIT as int,
    {
        if self.grid_width <= self.grid_height {
            self.grid_width as u64 * UNIT
        } else {
            self.grid_height as u64 * UNIT
        }
    }
}

} // verus!

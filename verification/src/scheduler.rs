//! The frame schedule: a simulation is loading or ready, and each frame of a
//! ready simulation updates every agent, then diffuses the trail map.

use vstd::prelude::*;
use crate::agent::{agents_pass, update_agents, Agent, SensorDirections};
use crate::config::{ConfigError, ConfigState};
use crate::grid::SimulationConstants;
use crate::fixed::{rotate, FULL_TURN};
use crate::trail::{Grid, TrailMap};

verus! {

/// Whether the simulation has started to run frames.
#[derive(Clone, Copy, Debug, PartialEq, Eq, Structural)]
pub enum SchedulerState {
    /// The host has not finished preparing; frames do nothing.
    Loading,
    /// Frames run.
    Ready,
}

/// What the host reports about its one-time preparation.
#[derive(Clone, Copy, Debug, PartialEq, Eq, Structural)]
pub enum KernelStatus {
    /// Preparation is under way.
    Pending,
    /// Preparation is complete.
    Prepared,
    /// Preparation failed.
    Failed,
}

/// Why a simulation cannot be built.
#[derive(Clone, Copy, Debug, PartialEq, Eq, Structural)]
pub enum SetupError {
    /// The grid has no column or no row.
    EmptyGrid,
    /// The grid has more cells than can be addressed.
    GridTooLarge,
    /// The number of agents handed in is not the configured population.
    AgentCountMismatch,
    /// An agent is off the grid, or its heading exceeds a full turn.
    AgentOutsideGrid,
}

/// Why a frame was refused. A refused frame changes nothing.
#[derive(Clone, Copy, Debug, PartialEq, Eq, Structural)]
pub enum FrameError {
    /// The configuration is out of range.
    Config(ConfigError),
    /// The host did not hand in one set of directions per agent.
    DirectionCountMismatch,
}

/// What a frame did.
#[derive(Clone, Copy, Debug, PartialEq, Eq, Structural)]
pub enum FrameOutcome {
    /// The simulation is still loading: nothing ran.
    Idle,
    /// Both kernels ran.
    Advanced,
}

/// The scheduler's one transition: a loading simulation becomes ready when
/// the host reports that preparation is complete. Nothing leads back, and a
/// failed or pending preparation leaves a loading simulation loading.
pub open spec fn next_state(state: SchedulerState, status: KernelStatus) -> SchedulerState {
    if state == SchedulerState::Loading && status == KernelStatus::Prepared {
        SchedulerState::Ready
    } else {
        state
    }
}

/// The mathematical content of a simulation.
pub struct World {
    pub constants: SimulationConstants,
    pub state: SchedulerState,
    pub agents: Seq<Agent>,
    pub grid: Grid,
}

impl World {
    /// The grid has the configured size and is well formed, the population
    /// has the configured size, every agent is on the grid, and a loading
    /// simulation has a blank grid.
    pub open spec fn wf(self) -> bool {
        &&& self.constants.valid()
        &&& self.grid.wf()
        &&& self.grid.width == self.constants.grid_width
        &&& self.grid.height == self.constants.grid_height
        &&& self.agents.len() == self.constants.agent_count
        &&& forall|i: int| 0 <= i < self.agents.len() ==> (#[trigger] self.agents[i]).within(self.grid)
        &&& self.state == SchedulerState::Loading ==> self.grid == Grid::blank(
            self.grid.width,
            self.grid.height,
        )
    }

    /// What a frame does on this world: nothing while loading; otherwise it
    /// is refused for the first fault of the configuration, or for a wrong
    /// number of directions, and runs if there is neither.
    pub open spec fn frame_outcome(
        self,
        config: ConfigState,
        directions: Seq<SensorDirections>,
    ) -> Result<FrameOutcome, FrameError> {
        if self.state == SchedulerState::Loading {
            Ok(FrameOutcome::Idle)
        } else if let Some(e) = config.fault(self.constants) {
            Err(FrameError::Config(e))
        } else if directions.len() != self.agents.len() {
            Err(FrameError::DirectionCountMismatch)
        } else {
            Ok(FrameOutcome::Advanced)
        }
    }

    /// The world after one frame: all agents updated in order, then one
    /// diffuse-and-decay pass over the grid they left.
    pub open spec fn after_frame(self, config: ConfigState, directions: Seq<SensorDirections>) -> World {
        let (agents, grid) = agents_pass(
            self.agents,
            self.grid,
            config,
            directions,
            self.agents.len() as int,
        );
        World {
            constants: self.constants,
            state: self.state,
            agents,
            grid: grid.diffused(config.diffuse_speed as int, config.fade_speed as int),
        }
    }
}

/// A simulation: its constants, its schedule state, its agents and its
/// trail map.
pub struct Simulation {
    constants: SimulationConstants,
    state: SchedulerState,
    agents: Vec<Agent>,
    trail: TrailMap,
}

impl View for Simulation {
    type V = World;

    closed spec fn view(&self) -> World {
        World {
            constants: self.constants,
            state: self.state,
            agents: self.agents@,
            grid: self.trail@,
        }
    }
}

impl Simulation {
    /// The invariant of every simulation. `new` establishes it and every
    /// method keeps it.
    pub open spec fn wf(&self) -> bool {
        self@.wf()
    }

    /// The first reason, if any, for which a simulation cannot be built from
    /// these constants and agents.
    pub open spec fn setup_fault(constants: SimulationConstants, agents: Seq<Agent>) -> Option<SetupError> {
        if !constants.valid() {
            Some(SetupError::EmptyGrid)
        } else if constants.cell_count() > usize::MAX {
            Some(SetupError::GridTooLarge)
        } else if agents.len() != constants.agent_count {
            Some(SetupError::AgentCountMismatch)
        } else if exists|i: int|
            0 <= i < agents.len() && !(#[trigger] agents[i]).within(
                Grid::blank(constants.grid_width as int, constants.grid_height as int),
            ) {
            Some(SetupError::AgentOutsideGrid)
        } else {
            None
        }
    }

    /// A loading simulation with a blank trail map and the given agents.
    pub fn new(constants: SimulationConstants, agents: Vec<Agent>) -> (built: Result<Simulation, SetupError>)
        ensures
            match built {
                Ok(simulation) => {
                    &&& Self::setup_fault(constants, agents@) is None
                    &&& simulation.wf()
                    &&& simulation@.constants == constants
                    &&& simulation@.state == SchedulerState::Loading
                    &&& simulation@.agents == agents@
                    &&& simulation@.grid == Grid::blank(
                        constants.grid_width as int,
                        constants.grid_height as int,
                    )
                },
                Err(e) => Self::setup_fault(constants, agents@) == Some(e),
            },
    {
        if !constants.is_valid() {
            return Err(SetupError::EmptyGrid);
        }
        let trail = match TrailMap::new(constants.grid_width, constants.grid_height) {
            Some(trail) => trail,
            None => {
                return Err(SetupError::GridTooLarge);
            },
        };
        if agents.len() as u64 != constants.agent_count as u64 {
            return Err(SetupError::AgentCountMismatch);
        }
        let extent_x: u64 = constants.width_extent();
        let extent_y: u64 = constants.height_extent();
        let mut i: usize = 0;
        while i < agents.len()
            invariant
                i <= agents.len(),
                constants.valid(),
                constants.cell_count() <= usize::MAX,
                agents.len() == constants.agent_count,
                trail.wf(),
                trail@ == Grid::blank(constants.grid_width as int, constants.grid_height as int),
                extent_x == constants.extent_x(),
                extent_y == constants.extent_y(),
                forall|k: int| 0 <= k < i ==> (#[trigger] agents[k]).within(trail@),
            decreases agents.len() - i,
        {
            let agent: Agent = agents[i];
            if agent.x >= extent_x || agent.y >= extent_y || agent.heading >= FULL_TURN {
                assert(!agents[i as int].within(trail@));
                return Err(SetupError::AgentOutsideGrid);
            }
            i = i + 1;
        }
        Ok(Simulation { constants, state: SchedulerState::Loading, agents, trail })
    }

    /// The constants the simulation was built with.
    pub fn constants(&self) -> (constants: SimulationConstants)
        ensures
            constants == self@.constants,
    {
        self.constants
    }

    /// Whether the simulation is loading or ready.
    pub fn state(&self) -> (state: SchedulerState)
        ensures
            state == self@.state,
    {
        self.state
    }

    /// The agents, in their fixed order.
    pub fn agents(&self) -> (agents: &Vec<Agent>)
        ensures
            agents@ == self@.agents,
    {
        &self.agents
    }

    /// The trail map, for display.
    pub fn trail(&self) -> (trail: &TrailMap)
        requires
            self.wf(),
        ensures
            trail@ == self@.grid,
            trail.wf(),
    {
        &self.trail
    }

    /// Takes note of what the host reports about its preparation.
    pub fn notify(&mut self, status: KernelStatus)
        requires
            old(self).wf(),
        ensures
            final(self).wf(),
            final(self)@ == (World { state: next_state(old(self)@.state, status), ..old(self)@ }),
    {
        match (self.state, status) {
            (SchedulerState::Loading, KernelStatus::Prepared) => {
                self.state = SchedulerState::Ready;
            },
            _ => {},
        }
    }
    /// For every agent, in order, the headings of its left, forward and
    /// right sensors at the given turning speed: the angles whose directions
    /// the host hands to `advance_frame`.
    pub fn sensor_headings(&self, turning_speed: u64) -> (headings: Vec<(u64, u64, u64)>)
        requires
            self.wf(),
        ensures
            headings.len() == self@.agents.len(),
            forall|i: int|
                0 <= i < headings.len() ==> #[trigger] headings[i] == (
                    rotate(self@.agents[i].heading as int, -(turning_speed as int)) as u64,
                    self@.agents[i].heading,
                    rotate(self@.agents[i].heading as int, turning_speed as int) as u64,
                ),
    {
        let mut headings: Vec<(u64, u64, u64)> = Vec::new();
        let mut i: usize = 0;
        while i < self.agents.len()
            invariant
                self.wf(),
                i <= self.agents.len(),
                headings.len() == i,
                forall|k: int|
                    0 <= k < i ==> #[trigger] headings[k] == (
                        rotate(self@.agents[k].heading as int, -(turning_speed as int)) as u64,
                        self@.agents[k].heading,
                        rotate(self@.agents[k].heading as int, turning_speed as int) as u64,
                    ),
            decreases self.agents.len() - i,
        {
            assert(self@.agents[i as int].within(self@.grid));
            let triple: (u64, u64, u64) = self.agents[i].sensor_headings(turning_speed);
            headings.push(triple);
            i = i + 1;
        }
        headings
    }

    /// Advances the simulation by one frame. While loading, nothing runs. A
    /// ready simulation checks the configuration it is handed, then updates
    /// every agent, then diffuses the trail map; a refused frame leaves the
    /// simulation as it was. `directions` holds, for each agent in order,
    /// the directions of its three sensor headings.
    pub fn advance_frame(&mut self, config: &ConfigState, directions: &Vec<SensorDirections>) -> (outcome:
        Result<FrameOutcome, FrameError>)
        requires
            old(self).wf(),
        ensures
            final(self).wf(),
            outcome == old(self)@.frame_outcome(*config, directions@),
            outcome == Ok::<FrameOutcome, FrameError>(FrameOutcome::Advanced) ==> final(self)@ == old(
                self,
            )@.after_frame(*config, directions@),
            outcome != Ok::<FrameOutcome, FrameError>(FrameOutcome::Advanced) ==> final(self)@ == old(
                self,
            )@,
    {
        match self.state {
            SchedulerState::Loading => {
                return Ok(FrameOutcome::Idle);
            },
            SchedulerState::Ready => {},
        }
        match config.validate(&self.constants) {
            Err(e) => {
                return Err(FrameError::Config(e));
            },
            Ok(()) => {},
        }
        if directions.len() != self.agents.len() {
            return Err(FrameError::DirectionCountMismatch);
        }
        update_agents(&mut self.agents, &mut self.trail, config, directions);
        self.trail.diffuse(config.diffuse_speed as u64, config.fade_speed as u64);
        Ok(FrameOutcome::Advanced)
    }
}

} // verus!

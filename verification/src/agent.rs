//! Agents and the per-agent update: sense, steer, move, deposit.

use vstd::prelude::*;
use vstd::arithmetic::div_mod::lemma_small_mod;
use crate::config::ConfigState;
use crate::fixed::{rotate, rotate_heading, travel, travel_coord, wrap, wrap_signed, FULL_TURN, UNIT};
use crate::grid::SimulationConstants;
use crate::trail::{Grid, TrailMap, DEPOSIT_AMOUNT};

verus! {

/// One simulated particle. Coordinates are in millionths of a cell, the
/// heading in millionths of a radian.
#[derive(Clone, Copy, Debug, PartialEq, Eq, Structural)]
pub struct Agent {
    pub x: u64,
    pub y: u64,
    pub heading: u64,
}

/// A direction in the plane as its two components, in millionths: the
/// cosine and the sine of an angle, as the host computed them.
#[derive(Clone, Copy, Debug, PartialEq, Eq, Structural)]
pub struct Direction {
    pub dx: i32,
    pub dy: i32,
}

/// The three directions an agent senses along and may move along: its
/// heading turned back by the turning speed, its heading, and its heading
/// turned on by the turning speed.
#[derive(Clone, Copy, Debug, PartialEq, Eq, Structural)]
pub struct SensorDirections {
    pub left: Direction,
    pub forward: Direction,
    pub right: Direction,
}

/// What an agent does with its heading in one update.
#[derive(Clone, Copy, Debug, PartialEq, Eq, Structural)]
pub enum Turn {
    /// Turn back by the turning speed, towards the left sensor.
    Left,
    /// Keep the heading.
    Straight,
    /// Turn on by the turning speed, towards the right sensor.
    Right,
}

/// The steering rule. An agent keeps its heading when the forward sensor
/// reads strictly more than both side sensors; otherwise it turns towards
/// the side sensor that reads more. When the side sensors read the same and
/// the forward sensor does not beat them, neither side is preferred and the
/// agent keeps its heading.
pub open spec fn steer(left: int, forward: int, right: int) -> Turn {
    if forward > left && forward > right {
        Turn::Straight
    } else if left > right {
        Turn::Left
    } else if right > left {
        Turn::Right
    } else {
        Turn::Straight
    }
}

impl Turn {
    /// The signed heading change of this turn at the given turning speed.
    pub open spec fn delta(self, turning_speed: int) -> int {
        match self {
            Turn::Left => -turning_speed,
            Turn::Straight => 0,
            Turn::Right => turning_speed,
        }
    }
}

impl SensorDirections {
    /// The direction an agent moves along after the given turn.
    pub open spec fn after(self, turn: Turn) -> Direction {
        match turn {
            Turn::Left => self.left,
            Turn::Straight => self.forward,
            Turn::Right => self.right,
        }
    }
}

impl Agent {
    /// The agent is on the grid and its heading is within one full turn.
    pub open spec fn within(self, grid: Grid) -> bool {
        &&& self.x < grid.width * UNIT
        &&& self.y < grid.height * UNIT
        &&& self.heading < FULL_TURN
    }

    /// Column of the cell the agent stands on.
    pub open spec fn cell_x(self) -> int {
        self.x as int / UNIT as int
    }

    /// Row of the cell the agent stands on.
    pub open spec fn cell_y(self) -> int {
        self.y as int / UNIT as int
    }

    /// What the sensor placed `distance` away along `direction` reads: the
    /// sum of the window of half-width `half` around the cell the sensor
    /// point falls on.
    pub open spec fn reading(self, grid: Grid, direction: Direction, distance: int, half: int) -> int {
        grid.window(
            travel(self.x as int, distance, direction.dx as int, grid.width * UNIT) / UNIT as int,
            travel(self.y as int, distance, direction.dy as int, grid.height * UNIT) / UNIT as int,
            half,
        )
    }

    /// The turn the steering rule picks for this agent on this grid.
    pub open spec fn turn(self, grid: Grid, config: ConfigState, directions: SensorDirections) -> Turn {
        steer(
            self.reading(grid, directions.left, config.sensor_distance as int, config.sensor_size as int),
            self.reading(grid, directions.forward, config.sensor_distance as int, config.sensor_size as int),
            self.reading(grid, directions.right, config.sensor_distance as int, config.sensor_size as int),
        )
    }

    /// The agent after one update: turned as the steering rule says, then
    /// moved by the move speed along its new direction, wrapped around the
    /// grid.
    pub open spec fn stepped(self, grid: Grid, config: ConfigState, directions: SensorDirections) -> Agent {
        let turn = self.turn(grid, config, directions);
        let direction = directions.after(turn);
        Agent {
            x: travel(self.x as int, config.move_speed as int, direction.dx as int, grid.width * UNIT) as u64,
            y: travel(self.y as int, config.move_speed as int, direction.dy as int, grid.height * UNIT) as u64,
            heading: rotate(self.heading as int, turn.delta(config.turning_speed as int)) as u64,
        }
    }

    /// An agent at the given position and heading, each wrapped into its
    /// range: the position around the grid, the heading around the full turn.
    pub fn place(constants: &SimulationConstants, x: i64, y: i64, heading: i64) -> (agent: Agent)
        requires
            constants.valid(),
        ensures
            agent.x == wrap(x as int, constants.extent_x()),
            agent.y == wrap(y as int, constants.extent_y()),
            agent.heading == wrap(heading as int, FULL_TURN as int),
            agent.x < constants.extent_x(),
            agent.y < constants.extent_y(),
            agent.heading < FULL_TURN,
    {
        Agent {
            x: wrap_signed(x, constants.width_extent()),
            y: wrap_signed(y, constants.height_extent()),
            heading: wrap_signed(heading, FULL_TURN),
        }
    }

    /// The headings of the three sensors, left, forward and right: the
    /// angles whose directions the host hands to `step`.
    pub fn sensor_headings(&self, turning_speed: u64) -> (headings: (u64, u64, u64))
        ensures
            headings.0 == rotate(self.heading as int, -(turning_speed as int)),
            headings.1 == rotate(self.heading as int, 0),
            headings.2 == rotate(self.heading as int, turning_speed as int),
            self.heading < FULL_TURN ==> headings.1 == self.heading,
    {
        proof {
            if self.heading < FULL_TURN {
                lemma_small_mod(self.heading as nat, FULL_TURN as nat);
            }
        }
        (
            rotate_heading(self.heading, turning_speed, false),
            rotate_heading(self.heading, 0, true),
            rotate_heading(self.heading, turning_speed, true),
        )
    }

    /// Reads the sensor placed `distance` away along `direction`.
    pub fn sense(&self, trail: &TrailMap, direction: &Direction, distance: u64, half: u32) -> (sum: u128)
        requires
            trail.wf(),
        ensures
            sum == self.reading(trail@, *direction, distance as int, half as int),
    {
        let extent_x: u64 = trail.width() as u64 * UNIT;
        let extent_y: u64 = trail.height() as u64 * UNIT;
        let sensor_x: u64 = travel_coord(self.x, distance, direction.dx, extent_x);
        let sensor_y: u64 = travel_coord(self.y, distance, direction.dy, extent_y);
        trail.window_sum((sensor_x / UNIT) as u32, (sensor_y / UNIT) as u32, half)
    }

    /// One update of the agent: it reads its three sensors, turns as the
    /// steering rule says, moves along its new direction, and deposits on
    /// the cell it arrives at. Wherever the agent was and whatever its
    /// heading, it ends on the grid with a heading within one full turn.
    pub fn step(&mut self, trail: &mut TrailMap, config: &ConfigState, directions: &SensorDirections)
        requires
            old(trail).wf(),
            config.non_negative(),
        ensures
            *final(self) == old(self).stepped(old(trail)@, *config, *directions),
            final(self).within(final(trail)@),
            final(trail).wf(),
            final(trail)@ == old(trail)@.deposited(
                final(self).cell_x(),
                final(self).cell_y(),
                DEPOSIT_AMOUNT as int,
            ),
    {
        let distance: u64 = config.sensor_distance as u64;
        let left: u128 = self.sense(trail, &directions.left, distance, config.sensor_size);
        let forward: u128 = self.sense(trail, &directions.forward, distance, config.sensor_size);
        let right: u128 = self.sense(trail, &directions.right, distance, config.sensor_size);
        let turn: Turn = choose_turn(left, forward, right);
        let extent_x: u64 = trail.width() as u64 * UNIT;
        let extent_y: u64 = trail.height() as u64 * UNIT;
        let speed: u64 = config.move_speed as u64;
        let turning: u64 = config.turning_speed as u64;
        let (direction, heading) = match turn {
            Turn::Left => (directions.left, rotate_heading(self.heading, turning, false)),
            Turn::Straight => (directions.forward, rotate_heading(self.heading, 0, true)),
            Turn::Right => (directions.right, rotate_heading(self.heading, turning, true)),
        };
        let x: u64 = travel_coord(self.x, speed, direction.dx, extent_x);
        let y: u64 = travel_coord(self.y, speed, direction.dy, extent_y);
        self.x = x;
        self.y = y;
        self.heading = heading;
        trail.deposit((x / UNIT) as u32, (y / UNIT) as u32, DEPOSIT_AMOUNT);
    }
}

/// The population and the grid after the first `count` agents, in order,
/// have each been updated: every agent senses the grid as the agents before
/// it left it, steps, and deposits on the cell it arrives at.
pub open spec fn agents_pass(
    agents: Seq<Agent>,
    grid: Grid,
    config: ConfigState,
    directions: Seq<SensorDirections>,
    count: int,
) -> (Seq<Agent>, Grid)
    decreases count,
{
    if count <= 0 {
        (agents, grid)
    } else {
        let (earlier, seen) = agents_pass(agents, grid, config, directions, count - 1);
        let moved = agents[count - 1].stepped(seen, config, directions[count - 1]);
        (
            earlier.update(count - 1, moved),
            seen.deposited(moved.cell_x(), moved.cell_y(), DEPOSIT_AMOUNT as int),
        )
    }
}

/// Updates every agent once, in order. Each agent senses the trail map as
/// the agents before it left it, steps, and deposits on the cell it arrives
/// at. `directions` holds, for each agent, the directions of its three
/// sensor headings.
pub fn update_agents(
    agents: &mut Vec<Agent>,
    trail: &mut TrailMap,
    config: &ConfigState,
    directions: &Vec<SensorDirections>,
)
    requires
        old(trail).wf(),
        config.non_negative(),
        directions.len() == old(agents).len(),
    ensures
        (final(agents)@, final(trail)@) == agents_pass(
            old(agents)@,
            old(trail)@,
            *config,
            directions@,
            old(agents).len() as int,
        ),
        final(trail).wf(),
        final(trail)@.width == old(trail)@.width,
        final(trail)@.height == old(trail)@.height,
        final(agents).len() == old(agents).len(),
        forall|i: int| 0 <= i < final(agents).len() ==> (#[trigger] final(agents)[i]).within(final(trail)@),
{
    let n: usize = agents.len();
    let mut i: usize = 0;
    while i < n
        invariant
            i <= n,
            n == agents.len(),
            n == old(agents).len(),
            n == directions.len(),
            config.non_negative(),
            trail.wf(),
            trail@.width == old(trail)@.width,
            trail@.height == old(trail)@.height,
            (agents@, trail@) == agents_pass(old(agents)@, old(trail)@, *config, directions@, i as int),
            forall|k: int| 0 <= k < i ==> (#[trigger] agents[k]).within(trail@),
            forall|k: int| i <= k < n ==> agents[k] == old(agents)[k],
        decreases n - i,
    {
        let mut agent: Agent = agents[i];
        agent.step(trail, config, &directions[i]);
        agents.set(i, agent);
        i = i + 1;
    }
}

/// Applies the steering rule to three sensor readings.
pub fn choose_turn(left: u128, forward: u128, right: u128) -> (turn: Turn)
    ensures
        turn == steer(left as int, forward as int, right as int),
{
    if forward > left && forward > right {
        Turn::Straight
    } else if left > right {
        Turn::Left
    } else if right > left {
        Turn::Right
    } else {
        Turn::Straight
    }
}

} // verus!

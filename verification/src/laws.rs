//! What holds of every simulation, proved from the definitions of the two
//! kernels.

use vstd::prelude::*;
use vstd::arithmetic::div_mod::{lemma_div_multiples_vanish, lemma_mod_bound, lemma_small_mod};
use crate::agent::{agents_pass, Agent, SensorDirections, Turn};
use crate::config::ConfigState;
use crate::fixed::{displacement, rotate, FULL_TURN, UNIT};
use crate::scheduler::{FrameError, FrameOutcome, World};
use crate::trail::{blend, fade, lemma_index_in_range, Grid, DEPOSIT_AMOUNT};

verus! {

/// Whatever its position and heading before, an agent is on the grid after
/// its update, and its heading is within one full turn.
pub proof fn lemma_step_stays_on_grid(
    agent: Agent,
    grid: Grid,
    config: ConfigState,
    directions: SensorDirections,
)
    requires
        1 <= grid.width <= u32::MAX,
        1 <= grid.height <= u32::MAX,
    ensures
        agent.stepped(grid, config, directions).within(grid),
{
    let turn = agent.turn(grid, config, directions);
    let direction = directions.after(turn);
    let extent_x = grid.width * UNIT;
    let extent_y = grid.height * UNIT;
    lemma_mod_bound(
        agent.x as int + displacement(config.move_speed as int, direction.dx as int),
        extent_x,
    );
    lemma_mod_bound(
        agent.y as int + displacement(config.move_speed as int, direction.dy as int),
        extent_y,
    );
    lemma_mod_bound(
        agent.heading as int + turn.delta(config.turning_speed as int),
        FULL_TURN as int,
    );
}

/// A deposit leaves every intensity within `[0, MAX_INTENSITY]`.
pub proof fn lemma_deposit_keeps_bounds(grid: Grid, x: int, y: int, amount: int)
    requires
        grid.wf(),
    ensures
        grid.deposited(x, y, amount).wf(),
{
    lemma_index_in_range(grid, x, y);
}

/// A diffuse-and-decay pass leaves every intensity within
/// `[0, MAX_INTENSITY]`, whatever the blend weight and the fade.
pub proof fn lemma_diffuse_keeps_bounds(grid: Grid, weight: int, amount: int)
    requires
        grid.wf(),
        amount >= 0,
    ensures
        grid.diffused(weight, amount).wf(),
{
}

/// The agent pass keeps the grid's size and its intensity bounds and the
/// population's size, and it leaves every agent it has updated on the grid,
/// wherever that agent was before.
pub proof fn lemma_agents_pass_keeps_invariant(
    agents: Seq<Agent>,
    grid: Grid,
    config: ConfigState,
    directions: Seq<SensorDirections>,
    count: int,
)
    requires
        grid.wf(),
        grid.width <= u32::MAX,
        grid.height <= u32::MAX,
        count <= agents.len(),
    ensures
        ({
            let (moved, left) = agents_pass(agents, grid, config, directions, count);
            &&& left.wf()
            &&& left.width == grid.width
            &&& left.height == grid.height
            &&& moved.len() == agents.len()
            &&& forall|i: int| 0 <= i < count ==> (#[trigger] moved[i]).within(left)
            &&& forall|i: int| count <= i < moved.len() ==> #[trigger] moved[i] == agents[i]
        }),
    decreases count,
{
    if count > 0 {
        lemma_agents_pass_keeps_invariant(agents, grid, config, directions, count - 1);
        let (earlier, seen) = agents_pass(agents, grid, config, directions, count - 1);
        let stepped = agents[count - 1].stepped(seen, config, directions[count - 1]);
        lemma_step_stays_on_grid(agents[count - 1], seen, config, directions[count - 1]);
        lemma_deposit_keeps_bounds(seen, stepped.cell_x(), stepped.cell_y(), DEPOSIT_AMOUNT as int);
    }
}

/// A frame keeps the invariant of the world: after both kernels have run,
/// every agent is on the grid and every intensity is within
/// `[0, MAX_INTENSITY]`.
pub proof fn lemma_frame_keeps_invariant(
    world: World,
    config: ConfigState,
    directions: Seq<SensorDirections>,
)
    requires
        world.wf(),
        world.frame_outcome(config, directions) == Ok::<FrameOutcome, FrameError>(
            FrameOutcome::Advanced,
        ),
    ensures
        world.after_frame(config, directions).wf(),
{
    lemma_agents_pass_keeps_invariant(
        world.agents,
        world.grid,
        config,
        directions,
        world.agents.len() as int,
    );
    let (agents, grid) = agents_pass(
        world.agents,
        world.grid,
        config,
        directions,
        world.agents.len() as int,
    );
    lemma_diffuse_keeps_bounds(grid, config.diffuse_speed as int, config.fade_speed as int);
}

/// The grid after `passes` diffuse-and-decay passes with no deposit in
/// between.
pub open spec fn diffused_times(grid: Grid, weight: int, amount: int, passes: nat) -> Grid
    decreases passes,
{
    if passes == 0 {
        grid
    } else {
        diffused_times(grid, weight, amount, (passes - 1) as nat).diffused(weight, amount)
    }
}

/// With a blend weight of zero a pass only fades: every cell loses the fade
/// amount, or drops to zero if it holds less.
pub proof fn lemma_decay_in_isolation(grid: Grid, amount: int, i: int)
    requires
        grid.wf(),
        amount >= 0,
        0 <= i < grid.cells.len(),
    ensures
        grid.diffused(0, amount).cells[i] == fade(grid.cells[i], amount),
        grid.diffused(0, amount).cells[i] <= grid.cells[i],
        amount > 0 && grid.cells[i] > 0 ==> grid.diffused(0, amount).cells[i] < grid.cells[i],
{
    let own = grid.cells[i];
    let around = grid.neighbourhood(i % grid.width, i / grid.width);
    assert(9 * (UNIT as int) * own + 0 * (around - 9 * own) == own * (9 * (UNIT as int)))
        by (nonlinear_arith);
    lemma_div_multiples_vanish(own, 9 * (UNIT as int));
    assert(blend(own, around, 0) == own);
}

/// With a blend weight of zero and no deposits, `passes` passes take
/// `passes` times the fade amount from every cell, stopping at zero.
pub proof fn lemma_repeated_decay(grid: Grid, amount: int, passes: nat, i: int)
    requires
        grid.wf(),
        amount >= 0,
        0 <= i < grid.cells.len(),
    ensures
        diffused_times(grid, 0, amount, passes).wf(),
        diffused_times(grid, 0, amount, passes).cells.len() == grid.cells.len(),
        diffused_times(grid, 0, amount, passes).cells[i] == fade(grid.cells[i], passes * amount),
    decreases passes,
{
    if passes > 0 {
        let before = diffused_times(grid, 0, amount, (passes - 1) as nat);
        lemma_repeated_decay(grid, amount, (passes - 1) as nat, i);
        lemma_diffuse_keeps_bounds(before, 0, amount);
        lemma_decay_in_isolation(before, amount, i);
        assert(passes * amount == (passes - 1) * amount + amount) by (nonlinear_arith);
        assert((passes - 1) * amount >= 0) by (nonlinear_arith)
            requires
                passes >= 1,
                amount >= 0,
        ;
    } else {
        assert(passes * amount == 0) by (nonlinear_arith)
            requires
                passes == 0,
        ;
    }
}

/// An agent whose forward sensor reads strictly more than both side sensors
/// keeps its heading.
pub proof fn lemma_forward_strongest_keeps_heading(
    agent: Agent,
    grid: Grid,
    config: ConfigState,
    directions: SensorDirections,
)
    requires
        agent.heading < FULL_TURN,
        agent.reading(grid, directions.forward, config.sensor_distance as int, config.sensor_size as int)
            > agent.reading(grid, directions.left, config.sensor_distance as int, config.sensor_size as int),
        agent.reading(grid, directions.forward, config.sensor_distance as int, config.sensor_size as int)
            > agent.reading(grid, directions.right, config.sensor_distance as int, config.sensor_size as int),
    ensures
        agent.turn(grid, config, directions) == Turn::Straight,
        agent.stepped(grid, config, directions).heading == agent.heading,
{
    lemma_small_mod(agent.heading as nat, FULL_TURN as nat);
}

/// An agent whose left sensor reads more than its right sensor, and whose
/// right sensor reads more than its forward sensor, turns by exactly the
/// turning speed towards the left.
pub proof fn lemma_left_strongest_turns_left(
    agent: Agent,
    grid: Grid,
    config: ConfigState,
    directions: SensorDirections,
)
    requires
        agent.reading(grid, directions.left, config.sensor_distance as int, config.sensor_size as int)
            > agent.reading(grid, directions.right, config.sensor_distance as int, config.sensor_size as int),
        agent.reading(grid, directions.right, config.sensor_distance as int, config.sensor_size as int)
            > agent.reading(grid, directions.forward, config.sensor_distance as int, config.sensor_size as int),
    ensures
        agent.turn(grid, config, directions) == Turn::Left,
        agent.stepped(grid, config, directions).heading == rotate(
            agent.heading as int,
            -(config.turning_speed as int),
        ),
        agent.heading < FULL_TURN && agent.heading as int >= config.turning_speed as int >= 0
            ==> agent.stepped(
            grid,
            config,
            directions,
        ).heading == agent.heading - config.turning_speed,
{
    lemma_mod_bound(agent.heading as int - config.turning_speed as int, FULL_TURN as int);
    if agent.heading as int >= config.turning_speed as int >= 0 && agent.heading < FULL_TURN {
        lemma_small_mod((agent.heading - config.turning_speed) as nat, FULL_TURN as nat);
    }
}

} // verus!

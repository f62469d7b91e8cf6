use physarum::agent::{Agent, Direction, SensorDirections};
use physarum::config::ConfigState;
use physarum::grid::SimulationConstants;
use physarum::scheduler::{FrameOutcome, KernelStatus, Simulation};
use physarum::seeding::PolarSeed;
use physarum::trail::MAX_INTENSITY;

fn direction(heading: u64) -> Direction {
    let angle: f64 = heading as f64 / 1e6;
    Direction { dx: (angle.cos() * 1e6).round() as i32, dy: (angle.sin() * 1e6).round() as i32 }
}

fn directions(simulation: &Simulation, turning_speed: u64) -> Vec<SensorDirections> {
    simulation
        .sensor_headings(turning_speed)
        .iter()
        .map(|&(left, forward, right)| SensorDirections {
            left: direction(left),
            forward: direction(forward),
            right: direction(right),
        })
        .collect()
}

fn next_word(state: &mut u64) -> u32 {
    *state = state.wrapping_mul(6_364_136_223_846_793_005).wrapping_add(1_442_695_040_888_963_407);
    (*state >> 32) as u32
}

fn seeded(constants: &SimulationConstants) -> Vec<Agent> {
    let mut state: u64 = 2024;
    let mut agents: Vec<Agent> = Vec::new();
    for _ in 0..constants.agent_count {
        let radial: u32 = next_word(&mut state);
        let angular: u32 = next_word(&mut state);
        let seed = PolarSeed::from_words(constants, radial, angular);
        agents.push(seed.place(constants, &direction(seed.angle)));
    }
    agents
}

#[test]
fn a_thousand_frames_on_a_small_grid() {
    let constants = SimulationConstants { grid_width: 40, grid_height: 30, agent_count: 100 };
    let config = ConfigState {
        move_speed: 330_000,
        fade_speed: 3_000,
        diffuse_speed: 50_000,
        sensor_size: 1,
        sensor_distance: 5_000_000,
        turning_speed: 200_000,
    };
    let agents = seeded(&constants);
    // every agent starts within 15 cells of the centre (20, 15), heading inward
    for agent in &agents {
        let dx: f64 = agent.x as f64 / 1e6 - 20.0;
        let dy: f64 = agent.y as f64 / 1e6 - 15.0;
        assert!((dx * dx + dy * dy).sqrt() <= 15.001);
        let inward: Direction = direction(agent.heading);
        assert!(dx * inward.dx as f64 + dy * inward.dy as f64 <= 0.0);
    }
    let mut simulation = Simulation::new(constants, agents).unwrap();
    simulation.notify(KernelStatus::Prepared);

    let mut wrapped: bool = false;
    for _ in 0..1000 {
        let before: Vec<Agent> = simulation.agents().clone();
        let dirs = directions(&simulation, config.turning_speed as u64);
        assert_eq!(simulation.advance_frame(&config, &dirs), Ok(FrameOutcome::Advanced));
        for (old, new) in before.iter().zip(simulation.agents().iter()) {
            assert!(new.x < 40_000_000);
            assert!(new.y < 30_000_000);
            // one step is a third of a cell: a larger jump is a wrap
            if old.x.abs_diff(new.x) > 20_000_000 || old.y.abs_diff(new.y) > 15_000_000 {
                wrapped = true;
            }
        }
        let total: u128 = simulation.trail().total();
        assert!(total <= 1200 * MAX_INTENSITY as u128);
    }
    assert!(wrapped);
    for y in 0..30 {
        for x in 0..40 {
            assert!(simulation.trail().intensity_at(x, y) <= MAX_INTENSITY);
        }
    }
    assert!(simulation.trail().total() > 0);
}

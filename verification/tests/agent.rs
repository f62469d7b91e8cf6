use physarum::agent::{choose_turn, update_agents, Agent, Direction, SensorDirections, Turn};
use physarum::config::ConfigState;
use physarum::fixed::FULL_TURN;
use physarum::grid::SimulationConstants;
use physarum::trail::{TrailMap, DEPOSIT_AMOUNT};

fn direction(heading: u64) -> Direction {
    let angle: f64 = heading as f64 / 1e6;
    Direction { dx: (angle.cos() * 1e6).round() as i32, dy: (angle.sin() * 1e6).round() as i32 }
}

fn directions(agent: &Agent, turning_speed: u64) -> SensorDirections {
    let (left, forward, right) = agent.sensor_headings(turning_speed);
    SensorDirections { left: direction(left), forward: direction(forward), right: direction(right) }
}

fn config() -> ConfigState {
    ConfigState {
        move_speed: 330_000,
        fade_speed: 3_000,
        diffuse_speed: 50_000,
        sensor_size: 1,
        sensor_distance: 5_000_000,
        turning_speed: 200_000,
    }
}

const EAST: Direction = Direction { dx: 1_000_000, dy: 0 };
const NORTH: Direction = Direction { dx: 0, dy: -1_000_000 };
const SOUTH: Direction = Direction { dx: 0, dy: 1_000_000 };
const WEST: Direction = Direction { dx: -1_000_000, dy: 0 };

#[test]
fn forward_strictly_strongest_goes_straight() {
    assert_eq!(choose_turn(1, 2, 1), Turn::Straight);
    assert_eq!(choose_turn(0, 1, 0), Turn::Straight);
    assert_eq!(choose_turn(5, 9, 8), Turn::Straight);
}

#[test]
fn stronger_side_wins_when_forward_is_not_strongest() {
    assert_eq!(choose_turn(3, 1, 2), Turn::Left);
    assert_eq!(choose_turn(2, 1, 3), Turn::Right);
    assert_eq!(choose_turn(3, 3, 2), Turn::Left);
    assert_eq!(choose_turn(2, 3, 3), Turn::Right);
    assert_eq!(choose_turn(9, 5, 0), Turn::Left);
    assert_eq!(choose_turn(u128::MAX, 0, 0), Turn::Left);
}

#[test]
fn equal_sides_that_forward_does_not_beat_go_straight() {
    assert_eq!(choose_turn(0, 0, 0), Turn::Straight);
    assert_eq!(choose_turn(4, 4, 4), Turn::Straight);
    assert_eq!(choose_turn(4, 1, 4), Turn::Straight);
}

#[test]
fn place_wraps_an_agent_onto_the_grid() {
    let constants = SimulationConstants { grid_width: 40, grid_height: 30, agent_count: 1 };
    let agent = Agent::place(&constants, 41_500_000, -500_000, -1_000_000);
    assert_eq!(agent, Agent { x: 1_500_000, y: 29_500_000, heading: 5_283_185 });
    let agent = Agent::place(&constants, 20_000_000, 15_000_000, 7_000_000);
    assert_eq!(agent, Agent { x: 20_000_000, y: 15_000_000, heading: 716_815 });
}

#[test]
fn sensor_headings_lie_one_turning_speed_to_either_side() {
    let agent = Agent { x: 0, y: 0, heading: 1_000_000 };
    assert_eq!(agent.sensor_headings(200_000), (800_000, 1_000_000, 1_200_000));
    let agent = Agent { x: 0, y: 0, heading: 100_000 };
    assert_eq!(agent.sensor_headings(200_000), (6_183_185, 100_000, 300_000));
    assert_eq!(agent.sensor_headings(0), (100_000, 100_000, 100_000));
}

#[test]
fn a_sensor_reads_the_window_around_its_point() {
    let mut trail = TrailMap::new(40, 30).unwrap();
    trail.deposit(25, 15, 700_000);
    trail.deposit(26, 16, 100_000);
    trail.deposit(27, 15, 50_000);
    let agent = Agent { x: 20_500_000, y: 15_500_000, heading: 0 };
    // the sensor point is (25.5, 15.5), in cell (25, 15); the window covers
    // columns 24 to 26 and rows 14 to 16
    assert_eq!(agent.sense(&trail, &EAST, 5_000_000, 1), 800_000);
    assert_eq!(agent.sense(&trail, &EAST, 5_000_000, 2), 850_000);
    assert_eq!(agent.sense(&trail, &EAST, 5_000_000, 0), 700_000);
    assert_eq!(agent.sense(&trail, &WEST, 5_000_000, 1), 0);
}

#[test]
fn a_sensor_past_the_edge_reads_the_other_side() {
    let mut trail = TrailMap::new(40, 30).unwrap();
    trail.deposit(2, 28, 600_000);
    let agent = Agent { x: 37_500_000, y: 3_500_000, heading: 0 };
    // 37.5 + 5 wraps to 2.5; 3.5 - 5 wraps to 28.5
    assert_eq!(agent.sense(&trail, &EAST, 5_000_000, 0), 0);
    assert_eq!(agent.sense(&trail, &Direction { dx: 1_000_000, dy: -1_000_000 }, 5_000_000, 0), 600_000);
}

#[test]
fn an_agent_on_a_blank_map_moves_straight_and_deposits() {
    let mut trail = TrailMap::new(40, 30).unwrap();
    let mut agent = Agent { x: 20_500_000, y: 15_500_000, heading: 0 };
    let dirs = SensorDirections { left: NORTH, forward: EAST, right: SOUTH };
    agent.step(&mut trail, &config(), &dirs);
    assert_eq!(agent, Agent { x: 20_830_000, y: 15_500_000, heading: 0 });
    assert_eq!(trail.intensity_at(20, 15), DEPOSIT_AMOUNT);
    assert_eq!(trail.total(), DEPOSIT_AMOUNT as u128);
}

#[test]
fn forward_strongest_leaves_the_heading_unchanged() {
    let mut trail = TrailMap::new(40, 30).unwrap();
    let mut agent = Agent { x: 20_500_000, y: 15_500_000, heading: 1_000_000 };
    let dirs = SensorDirections { left: NORTH, forward: EAST, right: SOUTH };
    trail.deposit(25, 15, 900_000);
    trail.deposit(20, 10, 500_000);
    trail.deposit(20, 20, 400_000);
    agent.step(&mut trail, &config(), &dirs);
    assert_eq!(agent.heading, 1_000_000);
    assert_eq!((agent.x, agent.y), (20_830_000, 15_500_000));
}

#[test]
fn left_over_right_over_forward_turns_left_by_exactly_the_turning_speed() {
    let mut trail = TrailMap::new(40, 30).unwrap();
    let mut agent = Agent { x: 20_500_000, y: 15_500_000, heading: 1_000_000 };
    let dirs = SensorDirections { left: NORTH, forward: EAST, right: SOUTH };
    trail.deposit(20, 10, 900_000);
    trail.deposit(20, 20, 500_000);
    trail.deposit(25, 15, 100_000);
    agent.step(&mut trail, &config(), &dirs);
    assert_eq!(agent.heading, 800_000);
    // it moves along its new direction
    assert_eq!((agent.x, agent.y), (20_500_000, 15_170_000));
    assert_eq!(trail.intensity_at(20, 15), DEPOSIT_AMOUNT);
}

#[test]
fn right_strongest_turns_right_by_exactly_the_turning_speed() {
    let mut trail = TrailMap::new(40, 30).unwrap();
    let mut agent = Agent { x: 20_500_000, y: 15_500_000, heading: 6_200_000 };
    let dirs = SensorDirections { left: NORTH, forward: EAST, right: SOUTH };
    trail.deposit(20, 20, 900_000);
    agent.step(&mut trail, &config(), &dirs);
    assert_eq!(agent.heading, 116_815);
    assert_eq!((agent.x, agent.y), (20_500_000, 15_830_000));
}

#[test]
fn a_turn_left_past_zero_wraps_the_heading() {
    let mut trail = TrailMap::new(40, 30).unwrap();
    let mut agent = Agent { x: 20_500_000, y: 15_500_000, heading: 100_000 };
    let dirs = SensorDirections { left: NORTH, forward: EAST, right: SOUTH };
    trail.deposit(20, 10, 900_000);
    agent.step(&mut trail, &config(), &dirs);
    assert_eq!(agent.heading, FULL_TURN - 100_000);
}

#[test]
fn an_agent_leaving_by_one_edge_enters_by_the_opposite_edge() {
    let mut trail = TrailMap::new(40, 30).unwrap();
    let dirs = SensorDirections { left: EAST, forward: EAST, right: EAST };
    let mut agent = Agent { x: 39_900_000, y: 100_000, heading: 0 };
    agent.step(&mut trail, &config(), &dirs);
    assert_eq!((agent.x, agent.y, agent.heading), (230_000, 100_000, 0));
    let dirs = SensorDirections { left: NORTH, forward: NORTH, right: NORTH };
    agent.step(&mut trail, &config(), &dirs);
    assert_eq!((agent.x, agent.y, agent.heading), (230_000, 29_770_000, 0));
    let dirs = SensorDirections { left: WEST, forward: WEST, right: WEST };
    agent.step(&mut trail, &config(), &dirs);
    assert_eq!((agent.x, agent.y, agent.heading), (39_900_000, 29_770_000, 0));
    let dirs = SensorDirections { left: SOUTH, forward: SOUTH, right: SOUTH };
    agent.step(&mut trail, &config(), &dirs);
    assert_eq!((agent.x, agent.y, agent.heading), (39_900_000, 100_000, 0));
    assert_eq!(trail.intensity_at(0, 0), DEPOSIT_AMOUNT);
    assert_eq!(trail.intensity_at(0, 29), DEPOSIT_AMOUNT);
    assert_eq!(trail.intensity_at(39, 29), DEPOSIT_AMOUNT);
    assert_eq!(trail.intensity_at(39, 0), DEPOSIT_AMOUNT);
}

#[test]
fn agents_stay_on_the_grid_whatever_the_directions() {
    let mut trail = TrailMap::new(7, 5).unwrap();
    let fast = ConfigState { move_speed: i64::MAX, sensor_distance: i64::MAX, turning_speed: i64::MAX, ..config() };
    let wild = [
        Direction { dx: i32::MAX, dy: i32::MIN },
        Direction { dx: i32::MIN, dy: i32::MAX },
        Direction { dx: 123_456_789, dy: -987_654_321 },
        Direction { dx: 0, dy: 0 },
    ];
    let mut agent = Agent { x: 6_999_999, y: 4_999_999, heading: FULL_TURN - 1 };
    for round in 0..40usize {
        let dirs = SensorDirections {
            left: wild[round % 4],
            forward: wild[(round + 1) % 4],
            right: wild[(round + 2) % 4],
        };
        trail.deposit(round as u32 % 7, round as u32 % 5, 99_999);
        agent.step(&mut trail, &fast, &dirs);
        assert!(agent.x < 7_000_000);
        assert!(agent.y < 5_000_000);
        assert!(agent.heading < FULL_TURN);
    }
}

#[test]
fn agents_are_updated_in_order_and_later_ones_sense_earlier_deposits() {
    let mut trail = TrailMap::new(40, 30).unwrap();
    // the first agent arrives in cell (25, 15); the second senses that cell
    // to its right and nothing else, so it turns right
    let mut agents = vec![
        Agent { x: 25_000_000, y: 15_500_000, heading: 0 },
        Agent { x: 25_500_000, y: 10_500_000, heading: 0 },
    ];
    let dirs = vec![
        SensorDirections { left: NORTH, forward: EAST, right: SOUTH },
        SensorDirections { left: NORTH, forward: EAST, right: SOUTH },
    ];
    update_agents(&mut agents, &mut trail, &config(), &dirs);
    assert_eq!(agents[0], Agent { x: 25_330_000, y: 15_500_000, heading: 0 });
    assert_eq!(agents[1], Agent { x: 25_500_000, y: 10_830_000, heading: 200_000 });
    assert_eq!(trail.intensity_at(25, 15), DEPOSIT_AMOUNT);
    assert_eq!(trail.intensity_at(25, 10), DEPOSIT_AMOUNT);
    assert_eq!(trail.total(), 2 * DEPOSIT_AMOUNT as u128);
}

#[test]
fn directions_from_the_sensor_headings_move_an_agent_along_its_heading() {
    let mut trail = TrailMap::new(40, 30).unwrap();
    // heading pi/2: straight down the grid
    let mut agent = Agent { x: 20_500_000, y: 15_500_000, heading: 1_570_796 };
    let dirs = directions(&agent, 200_000);
    agent.step(&mut trail, &config(), &dirs);
    assert_eq!(agent.heading, 1_570_796);
    assert_eq!(agent.x, 20_500_000);
    assert_eq!(agent.y, 15_830_000);
}

#[test]
fn an_agent_that_starts_off_the_grid_ends_on_it() {
    let mut trail = TrailMap::new(40, 30).unwrap();
    let dirs = SensorDirections { left: NORTH, forward: EAST, right: SOUTH };
    let mut agent = Agent { x: 85_000_000, y: 61_000_000, heading: 7_000_000 };
    agent.step(&mut trail, &config(), &dirs);
    assert_eq!(agent, Agent { x: 5_330_000, y: 1_000_000, heading: 716_815 });
    assert_eq!(trail.intensity_at(5, 1), DEPOSIT_AMOUNT);
    let mut agent = Agent { x: u64::MAX, y: u64::MAX, heading: u64::MAX };
    agent.step(&mut trail, &config(), &dirs);
    assert!(agent.x < 40_000_000);
    assert!(agent.y < 30_000_000);
    assert!(agent.heading < FULL_TURN);
}

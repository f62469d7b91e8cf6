use physarum::config::{ConfigError, ConfigState};
use physarum::grid::SimulationConstants;

fn constants() -> SimulationConstants {
    SimulationConstants { grid_width: 40, grid_height: 30, agent_count: 100 }
}

fn preset() -> ConfigState {
    ConfigState {
        move_speed: 330_000,
        fade_speed: 3_000,
        diffuse_speed: 50_000,
        sensor_size: 1,
        sensor_distance: 5_000_000,
        turning_speed: 200_000,
    }
}

#[test]
fn preset_is_valid() {
    assert_eq!(preset().validate(&constants()), Ok(()));
}

#[test]
fn zero_speeds_are_valid() {
    let config = ConfigState { move_speed: 0, fade_speed: 0, diffuse_speed: 0, turning_speed: 0, ..preset() };
    assert_eq!(config.validate(&constants()), Ok(()));
}

#[test]
fn negative_move_speed_is_refused() {
    let config = ConfigState { move_speed: -1, ..preset() };
    assert_eq!(config.validate(&constants()), Err(ConfigError::NegativeMoveSpeed));
}

#[test]
fn negative_fade_speed_is_refused() {
    let config = ConfigState { fade_speed: -1, ..preset() };
    assert_eq!(config.validate(&constants()), Err(ConfigError::NegativeFadeSpeed));
}

#[test]
fn negative_diffuse_speed_is_refused() {
    let config = ConfigState { diffuse_speed: i64::MIN, ..preset() };
    assert_eq!(config.validate(&constants()), Err(ConfigError::NegativeDiffuseSpeed));
}

#[test]
fn sensor_size_zero_is_refused() {
    let config = ConfigState { sensor_size: 0, ..preset() };
    assert_eq!(config.validate(&constants()), Err(ConfigError::SensorSizeZero));
}

#[test]
fn sensor_distance_under_one_cell_is_refused() {
    let config = ConfigState { sensor_distance: 999_999, ..preset() };
    assert_eq!(config.validate(&constants()), Err(ConfigError::SensorDistanceOutOfRange));
    let config = ConfigState { sensor_distance: 0, ..preset() };
    assert_eq!(config.validate(&constants()), Err(ConfigError::SensorDistanceOutOfRange));
    let config = ConfigState { sensor_distance: -5_000_000, ..preset() };
    assert_eq!(config.validate(&constants()), Err(ConfigError::SensorDistanceOutOfRange));
}

#[test]
fn sensor_distance_of_exactly_one_cell_is_accepted() {
    let config = ConfigState { sensor_distance: 1_000_000, ..preset() };
    assert_eq!(config.validate(&constants()), Ok(()));
}

#[test]
fn sensor_distance_up_to_the_shorter_side_is_accepted() {
    let config = ConfigState { sensor_distance: 30_000_000, ..preset() };
    assert_eq!(config.validate(&constants()), Ok(()));
    let tall = SimulationConstants { grid_width: 12, grid_height: 30, agent_count: 1 };
    let config = ConfigState { sensor_distance: 12_000_000, ..preset() };
    assert_eq!(config.validate(&tall), Ok(()));
}

#[test]
fn sensor_distance_over_the_shorter_side_is_refused() {
    let config = ConfigState { sensor_distance: 30_000_001, ..preset() };
    assert_eq!(config.validate(&constants()), Err(ConfigError::SensorDistanceOutOfRange));
    let tall = SimulationConstants { grid_width: 12, grid_height: 30, agent_count: 1 };
    let config = ConfigState { sensor_distance: 12_000_001, ..preset() };
    assert_eq!(config.validate(&tall), Err(ConfigError::SensorDistanceOutOfRange));
}

#[test]
fn negative_turning_speed_is_refused() {
    let config = ConfigState { turning_speed: -200_000, ..preset() };
    assert_eq!(config.validate(&constants()), Err(ConfigError::NegativeTurningSpeed));
}

#[test]
fn the_first_fault_in_field_order_is_reported() {
    let config = ConfigState {
        move_speed: -1,
        fade_speed: -1,
        diffuse_speed: -1,
        sensor_size: 0,
        sensor_distance: 0,
        turning_speed: -1,
    };
    assert_eq!(config.validate(&constants()), Err(ConfigError::NegativeMoveSpeed));
    let config = ConfigState { move_speed: 0, ..config };
    assert_eq!(config.validate(&constants()), Err(ConfigError::NegativeFadeSpeed));
    let config = ConfigState { fade_speed: 0, ..config };
    assert_eq!(config.validate(&constants()), Err(ConfigError::NegativeDiffuseSpeed));
    let config = ConfigState { diffuse_speed: 0, ..config };
    assert_eq!(config.validate(&constants()), Err(ConfigError::SensorSizeZero));
    let config = ConfigState { sensor_size: 3, ..config };
    assert_eq!(config.validate(&constants()), Err(ConfigError::SensorDistanceOutOfRange));
    let config = ConfigState { sensor_distance: 2_000_000, ..config };
    assert_eq!(config.validate(&constants()), Err(ConfigError::NegativeTurningSpeed));
    let config = ConfigState { turning_speed: 0, ..config };
    assert_eq!(config.validate(&constants()), Ok(()));
}

#[test]
fn no_sensor_distance_fits_an_empty_grid() {
    let empty = SimulationConstants { grid_width: 0, grid_height: 30, agent_count: 1 };
    assert_eq!(preset().validate(&empty), Err(ConfigError::SensorDistanceOutOfRange));
}

#[test]
fn clamp_leaves_a_valid_configuration_alone() {
    assert_eq!(preset().clamp(&constants()), preset());
}

#[test]
fn clamp_moves_each_field_to_the_nearest_end_of_its_range() {
    let config = ConfigState {
        move_speed: -1,
        fade_speed: -2,
        diffuse_speed: -3,
        sensor_size: 0,
        sensor_distance: 31_000_000,
        turning_speed: -4,
    };
    let fixed = config.clamp(&constants());
    assert_eq!(
        fixed,
        ConfigState {
            move_speed: 0,
            fade_speed: 0,
            diffuse_speed: 0,
            sensor_size: 1,
            sensor_distance: 30_000_000,
            turning_speed: 0,
        }
    );
    assert_eq!(fixed.validate(&constants()), Ok(()));
    let short = ConfigState { sensor_distance: -7, ..preset() };
    assert_eq!(short.clamp(&constants()).sensor_distance, 1_000_000);
}

#[test]
fn constants_know_their_extents() {
    let c = constants();
    assert!(c.is_valid());
    assert_eq!(c.width_extent(), 40_000_000);
    assert_eq!(c.height_extent(), 30_000_000);
    assert_eq!(c.sensor_reach(), 30_000_000);
    let empty = SimulationConstants { grid_width: 4, grid_height: 0, agent_count: 0 };
    assert!(!empty.is_valid());
    let largest = SimulationConstants { grid_width: u32::MAX, grid_height: u32::MAX, agent_count: u32::MAX };
    assert_eq!(largest.width_extent(), 4_294_967_295_000_000);
}

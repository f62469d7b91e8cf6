use physarum::agent::{Agent, Direction};
use physarum::grid::SimulationConstants;
use physarum::seeding::{integer_sqrt, scatter, PolarSeed, HALF_TURN};

fn constants(agent_count: u32) -> SimulationConstants {
    SimulationConstants { grid_width: 40, grid_height: 30, agent_count }
}

#[test]
fn integer_sqrt_rounds_down() {
    assert_eq!(integer_sqrt(0), 0);
    assert_eq!(integer_sqrt(1), 1);
    assert_eq!(integer_sqrt(2), 1);
    assert_eq!(integer_sqrt(3), 1);
    assert_eq!(integer_sqrt(4), 2);
    assert_eq!(integer_sqrt(99), 9);
    assert_eq!(integer_sqrt(100), 10);
    assert_eq!(integer_sqrt(1_000_000_000_000), 1_000_000);
    assert_eq!(integer_sqrt(999_999_999_999), 999_999);
}

#[test]
fn integer_sqrt_of_the_largest_values() {
    assert_eq!(integer_sqrt(u64::MAX), 4_294_967_295);
    assert_eq!(integer_sqrt(4_294_967_295 * 4_294_967_295), 4_294_967_295);
    assert_eq!(integer_sqrt(4_294_967_295 * 4_294_967_295 - 1), 4_294_967_294);
}

#[test]
fn words_of_zero_seed_the_centre() {
    assert_eq!(PolarSeed::from_words(&constants(1), 0, 0), PolarSeed { radius: 0, angle: 0 });
}

#[test]
fn a_quarter_of_the_radial_range_is_half_the_radius() {
    // the disk's radius is 15 cells; the square root of a quarter is a half
    let seed = PolarSeed::from_words(&constants(1), 1 << 30, 1 << 31);
    assert_eq!(seed, PolarSeed { radius: 7_500_000, angle: 3_141_592 });
}

#[test]
fn the_largest_words_stay_inside_the_disk_and_the_turn() {
    let seed = PolarSeed::from_words(&constants(1), u32::MAX, u32::MAX);
    assert_eq!(seed, PolarSeed { radius: 14_999_999, angle: 6_283_184 });
}

#[test]
fn a_seed_is_placed_along_its_direction_and_heads_for_the_centre() {
    let east = Direction { dx: 1_000_000, dy: 0 };
    let seed = PolarSeed { radius: 7_500_000, angle: 0 };
    assert_eq!(
        seed.place(&constants(1), &east),
        Agent { x: 27_500_000, y: 15_000_000, heading: HALF_TURN }
    );
    let south_west = Direction { dx: -707_107, dy: 707_107 };
    let seed = PolarSeed { radius: 10_000_000, angle: 2_356_194 };
    assert_eq!(
        seed.place(&constants(1), &south_west),
        Agent { x: 12_928_930, y: 22_071_070, heading: 5_497_786 }
    );
}

#[test]
fn a_seed_past_the_side_of_a_narrow_grid_wraps() {
    let narrow = SimulationConstants { grid_width: 10, grid_height: 30, agent_count: 1 };
    let east = Direction { dx: 1_000_000, dy: 0 };
    let seed = PolarSeed { radius: 12_000_000, angle: 4_000_000 };
    assert_eq!(
        seed.place(&narrow, &east),
        Agent { x: 7_000_000, y: 15_000_000, heading: 858_407 }
    );
}

#[test]
fn scatter_draws_one_seed_per_agent_inside_the_disk() {
    let seeds = scatter(&constants(500));
    assert_eq!(seeds.len(), 500);
    for seed in &seeds {
        assert!(seed.radius <= 15_000_000);
        assert!(seed.angle < 6_283_185);
    }
    assert!(scatter(&constants(0)).is_empty());
}

#[test]
fn scatter_does_not_repeat_one_seed() {
    let seeds = scatter(&constants(64));
    assert!(seeds.iter().any(|seed| *seed != seeds[0]));
    // the square root law puts three quarters of the seeds in the outer half
    let many = scatter(&constants(4_000));
    let outer = many.iter().filter(|seed| seed.radius >= 7_500_000).count();
    assert!(outer > 2_600 && outer < 3_400);
}

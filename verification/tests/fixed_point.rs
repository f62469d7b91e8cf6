use physarum::fixed::{rotate_heading, travel_coord, wrap_index, wrap_signed, FULL_TURN, UNIT};

#[test]
fn unit_is_one_million() {
    assert_eq!(UNIT, 1_000_000);
    assert_eq!(FULL_TURN, 6_283_185);
}

#[test]
fn wrap_signed_keeps_values_in_range() {
    assert_eq!(wrap_signed(0, 10), 0);
    assert_eq!(wrap_signed(7, 10), 7);
    assert_eq!(wrap_signed(10, 10), 0);
    assert_eq!(wrap_signed(23, 10), 3);
}

#[test]
fn wrap_signed_of_negative_values_counts_back_from_the_end() {
    assert_eq!(wrap_signed(-1, 10), 9);
    assert_eq!(wrap_signed(-10, 10), 0);
    assert_eq!(wrap_signed(-11, 10), 9);
    assert_eq!(wrap_signed(-25, 10), 5);
}

#[test]
fn wrap_signed_handles_the_extremes() {
    assert_eq!(wrap_signed(i64::MIN, 1), 0);
    assert_eq!(wrap_signed(i64::MAX, 1), 0);
    assert_eq!(wrap_signed(i64::MIN, 1 << 63), 0);
    assert_eq!(wrap_signed(i64::MIN, 7), 6);
    assert_eq!(wrap_signed(i64::MAX, 7), 0);
}

#[test]
fn wrap_index_wraps_cells() {
    assert_eq!(wrap_index(-1, 40), 39);
    assert_eq!(wrap_index(40, 40), 0);
    assert_eq!(wrap_index(41, 40), 1);
    assert_eq!(wrap_index(-41, 40), 39);
}

#[test]
fn travel_forward_within_the_axis() {
    // 0.5 + 0.33 * 1.0 = 0.83
    assert_eq!(travel_coord(500_000, 330_000, 1_000_000, 40_000_000), 830_000);
    // 0.5 + 0.33 * 0.5 = 0.665
    assert_eq!(travel_coord(500_000, 330_000, 500_000, 40_000_000), 665_000);
}

#[test]
fn travel_backward_within_the_axis() {
    assert_eq!(travel_coord(500_000, 330_000, -1_000_000, 40_000_000), 170_000);
    assert_eq!(travel_coord(500_000, 330_000, -500_000, 40_000_000), 335_000);
}

#[test]
fn travel_past_the_far_end_re_enters_at_the_near_end() {
    // 39.9 + 0.33 = 40.23 -> 0.23
    assert_eq!(travel_coord(39_900_000, 330_000, 1_000_000, 40_000_000), 230_000);
}

#[test]
fn travel_past_the_near_end_re_enters_at_the_far_end() {
    // 0.1 - 0.33 = -0.23 -> 39.77
    assert_eq!(travel_coord(100_000, 330_000, -1_000_000, 40_000_000), 39_770_000);
}

#[test]
fn travel_rounds_towards_minus_infinity() {
    // 1 * 1 / 1_000_000 is a positive fraction: no movement
    assert_eq!(travel_coord(5, 1, 1, 100), 5);
    // 1 * -1 / 1_000_000 is a negative fraction: one step back
    assert_eq!(travel_coord(5, 1, -1, 100), 4);
    assert_eq!(travel_coord(0, 1, -1, 100), 99);
}

#[test]
fn travel_many_times_around() {
    // 7 cells of movement on an axis of 3 cells
    assert_eq!(travel_coord(1_000_000, 7_000_000, 1_000_000, 3_000_000), 2_000_000);
    assert_eq!(travel_coord(1_000_000, 7_000_000, -1_000_000, 3_000_000), 0);
}

#[test]
fn travel_with_extreme_arguments_stays_on_the_axis() {
    let extent: u64 = 4_294_967_295 * UNIT;
    let a: u64 = travel_coord(extent - 1, u64::MAX, i32::MAX, extent);
    let b: u64 = travel_coord(0, u64::MAX, i32::MIN, extent);
    assert!(a < extent);
    assert!(b < extent);
    assert_eq!(travel_coord(0, u64::MAX, 0, 1), 0);
}

#[test]
fn travel_with_zero_speed_stays() {
    assert_eq!(travel_coord(123_456, 0, 1_000_000, 40_000_000), 123_456);
    assert_eq!(travel_coord(123_456, 0, -1_000_000, 40_000_000), 123_456);
}

#[test]
fn rotate_forward() {
    assert_eq!(rotate_heading(1_000_000, 200_000, true), 1_200_000);
    assert_eq!(rotate_heading(6_200_000, 200_000, true), 116_815);
}

#[test]
fn rotate_backward() {
    assert_eq!(rotate_heading(1_000_000, 200_000, false), 800_000);
    assert_eq!(rotate_heading(100_000, 200_000, false), 6_183_185);
}

#[test]
fn rotate_by_whole_turns_changes_nothing() {
    assert_eq!(rotate_heading(1_000_000, FULL_TURN, true), 1_000_000);
    assert_eq!(rotate_heading(1_000_000, 3 * FULL_TURN, false), 1_000_000);
    assert_eq!(rotate_heading(0, 0, true), 0);
    assert_eq!(rotate_heading(0, 0, false), 0);
}

#[test]
fn rotate_by_huge_angles_stays_within_a_turn() {
    assert!(rotate_heading(FULL_TURN - 1, u64::MAX, true) < FULL_TURN);
    assert!(rotate_heading(FULL_TURN - 1, u64::MAX, false) < FULL_TURN);
    let there: u64 = rotate_heading(12_345, u64::MAX, true);
    assert_eq!(rotate_heading(there, u64::MAX, false), 12_345);
}

#[test]
fn travel_brings_a_coordinate_from_outside_onto_the_axis() {
    assert_eq!(travel_coord(45_000_000, 0, 1_000_000, 40_000_000), 5_000_000);
    assert_eq!(travel_coord(45_000_000, 330_000, -1_000_000, 40_000_000), 4_670_000);
    assert_eq!(travel_coord(85_000_000, 6_000_000, -1_000_000, 40_000_000), 39_000_000);
    assert!(travel_coord(u64::MAX, u64::MAX, i32::MAX, 40_000_000) < 40_000_000);
    assert!(travel_coord(u64::MAX, u64::MAX, i32::MIN, 40_000_000) < 40_000_000);
}

#[test]
fn rotate_brings_a_heading_from_outside_into_the_turn() {
    assert_eq!(rotate_heading(7_000_000, 0, true), 716_815);
    assert_eq!(rotate_heading(7_000_000, 0, false), 716_815);
    assert_eq!(rotate_heading(7_000_000, 1_000_000, false), 6_000_000);
    assert!(rotate_heading(u64::MAX, u64::MAX, true) < FULL_TURN);
    assert!(rotate_heading(u64::MAX, u64::MAX, false) < FULL_TURN);
}

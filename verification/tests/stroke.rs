use terrarium::stroke::{interpolate, rounded_distance, COORD_MAX, DIST_MAX};

#[test]
fn distance_is_rounded_to_the_nearest_whole_number() {
    assert_eq!(rounded_distance(0, 0, 0, 0), 0);
    assert_eq!(rounded_distance(0, 0, 1, 0), 1);
    assert_eq!(rounded_distance(0, 0, 3, 4), 5);
    // 1.41
    assert_eq!(rounded_distance(0, 0, 1, 1), 1);
    // 2.24
    assert_eq!(rounded_distance(0, 0, 2, 1), 2);
    // 2.83 rounds up
    assert_eq!(rounded_distance(0, 0, 2, 2), 3);
    // 3.61 rounds up
    assert_eq!(rounded_distance(0, 0, 2, 3), 4);
    // 12.73 rounds up
    assert_eq!(rounded_distance(0, 0, 9, 9), 13);
    // 12.04
    assert_eq!(rounded_distance(0, 0, 12, 1), 12);
    assert_eq!(rounded_distance(0, 0, 799, 599), 999);
}

#[test]
fn distance_does_not_depend_on_direction() {
    assert_eq!(rounded_distance(3, 4, 0, 0), 5);
    assert_eq!(rounded_distance(9, 0, 0, 9), 13);
    assert_eq!(rounded_distance(0, 9, 9, 0), 13);
    assert_eq!(rounded_distance(7, 7, 7, 2), 5);
    assert_eq!(rounded_distance(10, 20, 13, 24), 5);
}

#[test]
fn distance_between_the_farthest_pixels() {
    // 4294967295 * 1.41421356237... = 6074000998.54
    assert_eq!(rounded_distance(0, 0, COORD_MAX, COORD_MAX), 6074000999);
    assert_eq!(rounded_distance(COORD_MAX, 0, 0, 0), 4294967295);
    assert!(rounded_distance(0, 0, COORD_MAX, COORD_MAX) <= DIST_MAX);
}

#[test]
fn interpolation_starts_and_ends_at_the_ends() {
    assert_eq!(interpolate(3, 17, 0, 12), 3);
    assert_eq!(interpolate(3, 17, 12, 12), 17);
    assert_eq!(interpolate(17, 3, 0, 12), 17);
    assert_eq!(interpolate(17, 3, 12, 12), 3);
    assert_eq!(interpolate(5, 5, 7, 12), 5);
    assert_eq!(interpolate(0, COORD_MAX, DIST_MAX, DIST_MAX), COORD_MAX);
    assert_eq!(interpolate(COORD_MAX, 0, DIST_MAX, DIST_MAX), 0);
}

#[test]
fn interpolation_rounds_to_the_nearest_pixel() {
    // 9 * k / 12
    let expected = [0, 1, 2, 2, 3, 4, 5, 5, 6, 7, 8, 8, 9];
    for k in 0..13 {
        assert_eq!(interpolate(0, 9, k as u64, 12), expected[k]);
    }
    // 2.25
    assert_eq!(interpolate(0, 9, 3, 12), 2);
    // 3.75
    assert_eq!(interpolate(0, 9, 5, 12), 4);
    // 10 + 0.4, 10 + 0.6
    assert_eq!(interpolate(10, 12, 1, 5), 10);
    assert_eq!(interpolate(10, 12, 3, 5), 11);
}

#[test]
fn interpolation_rounds_a_half_up() {
    // 1.5, 4.5, 7.5
    assert_eq!(interpolate(0, 9, 2, 12), 2);
    assert_eq!(interpolate(0, 9, 6, 12), 5);
    assert_eq!(interpolate(0, 9, 10, 12), 8);
    // 9 - 1.5 = 7.5, 9 - 4.5 = 4.5, 9 - 7.5 = 1.5
    assert_eq!(interpolate(9, 0, 2, 12), 8);
    assert_eq!(interpolate(9, 0, 6, 12), 5);
    assert_eq!(interpolate(9, 0, 10, 12), 2);
    // 0.5 and 1 - 0.5
    assert_eq!(interpolate(0, 1, 1, 2), 1);
    assert_eq!(interpolate(1, 0, 1, 2), 1);
}

#[test]
fn interpolation_toward_lower_coordinates_mirrors_the_way_up() {
    // 9 - 9 * k / 12
    let expected = [9, 8, 8, 7, 6, 5, 5, 4, 3, 2, 2, 1, 0];
    for k in 0..13 {
        assert_eq!(interpolate(9, 0, k as u64, 12), expected[k]);
    }
}

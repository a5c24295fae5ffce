use rust_fractal::grid::{interpolate_levels, maximum_level, minimum_level, uniform_levels};

#[test]
fn minimum_and_maximum_of_levels() {
    let levels = vec![5usize, 3, 9, 3, 7];
    assert_eq!(minimum_level(&levels), 3);
    assert_eq!(maximum_level(&levels), 9);
    assert_eq!(minimum_level(&vec![4]), 4);
    assert_eq!(maximum_level(&vec![4]), 4);
}

#[test]
fn uniform_levels_repeat_the_value() {
    assert_eq!(uniform_levels(11, 4), vec![11, 11, 11, 11]);
    assert!(uniform_levels(11, 0).is_empty());
}

#[test]
fn interpolation_takes_the_smallest_corner() {
    // 3 by 3 probes, row first
    let levels = vec![
        10, 20, 30, //
        40, 5, 60, //
        70, 80, 90,
    ];
    let cells = interpolate_levels(&levels, 3);
    assert_eq!(cells, vec![5, 5, 5, 5]);

    let levels = vec![
        10, 20, 30, //
        40, 50, 60, //
        70, 80, 90,
    ];
    assert_eq!(interpolate_levels(&levels, 3), vec![10, 20, 40, 50]);
}

#[test]
fn interpolation_of_a_single_probe_is_empty() {
    assert!(interpolate_levels(&vec![42], 1).is_empty());
}

#[test]
fn interpolation_of_two_by_two() {
    assert_eq!(interpolate_levels(&vec![3, 5, 7, 2], 2), vec![2]);
}

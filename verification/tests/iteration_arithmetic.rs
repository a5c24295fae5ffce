use rust_fractal::iteration::{
    aligned_iteration, back_off, coefficient_index, frame_test_value, is_reduction_step,
    is_storage_step, probe_test_value, step_back, MINIMUM_BACK_OFF, REDUCTION_PERIOD,
};

#[test]
fn coefficient_rows_follow_the_interval() {
    // 101 -> 100 / 100 = 1, 1 -> 0 / 100 = 0, 201 -> 200 / 100 = 2
    assert_eq!(coefficient_index(101, 100), 1);
    assert_eq!(coefficient_index(1, 100), 0);
    assert_eq!(coefficient_index(201, 100), 2);
    assert_eq!(coefficient_index(200, 100), 1);
    assert_eq!(coefficient_index(7, 1), 6);
}

#[test]
fn aligned_iteration_is_the_stored_one_below() {
    // 100 -> 0 + 1 = 1, 101 -> 100 + 1 = 101
    assert_eq!(aligned_iteration(100, 100), 1);
    assert_eq!(aligned_iteration(101, 100), 101);
    assert_eq!(aligned_iteration(250, 100), 201);
    assert_eq!(aligned_iteration(1, 100), 1);
    assert_eq!(aligned_iteration(9, 1), 9);
}

#[test]
fn aligning_twice_changes_nothing_and_keeps_the_row() {
    for interval in 1..20usize {
        for iteration in 1..200usize {
            let aligned = aligned_iteration(iteration, interval);
            assert!(aligned <= iteration);
            assert!(iteration - aligned < interval);
            assert_eq!((aligned - 1) % interval, 0);
            assert_eq!(aligned_iteration(aligned, interval), aligned);
            assert_eq!(coefficient_index(aligned, interval), coefficient_index(iteration, interval));
        }
    }
}

#[test]
fn storage_steps_are_multiples_of_the_interval() {
    // only every 100th iteration (101, 201 etc): steps 0, 100, 200 -> 1, 101, 201
    assert!(is_storage_step(100, 100));
    assert!(is_storage_step(200, 100));
    assert!(!is_storage_step(150, 100));
    assert!(is_storage_step(0, 100));
    assert!(is_storage_step(5, 1));
}

#[test]
fn stored_row_serves_the_following_iteration() {
    let interval = 7usize;
    let maximum_iteration = 100usize;
    let mut rows = 1usize;
    for step in 1..maximum_iteration {
        if is_storage_step(step, interval) {
            // the row pushed now has index `rows`
            assert_eq!(coefficient_index(step + 1, interval), rows);
            rows += 1;
        }
    }
    for iteration in 1..=maximum_iteration {
        assert!(coefficient_index(iteration, interval) < rows);
    }
}

#[test]
fn reduction_every_period() {
    assert_eq!(REDUCTION_PERIOD, 250);
    assert!(is_reduction_step(0));
    assert!(is_reduction_step(500));
    assert!(!is_reduction_step(501));
}

#[test]
fn step_back_one_interval() {
    assert_eq!(step_back(250, 100), 151);
    assert_eq!(step_back(101, 100), 2);
    assert_eq!(step_back(100, 100), 1);
    assert_eq!(step_back(50, 100), 1);
    assert_eq!(step_back(0, 100), 1);
}

#[test]
fn back_off_never_below_one() {
    assert_eq!(back_off(5000, 1000), 4000);
    assert_eq!(back_off(1001, 1000), 1);
    assert_eq!(back_off(1000, 1000), 1);
    assert_eq!(back_off(500, 1000), 1);
    assert_eq!(back_off(7, 0), 7);
}

#[test]
fn frame_test_value_at_least_minimum() {
    assert_eq!(MINIMUM_BACK_OFF, 1000);
    assert_eq!(frame_test_value(10), 1000);
    assert_eq!(frame_test_value(1000), 1000);
    assert_eq!(frame_test_value(5000), 5000);
}

#[test]
fn probe_test_value_rounds_to_interval() {
    assert_eq!(probe_test_value(1234, 100), 1200);
    assert_eq!(probe_test_value(10, 100), 1000);
    assert_eq!(probe_test_value(10, 300), 900);
    assert_eq!(probe_test_value(5000, 300), 4800);
    assert_eq!(probe_test_value(0, 2000), 0);
    assert_eq!(probe_test_value(4100, 2000), 4000);
}

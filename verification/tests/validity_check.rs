use rust_fractal::series::{frame_scan_step, IterationBounds, ProbeRefinement, ScanStep};

#[test]
fn frame_scan_steps_back_on_failure() {
    assert_eq!(frame_scan_step(200, 100, true), ScanStep::Settle(101));
    assert_eq!(frame_scan_step(100, 100, true), ScanStep::Settle(1));
    assert_eq!(frame_scan_step(200, 100, false), ScanStep::Advance(201));
    // failures between stored iterations are not looked at
    assert_eq!(frame_scan_step(201, 100, true), ScanStep::Advance(202));
}

#[test]
fn refinement_starts_below_the_valid_iteration() {
    let r = ProbeRefinement::new(5000, 1000, 100, 10000);
    assert_eq!(r.current_check, 4000);
    assert_eq!(r.next_check, 3000);
    assert_eq!(r.interval, 100);
    assert_eq!(r.maximum_iteration, 10000);
    let r = ProbeRefinement::new(1500, 1000, 100, 10000);
    assert_eq!(r.current_check, 500);
    assert_eq!(r.next_check, 1);
    assert_eq!(r.initial_levels(4), vec![500, 500, 500, 500]);
}

#[test]
fn refinement_scans_only_probes_at_the_current_check() {
    let r = ProbeRefinement::new(5000, 1000, 100, 10000);
    assert!(r.needs_scan(4000));
    assert!(!r.needs_scan(3000));
    assert!(r.scan_continues(9999));
    assert!(!r.scan_continues(10000));
}

#[test]
fn refinement_scan_step_cases() {
    let r = ProbeRefinement::new(5000, 1000, 100, 10000);
    // failing within one interval of the current check drops to the next check
    assert_eq!(r.scan_step(4100, true), ScanStep::Settle(3000));
    // failing later steps back one interval
    assert_eq!(r.scan_step(4200, true), ScanStep::Settle(4101));
    assert_eq!(r.scan_step(4200, false), ScanStep::Advance(4201));
    assert_eq!(r.scan_step(4150, true), ScanStep::Advance(4151));
}

#[test]
fn refinement_finish_aligns_at_the_maximum() {
    let r = ProbeRefinement::new(5000, 1000, 100, 10000);
    assert_eq!(r.finish_scan(10000), 9901);
    assert_eq!(r.finish_scan(4101), 4101);
}

#[test]
fn refinement_rounds_descend_until_settled() {
    let mut r = ProbeRefinement::new(5000, 1000, 100, 10000);
    assert!(r.round_settled(4101));
    assert!(!r.round_settled(3000));
    let mut rounds = 0;
    while !r.round_settled(r.next_check) {
        let before = r.current_check;
        r.advance(1000);
        assert!(r.current_check < before);
        rounds += 1;
    }
    assert_eq!(r.current_check, 1000);
    assert_eq!(r.next_check, 1);
    assert_eq!(rounds, 3);
    assert!(r.round_settled(1));
}

#[test]
fn bounds_start_at_one() {
    let b = IterationBounds::new();
    assert_eq!(b.min_valid_iteration, 1);
    assert_eq!(b.max_valid_iteration, 1);
    assert!(b.valid_iterations.is_empty());
    assert!(b.valid_interpolation.is_empty());
}

#[test]
fn bounds_experimental_take_cell_minima() {
    let mut b = IterationBounds::new();
    let levels = vec![
        10, 20, 30, //
        40, 50, 60, //
        70, 80, 90,
    ];
    b.record_probe_levels(levels.clone(), 3, true);
    assert_eq!(b.min_valid_iteration, 10);
    assert_eq!(b.valid_iterations, levels);
    assert_eq!(b.valid_interpolation, vec![10, 20, 40, 50]);
    assert_eq!(b.max_valid_iteration, 50);
    assert!(b.max_valid_iteration >= b.min_valid_iteration);
}

#[test]
fn bounds_plain_use_the_frame_minimum() {
    let mut b = IterationBounds::new();
    let levels = vec![
        10, 20, 30, //
        40, 50, 60, //
        70, 80, 90,
    ];
    b.record_probe_levels(levels.clone(), 3, false);
    assert_eq!(b.min_valid_iteration, 10);
    assert_eq!(b.max_valid_iteration, 10);
    assert_eq!(b.valid_interpolation, vec![10, 10, 10, 10]);
    assert_eq!(b.valid_iterations, levels);
}

#[test]
fn bounds_single_probe_plain() {
    let mut b = IterationBounds::new();
    b.record_probe_levels(vec![33], 1, false);
    assert_eq!(b.min_valid_iteration, 33);
    assert_eq!(b.max_valid_iteration, 33);
    assert!(b.valid_interpolation.is_empty());
}

#[test]
fn scanned_levels_stay_in_range() {
    let r = ProbeRefinement::new(3000, 1000, 100, 2500);
    for level in r.current_check..r.maximum_iteration {
        for exceeded in [false, true] {
            match r.scan_step(level, exceeded) {
                ScanStep::Settle(settled) => assert!(1 <= settled && settled <= level),
                ScanStep::Advance(next) => {
                    assert_eq!(next, level + 1);
                    assert!(next <= r.maximum_iteration);
                }
            }
        }
    }
    for level in 1..=r.maximum_iteration {
        let finished = r.finish_scan(level);
        assert!(1 <= finished && finished <= level);
    }
    assert_eq!(r.finish_scan(2500), 2401);
}

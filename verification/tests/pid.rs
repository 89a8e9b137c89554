use turnx::pid::PIDController;

#[test]
fn check() {
    let mut pid = PIDController::new(500, 2500, 2, 15, 1, 4, 500, 0, 0);
    for i in 0..16 {
        println!("i {} pid val returns {}", i, pid.adjust(1000));
    }
}

#[test]
fn adjust_has_exact_first_steps() {
    // start at 500 in [500, 2500], weights 2/100, 15/100, 1/100, window 4
    // step 1: p = 500, window [500,0,0,0], mean 125, d = 500,
    //         raw = 500*2 + 125*15 + 500*1 = 3375, output 33, current 533
    // step 2: p = 467, window [467,500,0,0], mean 241, d = 467,
    //         raw = 467*2 + 241*15 + 467*1 = 5016, output 50, current 583
    let mut pid = PIDController::new(500, 2500, 2, 15, 1, 4, 500, 0, 0);
    assert_eq!(pid.adjust(1000), 533);
    assert_eq!(pid.adjust(1000), 583);
}

#[test]
fn repeated_adjust_converges_within_band() {
    let mut pid = PIDController::new(500, 2500, 2, 15, 1, 4, 500, 0, 0);
    let mut previous: i64 = 500;
    for _ in 0..16 {
        let v = pid.adjust(1000);
        assert!(v >= previous);
        assert!(v <= 2500);
        previous = v;
    }
    assert!(previous > 500);
    assert!(previous <= 1000);
}

#[test]
fn current_never_leaves_band_on_extreme_targets() {
    let mut pid = PIDController::new(-10, 10, 2, 15, 1, 4, 0, 0, 0);
    for _ in 0..4 {
        let v = pid.adjust(i64::MAX);
        assert!(-10 <= v && v <= 10);
        assert!(-10 <= pid.current && pid.current <= 10);
        let w = pid.adjust(i64::MIN);
        assert!(-10 <= w && w <= 10);
    }
}

#[test]
fn window_follows_integral_size_changes() {
    let mut pid = PIDController::new(0, 1000, 2, 15, 1, 4, 0, 0, 0);
    pid.adjust(100);
    assert_eq!(pid.integral.len(), 4);
    pid.integral_size = 2;
    pid.adjust(100);
    assert_eq!(pid.integral.len(), 2);
    pid.integral_size = 6;
    pid.adjust(100);
    assert_eq!(pid.integral.len(), 6);
    pid.adjust(100);
    assert_eq!(pid.integral.len(), 6);
}

#[test]
fn window_keeps_newest_first() {
    let mut pid = PIDController::new(0, 1000000, 0, 0, 0, 3, 0, 0, 0);
    // all weights zero: current stays put, proportions are the targets
    assert_eq!(pid.adjust(7), 0);
    assert_eq!(pid.adjust(9), 0);
    let window: Vec<i64> = pid.integral.iter().copied().collect();
    assert_eq!(window, vec![9, 7, 0]);
}

use turnx::abr::{LagSenseRegulator, Pipeline};

#[test]
fn fifo_push_beyond_capacity_evicts_oldest() {
    let mut reg = LagSenseRegulator::new(0, 100, 2);
    reg.push(vec![1]);
    reg.push(vec![2]);
    assert_eq!(reg.len(), 2);
    reg.push(vec![3]);
    assert_eq!(reg.len(), 2);
    assert_eq!(reg.pop(), Some(vec![2]));
    assert_eq!(reg.pop(), Some(vec![3]));
    assert_eq!(reg.pop(), None);
}

#[test]
fn fifo_length_never_exceeds_capacity() {
    let mut reg = LagSenseRegulator::new(0, 100, 3);
    for i in 0..10u8 {
        reg.push(vec![i]);
        assert!(reg.len() <= 3);
    }
    assert_eq!(reg.pop(), Some(vec![7]));
}

#[test]
fn regulator_starts_at_band_midpoint() {
    let reg = LagSenseRegulator::new(500, 2500, 4);
    assert_eq!(reg.controller.current, 1500);
    assert_eq!(reg.controller.min, 500);
    assert_eq!(reg.controller.max, 2500);
}

#[test]
fn empty_queue_recommends_a_lower_rate() {
    // fresh controller at 1500: p = -1500, window [-1500,0,0,0],
    // mean -375, d = -1500, raw = -10125, output -101, current 1399
    let mut reg = LagSenseRegulator::new(500, 2500, 4);
    let rate = reg.observe_and_recommend();
    assert_eq!(rate, 1399);
    assert!(rate >= 500 && rate <= 2500);
    assert_eq!(reg.len(), 0);
}

#[test]
fn recommendation_stays_in_band() {
    let mut reg = LagSenseRegulator::new(500, 2500, 8);
    for i in 0..20u8 {
        reg.push(vec![i; 4]);
        let rate = reg.observe_and_recommend();
        assert!(rate >= 500 && rate <= 2500);
    }
}

#[test]
fn pipeline_builds_both_tracks() {
    let p = Pipeline::new(500, 2500, 1000, 5000, 4, 8);
    assert_eq!(p.lag_sense_audio.controller.current, 1500);
    assert_eq!(p.lag_sense_audio.fifo_capacity, 4);
    assert_eq!(p.lag_sense_video.controller.current, 3000);
    assert_eq!(p.lag_sense_video.fifo_capacity, 8);
}

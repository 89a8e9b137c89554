use turnx::compand::{Compander, DEADLINE_USECS, DEFAULT_BITRATE};
use turnx::h264::turnx_h264_calls_frame;

#[test]
fn compander_starts_with_defaults() {
    let c = Compander::new(1280, 720);
    assert_eq!(c.get_bitrate(), DEFAULT_BITRATE);
    assert_eq!(c.w, 1280);
    assert_eq!(c.h, 720);
    assert_eq!(c.len(), 0);
    assert_eq!(DEADLINE_USECS, 25_000);
}

#[test]
fn set_bitrate_changes_the_live_rate() {
    let mut c = Compander::new(640, 480);
    c.set_bitrate(2048);
    assert_eq!(c.get_bitrate(), 2048);
    assert_eq!(c.len(), 0);
}

#[test]
fn pop_returns_frames_oldest_first() {
    let mut c = Compander::new(640, 480);
    c.push(vec![1, 1]);
    c.push(vec![2, 2]);
    assert_eq!(c.len(), 2);
    assert_eq!(c.pop(), Some(vec![1, 1]));
    assert_eq!(c.pop(), Some(vec![2, 2]));
    assert_eq!(c.pop(), None);
    assert_eq!(c.len(), 0);
}

#[test]
fn calls_frame_counts_used_planes() {
    let f = turnx_h264_calls_frame::new(
        false,
        2,
        vec![vec![1; 4], vec![2; 4], vec![]],
        vec![],
    );
    assert_eq!(f.used_planes(), 2);
    assert!(!f.is_encoded);
    assert_eq!(f.data.len(), 3);
}

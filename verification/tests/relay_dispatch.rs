use turnx::frame::AVFrame;
use turnx::relay::{
    Outcome, Relay, AUDIO_ABR_QUALITY, AUDIO_FRAME_RECV, AUDIO_FRAME_SEND, FAULT, HALT, HUNG_UP,
    PICK_UP, PING, PONG, VIDEO_ABR_QUALITY, VIDEO_FRAME_RECV, VIDEO_FRAME_SEND,
};

fn setup_payload(
    audio_min: u32,
    audio_max: u32,
    video_min: u32,
    video_max: u32,
    audio_depth: u32,
    video_depth: u32,
) -> Vec<Vec<u8>> {
    let mut cfg = Vec::new();
    for v in [audio_min, audio_max, video_min, video_max, audio_depth, video_depth] {
        cfg.extend_from_slice(&v.to_be_bytes());
    }
    vec![cfg]
}

fn pick_up(relay: &mut Relay, ident: i64) -> Outcome {
    let msg = AVFrame {
        command: PICK_UP,
        ident,
        frame: setup_payload(500, 2500, 1000, 5000, 4, 8),
    };
    relay.dispatch(&msg)
}

fn reply_of(out: Outcome) -> AVFrame {
    match out {
        Outcome::Reply(r) => r,
        other => panic!("expected a plain reply, got {:?}", other),
    }
}

#[test]
fn ping_is_answered_without_any_session() {
    let mut relay = Relay::new();
    let msg = AVFrame { command: PING, ident: 7, frame: vec![] };
    let r = reply_of(relay.dispatch(&msg));
    assert_eq!(r.command, PONG);
    assert_eq!(r.ident, 7);
    assert_eq!(r.frame, vec![Vec::<u8>::new()]);
    assert_eq!(relay.sessions.len(), 0);
}

#[test]
fn halt_acknowledges_then_leaves_the_loop() {
    let mut relay = Relay::new();
    let msg = AVFrame { command: HALT, ident: 1, frame: vec![] };
    match relay.dispatch(&msg) {
        Outcome::HaltReply(r) => {
            assert_eq!(r.command, HUNG_UP);
            assert_eq!(r.ident, 1);
        }
        other => panic!("expected a halting reply, got {:?}", other),
    }
}

#[test]
fn unrecognized_command_is_fatal_without_reply() {
    let mut relay = Relay::new();
    let msg = AVFrame { command: 0x42, ident: 9, frame: vec![] };
    assert!(matches!(relay.dispatch(&msg), Outcome::Fatal));
    // the code space shared with replies is not a request space
    let msg = AVFrame { command: PONG, ident: 9, frame: vec![] };
    assert!(matches!(relay.dispatch(&msg), Outcome::Fatal));
}

#[test]
fn create_teardown_then_send_is_a_session_error_not_a_crash() {
    let mut relay = Relay::new();
    let r = reply_of(pick_up(&mut relay, 11));
    assert_eq!(r.command, PICK_UP);
    let down = AVFrame { command: HUNG_UP, ident: 11, frame: vec![] };
    let r = reply_of(relay.dispatch(&down));
    assert_eq!(r.command, HUNG_UP);
    let send = AVFrame { command: AUDIO_FRAME_SEND, ident: 11, frame: vec![vec![1, 2]] };
    let r = reply_of(relay.dispatch(&send));
    assert_eq!(r.command, FAULT);
    assert_eq!(r.ident, 11);
    // the process goes on serving
    let probe = AVFrame { command: PING, ident: 11, frame: vec![] };
    assert_eq!(reply_of(relay.dispatch(&probe)).command, PONG);
}

#[test]
fn duplicate_ident_is_rejected() {
    let mut relay = Relay::new();
    assert_eq!(reply_of(pick_up(&mut relay, 4)).command, PICK_UP);
    assert_eq!(reply_of(pick_up(&mut relay, 4)).command, FAULT);
    assert_eq!(relay.sessions.len(), 1);
}

#[test]
fn malformed_setup_is_rejected() {
    let mut relay = Relay::new();
    let msg = AVFrame { command: PICK_UP, ident: 5, frame: vec![vec![0; 23]] };
    assert_eq!(reply_of(relay.dispatch(&msg)).command, FAULT);
    let msg = AVFrame { command: PICK_UP, ident: 5, frame: vec![] };
    assert_eq!(reply_of(relay.dispatch(&msg)).command, FAULT);
    // reversed rate band
    let msg = AVFrame {
        command: PICK_UP,
        ident: 5,
        frame: setup_payload(2500, 500, 1000, 5000, 4, 8),
    };
    assert_eq!(reply_of(relay.dispatch(&msg)).command, FAULT);
    // zero FIFO depth
    let msg = AVFrame {
        command: PICK_UP,
        ident: 5,
        frame: setup_payload(500, 2500, 1000, 5000, 0, 8),
    };
    assert_eq!(reply_of(relay.dispatch(&msg)).command, FAULT);
    assert_eq!(relay.sessions.len(), 0);
}

#[test]
fn frames_ride_send_and_return_oldest_first() {
    let mut relay = Relay::new();
    pick_up(&mut relay, 3);
    let send = AVFrame {
        command: AUDIO_FRAME_SEND,
        ident: 3,
        frame: vec![vec![1], vec![2]],
    };
    let r = reply_of(relay.dispatch(&send));
    assert_eq!(r.command, AUDIO_FRAME_SEND);
    let recv = AVFrame { command: AUDIO_FRAME_RECV, ident: 3, frame: vec![] };
    assert_eq!(reply_of(relay.dispatch(&recv)).frame, vec![vec![1]]);
    assert_eq!(reply_of(relay.dispatch(&recv)).frame, vec![vec![2]]);
    // nothing pending: an empty reply, not an error
    let r = reply_of(relay.dispatch(&recv));
    assert_eq!(r.command, AUDIO_FRAME_RECV);
    assert_eq!(r.frame, Vec::<Vec<u8>>::new());
}

#[test]
fn quality_reply_carries_the_new_rate() {
    let mut relay = Relay::new();
    pick_up(&mut relay, 8);
    let msg = AVFrame { command: AUDIO_ABR_QUALITY, ident: 8, frame: vec![] };
    let r = reply_of(relay.dispatch(&msg));
    assert_eq!(r.command, AUDIO_ABR_QUALITY);
    assert_eq!(r.frame.len(), 1);
    let rate = u64::from_be_bytes(r.frame[0][..].try_into().unwrap());
    // empty queue on a fresh (500, 2500) band: the controller steps
    // down from the midpoint to 1399
    assert_eq!(rate, 1399);
}

#[test]
fn video_track_is_independent_of_audio() {
    let mut relay = Relay::new();
    pick_up(&mut relay, 6);
    let send = AVFrame { command: VIDEO_FRAME_SEND, ident: 6, frame: vec![vec![42]] };
    assert_eq!(reply_of(relay.dispatch(&send)).command, VIDEO_FRAME_SEND);
    // the audio queue saw nothing
    let recv = AVFrame { command: AUDIO_FRAME_RECV, ident: 6, frame: vec![] };
    assert_eq!(reply_of(relay.dispatch(&recv)).frame, Vec::<Vec<u8>>::new());
    let recv = AVFrame { command: VIDEO_FRAME_RECV, ident: 6, frame: vec![] };
    assert_eq!(reply_of(relay.dispatch(&recv)).frame, vec![vec![42]]);
}

#[test]
fn video_quality_uses_the_video_band() {
    let mut relay = Relay::new();
    pick_up(&mut relay, 2);
    let msg = AVFrame { command: VIDEO_ABR_QUALITY, ident: 2, frame: vec![] };
    let r = reply_of(relay.dispatch(&msg));
    let rate = u64::from_be_bytes(r.frame[0][..].try_into().unwrap());
    // fresh (1000, 5000) band, empty queue: the controller steps down
    // from the midpoint 3000 but stays inside the band
    assert!(rate >= 1000 && rate < 3000);
}

#[test]
fn second_teardown_faults() {
    let mut relay = Relay::new();
    pick_up(&mut relay, 12);
    let down = AVFrame { command: HUNG_UP, ident: 12, frame: vec![] };
    assert_eq!(reply_of(relay.dispatch(&down)).command, HUNG_UP);
    assert_eq!(reply_of(relay.dispatch(&down)).command, FAULT);
    // the halted identifier stays taken
    assert_eq!(reply_of(pick_up(&mut relay, 12)).command, FAULT);
}

#[test]
fn send_beyond_fifo_depth_keeps_newest() {
    let mut relay = Relay::new();
    // audio depth of 4: six sends keep the last four frames
    pick_up(&mut relay, 20);
    for i in 0..6u8 {
        let send = AVFrame { command: AUDIO_FRAME_SEND, ident: 20, frame: vec![vec![i]] };
        relay.dispatch(&send);
    }
    let recv = AVFrame { command: AUDIO_FRAME_RECV, ident: 20, frame: vec![] };
    assert_eq!(reply_of(relay.dispatch(&recv)).frame, vec![vec![2]]);
    assert_eq!(reply_of(relay.dispatch(&recv)).frame, vec![vec![3]]);
}

#[test]
fn track_command_on_unknown_ident_faults() {
    let mut relay = Relay::new();
    let msg = AVFrame { command: AUDIO_FRAME_SEND, ident: 99, frame: vec![vec![1]] };
    assert_eq!(reply_of(relay.dispatch(&msg)).command, FAULT);
    let msg = AVFrame { command: HUNG_UP, ident: 99, frame: vec![] };
    assert_eq!(reply_of(relay.dispatch(&msg)).command, FAULT);
}

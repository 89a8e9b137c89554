use turnx::frame::{decode, encode, encode_framed, prefix_len, wire_check, AVFrame};

#[test]
fn round_trip_reproduces_every_field() {
    let m = AVFrame {
        command: 0x05,
        ident: -42,
        frame: vec![vec![1, 2, 3], vec![], vec![255; 5]],
    };
    assert!(wire_check(&m));
    let payload = encode(&m);
    let back = decode(&payload).expect("payload must decode");
    assert_eq!(back, m);
}

#[test]
fn round_trip_no_buffers_and_extreme_idents() {
    for ident in [0i64, 1, -1, i64::MIN, i64::MAX] {
        let m = AVFrame { command: 0x80, ident, frame: vec![] };
        let back = decode(&encode(&m)).expect("payload must decode");
        assert_eq!(back, m);
    }
}

#[test]
fn encoding_has_exact_bytes() {
    let m = AVFrame { command: 1, ident: 2, frame: vec![vec![9]] };
    let payload = encode(&m);
    assert_eq!(
        payload,
        vec![
            1, // command
            0, 0, 0, 0, 0, 0, 0, 2, // ident
            0, 0, 0, 1, // one buffer
            0, 0, 0, 1, 9, // its length and bytes
        ]
    );
}

#[test]
fn truncated_payload_is_rejected() {
    let m = AVFrame { command: 3, ident: 7, frame: vec![vec![1, 2, 3]] };
    let mut payload = encode(&m);
    payload.pop();
    assert!(decode(&payload).is_none());
    assert!(decode(&vec![]).is_none());
    assert!(decode(&vec![0u8; 12]).is_none());
}

#[test]
fn trailing_bytes_are_rejected() {
    let m = AVFrame { command: 3, ident: 7, frame: vec![] };
    let mut payload = encode(&m);
    payload.push(0);
    assert!(decode(&payload).is_none());
}

#[test]
fn missing_announced_buffer_is_rejected() {
    // command, ident, a count of one buffer, then nothing
    let mut payload = vec![1u8];
    payload.extend_from_slice(&[0; 8]);
    payload.extend_from_slice(&[0, 0, 0, 1]);
    assert!(decode(&payload).is_none());
}

#[test]
fn buffer_length_overrunning_payload_is_rejected() {
    let mut payload = vec![1u8];
    payload.extend_from_slice(&[0; 8]);
    payload.extend_from_slice(&[0, 0, 0, 1]);
    payload.extend_from_slice(&[0, 0, 0, 9, 1, 2]);
    assert!(decode(&payload).is_none());
}

#[test]
fn framing_prefixes_payload_length() {
    let m = AVFrame { command: 2, ident: 5, frame: vec![vec![7, 8]] };
    let payload = encode(&m);
    let framed = encode_framed(&m).expect("payload fits the prefix");
    assert_eq!(framed.len(), payload.len() + 4);
    let n = prefix_len(framed[0], framed[1], framed[2], framed[3]);
    assert_eq!(n as usize, payload.len());
    assert_eq!(&framed[4..], &payload[..]);
}

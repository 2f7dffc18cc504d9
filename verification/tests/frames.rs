use traybridge::framing::{frame_header, frame_payload_len, FrameError};

#[test]
fn framing_round_trip() {
    let payload = vec![7u8, 8, 9];
    let frame = frame_header(&payload).unwrap();
    assert_eq!(frame.len(), 7);
    assert_eq!(&frame[..4], &[3, 0, 0, 0]);
    assert_eq!(&frame[4..], &payload[..]);
    let prefix = frame[..4].to_vec();
    assert_eq!(frame_payload_len(&prefix).unwrap(), 3);
}

#[test]
fn framing_rejects_bad_prefixes() {
    assert_eq!(
        frame_payload_len(&vec![1u8, 2, 3]).unwrap_err(),
        FrameError::BadPrefix
    );
    let empty = frame_header(&Vec::new()).unwrap();
    assert_eq!(empty, vec![0, 0, 0, 0]);
}

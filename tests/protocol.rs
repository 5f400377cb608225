use nfc_reader::driver::protocol::{Error, Protocol, ACK, DEVICE_TO_HOST, HOST_TO_DEVICE};

type Engine = Protocol<(), 200>;

fn response_frame(cmd: u8, data: &[u8]) -> Vec<u8> {
    let len = (data.len() + 2) as u8;
    let mut sum = DEVICE_TO_HOST.wrapping_add(cmd);
    for b in data {
        sum = sum.wrapping_add(*b);
    }
    let mut f = vec![0x00, 0x00, 0xFF, len, (!len).wrapping_add(1), DEVICE_TO_HOST, cmd];
    f.extend_from_slice(data);
    f.push((!sum).wrapping_add(1));
    f.push(0x00);
    f
}

#[test]
fn firmware_version_frame_is_exact() {
    let mut p = Engine::new(());
    let n = p.send_request::<()>(0x02, &[]).unwrap();
    assert_eq!(n, 9);
    assert_eq!(p.frame(n), &[0x00, 0x00, 0xFF, 0x02, 0xFE, 0xD4, 0x02, 0x2A, 0x00]);
}

#[test]
fn frame_with_payload_is_exact() {
    let mut p = Engine::new(());
    let n = p.send_request::<()>(0x14, &[0x01, 0x00, 0x00]).unwrap();
    assert_eq!(n, 12);
    assert_eq!(
        p.frame(n),
        &[0x00, 0x00, 0xFF, 0x05, 0xFB, 0xD4, 0x14, 0x01, 0x00, 0x00, 0x17, 0x00]
    );
}

#[test]
fn built_frame_checksums_sum_to_zero() {
    let mut p = Engine::new(());
    let data: Vec<u8> = (0..190u32).map(|i| (i * 37 + 11) as u8).collect();
    let n = p.send_request::<()>(0x40, &data).unwrap();
    let f = p.frame(n);
    assert_eq!(n, data.len() + 9);
    assert_eq!(f[3], 192);
    assert_eq!(f[3].wrapping_add(f[4]), 0);
    let mut sum = 0u8;
    for b in &f[5..8 + data.len()] {
        sum = sum.wrapping_add(*b);
    }
    assert_eq!(sum, 0);
    assert_eq!(f[5], HOST_TO_DEVICE);
    assert_eq!(&f[7..7 + data.len()], &data[..]);
    assert_eq!(f[n - 1], 0x00);
}

#[test]
fn payload_too_large_is_refused() {
    let mut p = Engine::new(());
    assert_eq!(p.send_request::<()>(0x40, &[0u8; 191]), Err(Error::TooMuchData));
    assert!(p.send_request::<()>(0x40, &[0u8; 190]).is_ok());
}

#[test]
fn ack_is_checked() {
    assert_eq!(Engine::read_ack::<()>(&ACK), Ok(()));
    assert_eq!(
        Engine::read_ack::<()>(&[0x00, 0x00, 0xFF, 0x00, 0xFF, 0x01]),
        Err(Error::NotAcknowledged)
    );
    assert_eq!(Engine::read_ack::<()>(&[0x00, 0x00, 0xFF]), Err(Error::NotAcknowledged));
}

#[test]
fn response_frame_len_adds_framing() {
    assert_eq!(Engine::response_frame_len(4), 13);
    assert_eq!(Engine::response_frame_len(0), 9);
}

#[test]
fn firmware_response_parses() {
    let buf = [
        0x00, 0x00, 0xFF, 0x06, 0xFA, 0xD5, 0x03, 0x32, 0x01, 0x06, 0x07, 0xE8, 0x00,
    ];
    let (cmd, data) = Engine::process_response::<()>(&buf).unwrap();
    assert_eq!(cmd, 0x03);
    assert_eq!(data, &[0x32, 0x01, 0x06, 0x07]);
}

#[test]
fn response_round_trip_with_trailing_bytes() {
    let payload = [0x10, 0x20, 0x30, 0xFF, 0x00];
    let mut buf = response_frame(0x41, &payload);
    buf.extend_from_slice(&[0xAA, 0xBB]);
    let (cmd, data) = Engine::process_response::<()>(&buf).unwrap();
    assert_eq!(cmd, 0x41);
    assert_eq!(data, &payload);
}

#[test]
fn corrupted_bytes_give_their_error() {
    let payload = [0x01, 0x02, 0x03];
    let frame = response_frame(0x4B, &payload);
    let n = payload.len();
    let cases: Vec<(usize, Error<()>)> = vec![
        (0, Error::BadResponse),
        (1, Error::BadResponse),
        (2, Error::BadResponse),
        (3, Error::BadChecksum),
        (4, Error::BadChecksum),
        (5, Error::BadResponse),
        (7 + n, Error::BadChecksum),
        (8 + n, Error::BadResponse),
    ];
    for (i, expected) in cases {
        for delta in [1u8, 0x80, 0xFF] {
            let mut bad = frame.clone();
            bad[i] = bad[i].wrapping_add(delta);
            assert_eq!(Engine::process_response::<()>(&bad), Err(expected), "byte {}", i);
        }
    }
}

#[test]
fn error_frame_is_syntax() {
    let buf = [0x00, 0x00, 0xFF, 0x01, 0xFF, 0x7F, 0x81, 0x00, 0x00];
    assert_eq!(Engine::process_response::<()>(&buf), Err(Error::Syntax));
}

#[test]
fn zero_length_is_bad_response() {
    let buf = [0x00, 0x00, 0xFF, 0x00, 0x00, 0xD5, 0x00, 0x00, 0x00];
    assert_eq!(Engine::process_response::<()>(&buf), Err(Error::BadResponse));
}

#[test]
fn short_buffer_is_underflow() {
    let frame = response_frame(0x03, &[0x32, 0x01, 0x06, 0x07]);
    let buf = &frame[..frame.len() - 2];
    assert_eq!(Engine::process_response::<()>(buf), Err(Error::BufferUnderflow));
}

#[test]
fn data_checksum_mismatch_is_detected() {
    let mut frame = response_frame(0x03, &[0x32, 0x01, 0x06, 0x07]);
    frame[8] ^= 0x01;
    assert_eq!(Engine::process_response::<()>(&frame), Err(Error::BadChecksum));
}

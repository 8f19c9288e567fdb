use open_edifier::aaec::{
    checksum, encode_request, Error, Frame, FrameDecoder, HEARTBEAT_COMMAND, RESPONSE_MAGIC,
};

fn response(command: u16, payload: &[u8]) -> Vec<u8> {
    let mut frame = Vec::from(RESPONSE_MAGIC);
    frame.extend(command.to_le_bytes());
    frame.push(payload.len() as u8);
    frame.extend(payload);
    frame.push(checksum(&frame));
    frame
}

#[test]
fn encodes_verified_one_byte_length_request() {
    assert_eq!(
        encode_request(0x0061, &[]).unwrap(),
        vec![0xaa, 0xec, 0x61, 0x00, 0x00, 0xf7]
    );
}

#[test]
fn decodes_fragmented_event_after_unrelated_bytes() {
    let wire = response(0x0066, &[30, 18]);
    let mut decoder = FrameDecoder::new();
    assert!(decoder.feed(&[0xee, 0xdd, 0xff, 0xee]).is_empty());
    assert!(decoder.feed(&wire[..3]).is_empty());
    assert_eq!(
        decoder.feed(&wire[3..]),
        vec![Frame {
            command: 0x0066,
            payload: vec![30, 18]
        }]
    );
}

#[test]
fn identifies_heartbeat_and_recovers_after_bad_checksum() {
    let mut heartbeat = response(HEARTBEAT_COMMAND, &[0; 9]);
    assert!(FrameDecoder::new().feed(&heartbeat)[0].is_heartbeat());
    let last = heartbeat.len() - 1;
    heartbeat[last] ^= 0xff;
    let expected = response(0x0066, &[30, 18]);
    heartbeat.extend(&expected);
    assert_eq!(
        FrameDecoder::new().feed(&heartbeat),
        vec![Frame {
            command: 0x0066,
            payload: vec![30, 18],
        }]
    );
}

#[test]
fn encodes_payload_bytes_and_checksum() {
    let frame = encode_request(0x1234, &[1, 2, 3]).unwrap();
    assert_eq!(frame, vec![0xaa, 0xec, 0x34, 0x12, 3, 1, 2, 3, 0xe5]);
}

#[test]
fn refuses_payloads_longer_than_the_length_byte() {
    assert_eq!(encode_request(1, &[0; 256]), Err(Error::PayloadTooLarge(256)));
    assert_eq!(encode_request(1, &[7; 255]).unwrap().len(), 261);
}

#[test]
fn checksum_wraps_modulo_256() {
    assert_eq!(checksum(&[]), 0);
    assert_eq!(checksum(&[0xff, 0x02]), 0x01);
}

#[test]
fn splitting_the_input_anywhere_yields_the_same_frames() {
    let mut wire = vec![0x01, 0xbb];
    wire.extend(response(0x0066, &[30, 18]));
    wire.extend(response(HEARTBEAT_COMMAND, &[0; 9]));
    wire.extend(response(0x00d5, &[2]));
    let whole = FrameDecoder::new().feed(&wire);
    assert_eq!(whole.len(), 3);
    for split in 0..=wire.len() {
        let mut decoder = FrameDecoder::new();
        let mut frames = decoder.feed(&wire[..split]);
        frames.extend(decoder.feed(&wire[split..]));
        assert_eq!(frames, whole);
    }
}

#[test]
fn a_single_response_frame_decodes_to_itself() {
    let payload: Vec<u8> = (0..=254).collect();
    let frames = FrameDecoder::new().feed(&response(0xbeef, &payload));
    assert_eq!(frames, vec![Frame { command: 0xbeef, payload }]);
}

#[test]
fn request_frames_are_not_taken_for_responses() {
    let request = encode_request(0x0061, &[1]).unwrap();
    assert!(FrameDecoder::new().feed(&request).is_empty());
}

#[test]
fn an_incomplete_candidate_waits_for_more_bytes() {
    let wire = response(0x0068, &[1, 2, 3, 4]);
    let mut decoder = FrameDecoder::new();
    assert!(decoder.feed(&wire[..wire.len() - 1]).is_empty());
    assert_eq!(decoder.feed(&wire[wire.len() - 1..]).len(), 1);
}

#[test]
fn every_returned_frame_is_a_checksummed_run_of_the_input() {
    let mut corrupted = response(0x0061, &[1, 2, 3]);
    let last = corrupted.len() - 1;
    corrupted[last] = corrupted[last].wrapping_add(1);
    let good = response(0x0066, &[30, 18]);
    let mut fed = vec![0x00, 0xbb];
    fed.extend(&corrupted);
    fed.extend(&good);
    fed.extend([0xbb, 0xec, 0x50]);
    let mut decoder = FrameDecoder::new();
    let mut frames = Vec::new();
    for chunk in fed.chunks(4) {
        frames.extend(decoder.feed(chunk));
    }
    assert_eq!(frames, vec![Frame { command: 0x0066, payload: vec![30, 18] }]);
    for frame in &frames {
        let run = response(frame.command, &frame.payload);
        assert!(fed.windows(run.len()).any(|window| window == run.as_slice()));
    }
}

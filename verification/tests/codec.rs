use telemetry_node::codec::{decode_message, encode_message};
use telemetry_node::sample::{Sample, Vec3};

fn sample_from_floats(time: f32, acc: [f32; 3], gyro: [f32; 3], mag: [f32; 3]) -> Sample {
    Sample::new(
        time.to_bits(),
        Vec3::new(acc[0].to_bits(), acc[1].to_bits(), acc[2].to_bits()),
        Vec3::new(gyro[0].to_bits(), gyro[1].to_bits(), gyro[2].to_bits()),
        Vec3::new(mag[0].to_bits(), mag[1].to_bits(), mag[2].to_bits()),
    )
}

#[test]
fn round_trip_of_finite_floats() {
    let samples = vec![
        sample_from_floats(0.0, [0.0, -0.0, 1.0], [-1.0, 0.5, -0.5], [1.5e-45, -1.5e-45, 0.0]),
        sample_from_floats(12.375, [9.81, -9.81, 0.001], [250.0, -250.0, 0.0], [47.5, -47.5, 3.3]),
        sample_from_floats(
            3.4e38,
            [f32::MAX, f32::MIN, f32::MIN_POSITIVE],
            [-3.4e38, 1e-38, -1e-38],
            [1e30, -1e30, 2.5],
        ),
    ];
    let node_id = b"Feather".to_vec();
    let msg = encode_message(&node_id, &samples);
    let (got_id, got_samples) = decode_message(&msg).expect("well-formed message must decode");
    assert_eq!(got_id, node_id);
    assert_eq!(got_samples, samples);
}

#[test]
fn exact_wire_bytes_of_one_sample() {
    // time 1.0 = 0x3F800000, acceleration (2.0, -2.0, 0.0), gyroscope and
    // magnetometer all 1.0; little-endian words after the header.
    let s = sample_from_floats(1.0, [2.0, -2.0, 0.0], [1.0, 1.0, 1.0], [1.0, 1.0, 1.0]);
    let node_id = b"N".to_vec();
    let msg = encode_message(&node_id, &vec![s]);
    let mut expected: Vec<u8> = Vec::new();
    expected.push(1); // identifier length
    expected.push(b'N');
    expected.extend_from_slice(&1u32.to_le_bytes()); // sample count
    expected.extend_from_slice(&1.0f32.to_bits().to_le_bytes()); // time
    expected.extend_from_slice(&2.0f32.to_bits().to_le_bytes());
    expected.extend_from_slice(&(-2.0f32).to_bits().to_le_bytes());
    expected.extend_from_slice(&0.0f32.to_bits().to_le_bytes());
    for _ in 0..6 {
        expected.extend_from_slice(&1.0f32.to_bits().to_le_bytes());
    }
    assert_eq!(msg, expected);
    // Spot-check two words: 1.0 encodes as 00 00 80 3F, -2.0 as 00 00 00 C0.
    assert_eq!(&msg[6..10], &[0x00, 0x00, 0x80, 0x3F]);
    assert_eq!(&msg[14..18], &[0x00, 0x00, 0x00, 0xC0]);
}

#[test]
fn empty_batch_and_empty_identifier_round_trip() {
    let node_id: Vec<u8> = Vec::new();
    let samples: Vec<Sample> = Vec::new();
    let msg = encode_message(&node_id, &samples);
    assert_eq!(msg, vec![0, 0, 0, 0, 0]);
    let (got_id, got_samples) = decode_message(&msg).expect("empty message must decode");
    assert!(got_id.is_empty());
    assert!(got_samples.is_empty());
}

#[test]
fn longest_identifier_round_trips() {
    let node_id: Vec<u8> = (0..255u8).chain([255]).take(255).collect();
    let samples = vec![sample_from_floats(2.5, [1.0, 2.0, 3.0], [4.0, 5.0, 6.0], [7.0, 8.0, 9.0])];
    let msg = encode_message(&node_id, &samples);
    let (got_id, got_samples) = decode_message(&msg).expect("must decode");
    assert_eq!(got_id, node_id);
    assert_eq!(got_samples, samples);
}

#[test]
fn truncated_message_is_rejected() {
    let node_id = b"Feather".to_vec();
    let samples = vec![sample_from_floats(1.0, [1.0; 3], [2.0; 3], [3.0; 3])];
    let mut msg = encode_message(&node_id, &samples);
    msg.pop();
    assert!(decode_message(&msg).is_none());
}

#[test]
fn trailing_garbage_is_rejected() {
    let node_id = b"F".to_vec();
    let samples = vec![sample_from_floats(1.0, [1.0; 3], [2.0; 3], [3.0; 3])];
    let mut msg = encode_message(&node_id, &samples);
    msg.push(0);
    assert!(decode_message(&msg).is_none());
}

#[test]
fn wrong_sample_count_is_rejected() {
    let node_id = b"F".to_vec();
    let samples = vec![sample_from_floats(1.0, [1.0; 3], [2.0; 3], [3.0; 3])];
    let mut msg = encode_message(&node_id, &samples);
    // Claim two samples while carrying one.
    msg[2] = 2;
    assert!(decode_message(&msg).is_none());
}

#[test]
fn empty_input_is_rejected() {
    assert!(decode_message(&Vec::new()).is_none());
}

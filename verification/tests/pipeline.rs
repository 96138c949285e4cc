use telemetry_node::codec::decode_message;
use telemetry_node::pipeline::{build_sample, forward_tick, sample_tick};
use telemetry_node::ring::TelemetryBuffer;
use telemetry_node::sample::{Sample, Vec3};
use telemetry_node::ws::{SessionState, SocketSession, WebSocketClientError};

fn reading(v: f32) -> Vec3 {
    Vec3::new(v.to_bits(), v.to_bits(), v.to_bits())
}

fn mk(t: u32) -> Sample {
    Sample::new(t, Vec3::new(t, 1, 2), Vec3::new(3, t, 4), Vec3::new(5, 6, t))
}

#[test]
fn a_failed_gyroscope_read_skips_the_whole_tick() {
    let mut buf = TelemetryBuffer::new(16);
    let pushed = sample_tick(&mut buf, 1, Some(reading(1.0)), None, Some(reading(3.0)));
    assert!(!pushed);
    assert_eq!(buf.len(), 0);

    // The next tick proceeds normally when all three reads succeed.
    let pushed = sample_tick(&mut buf, 2, Some(reading(1.0)), Some(reading(2.0)), Some(reading(3.0)));
    assert!(pushed);
    assert_eq!(buf.len(), 1);
    assert_eq!(buf.get(0).time, 2);
}

#[test]
fn no_partial_sample_is_ever_built() {
    assert!(build_sample(1, None, Some(reading(1.0)), Some(reading(1.0))).is_none());
    assert!(build_sample(1, Some(reading(1.0)), None, Some(reading(1.0))).is_none());
    assert!(build_sample(1, Some(reading(1.0)), Some(reading(1.0)), None).is_none());
    assert!(build_sample(1, None, None, None).is_none());

    let s = build_sample(7, Some(reading(1.5)), Some(reading(2.5)), Some(reading(3.5)))
        .expect("all reads succeeded");
    assert_eq!(s.time, 7);
    assert_eq!(s.acceleration, reading(1.5));
    assert_eq!(s.gyroscope, reading(2.5));
    assert_eq!(s.magnetometer, reading(3.5));
}

#[test]
fn forwarder_sends_one_batch_and_leaves_the_rest() {
    let mut buf = TelemetryBuffer::new(256);
    for t in 0..150u32 {
        buf.push(mk(t));
    }
    let node_id = b"Feather".to_vec();

    let msg = forward_tick(&mut buf, &node_id, 100).expect("buffer was not empty");
    let (got_id, got_samples) = decode_message(&msg).expect("well-formed message");
    assert_eq!(got_id, node_id);
    assert_eq!(got_samples.len(), 100);
    for t in 0..100u32 {
        assert_eq!(got_samples[t as usize], mk(t));
    }
    assert_eq!(buf.len(), 50);

    // The next cycle picks up the remaining 50.
    let msg = forward_tick(&mut buf, &node_id, 100).expect("buffer was not empty");
    let (_, got_samples) = decode_message(&msg).expect("well-formed message");
    assert_eq!(got_samples.len(), 50);
    for t in 0..50u32 {
        assert_eq!(got_samples[t as usize], mk(100 + t));
    }
    assert_eq!(buf.len(), 0);
}

#[test]
fn an_empty_buffer_yields_no_message() {
    let mut buf = TelemetryBuffer::new(8);
    assert!(forward_tick(&mut buf, &b"Feather".to_vec(), 100).is_none());
}

#[test]
fn sampler_and_forwarder_cooperate_through_the_buffer() {
    let mut buf = TelemetryBuffer::new(128);
    for t in 0..10u32 {
        let pushed = sample_tick(
            &mut buf,
            t,
            Some(reading(0.5)),
            Some(reading(1.5)),
            Some(reading(2.5)),
        );
        assert!(pushed);
    }
    let msg = forward_tick(&mut buf, &b"node".to_vec(), 4).expect("buffer was not empty");
    let (_, got) = decode_message(&msg).expect("well-formed message");
    assert_eq!(got.len(), 4);
    assert_eq!(got[0].time, 0);
    assert_eq!(got[3].time, 3);
    assert_eq!(buf.len(), 6);
}

#[test]
fn sends_are_refused_until_the_session_is_open() {
    let mut session = SocketSession::new();
    assert_eq!(session.check_send(), Err(WebSocketClientError::NotConnected));

    session.handshake_started();
    assert_eq!(session.state, SessionState::HandshakeInProgress);
    assert_eq!(session.check_send(), Err(WebSocketClientError::NotConnected));

    session.handshake_succeeded();
    assert_eq!(session.state, SessionState::Open);
    assert_eq!(session.check_send(), Ok(()));

    session.connection_failed();
    assert_eq!(session.state, SessionState::Disconnected);
    assert_eq!(session.check_send(), Err(WebSocketClientError::NotConnected));
}

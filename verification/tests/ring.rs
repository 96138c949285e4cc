use telemetry_node::ring::TelemetryBuffer;
use telemetry_node::sample::{Sample, Vec3};

fn mk(t: u32) -> Sample {
    Sample::new(t, Vec3::new(t, 0, 0), Vec3::new(0, t, 0), Vec3::new(0, 0, t))
}

fn contents(buf: &TelemetryBuffer) -> Vec<Sample> {
    let mut v = Vec::new();
    let mut i: usize = 0;
    while i < buf.len() {
        v.push(buf.get(i));
        i += 1;
    }
    v
}

#[test]
fn fill_within_capacity_keeps_all_in_order() {
    let mut buf = TelemetryBuffer::new(5);
    for t in 0..5u32 {
        buf.push(mk(t));
    }
    assert_eq!(buf.len(), 5);
    let got = contents(&buf);
    for t in 0..5u32 {
        assert_eq!(got[t as usize], mk(t));
    }
}

#[test]
fn partial_fill_keeps_exactly_the_pushes() {
    let mut buf = TelemetryBuffer::new(128);
    for t in 0..7u32 {
        buf.push(mk(t));
    }
    assert_eq!(buf.len(), 7);
    assert_eq!(contents(&buf), (0..7u32).map(mk).collect::<Vec<_>>());
}

#[test]
fn overflow_keeps_last_capacity_elements() {
    let mut buf = TelemetryBuffer::new(3);
    for t in 0..10u32 {
        buf.push(mk(t));
    }
    assert_eq!(buf.len(), 3);
    assert_eq!(contents(&buf), vec![mk(7), mk(8), mk(9)]);
}

#[test]
fn scenario_push_four_drain_two() {
    let a = mk(1);
    let b = mk(2);
    let c = mk(3);
    let d = mk(4);
    let mut buf = TelemetryBuffer::new(3);
    buf.push(a);
    buf.push(b);
    buf.push(c);
    buf.push(d);
    assert_eq!(contents(&buf), vec![b, c, d]);
    let batch = buf.drain_up_to(2);
    assert_eq!(batch, vec![b, c]);
    assert_eq!(contents(&buf), vec![d]);
}

#[test]
fn drain_never_exceeds_length() {
    let mut buf = TelemetryBuffer::new(4);
    buf.push(mk(1));
    buf.push(mk(2));
    let batch = buf.drain_up_to(10);
    assert_eq!(batch, vec![mk(1), mk(2)]);
    assert_eq!(buf.len(), 0);
}

#[test]
fn drain_of_empty_buffer_is_empty() {
    let mut buf = TelemetryBuffer::new(4);
    let batch = buf.drain_up_to(3);
    assert!(batch.is_empty());
    assert_eq!(buf.len(), 0);
}

#[test]
fn drain_zero_removes_nothing() {
    let mut buf = TelemetryBuffer::new(4);
    buf.push(mk(9));
    let batch = buf.drain_up_to(0);
    assert!(batch.is_empty());
    assert_eq!(buf.len(), 1);
}

#[test]
fn capacity_one_always_holds_newest() {
    let mut buf = TelemetryBuffer::new(1);
    buf.push(mk(1));
    buf.push(mk(2));
    buf.push(mk(3));
    assert_eq!(contents(&buf), vec![mk(3)]);
}

/// Producer and consumer interleaved over many iterations: every sample
/// ever observed (drained or still buffered) was pushed, none twice, order
/// survives, and the count of lost samples is exactly what overwriting a
/// full buffer explains.
#[test]
fn interleaved_push_drain_conserves_samples() {
    let cap: usize = 8;
    let mut buf = TelemetryBuffer::new(cap);
    let mut pushed: u32 = 0;
    let mut drained: Vec<Sample> = Vec::new();
    // An irregular but deterministic interleaving of bursts and drains.
    for round in 0..400u32 {
        let burst = (round % 7) + 1;
        for _ in 0..burst {
            buf.push(mk(pushed));
            pushed += 1;
        }
        if round % 3 == 0 {
            drained.extend(buf.drain_up_to((round % 5) as usize));
        }
    }
    drained.extend(buf.drain_up_to(usize::MAX));
    assert_eq!(buf.len(), 0);

    // Each observed sample was pushed exactly once and in increasing order
    // within the drain stream.
    for w in drained.windows(2) {
        assert!(w[0].time < w[1].time);
    }
    for s in &drained {
        assert!(s.time < pushed);
        assert_eq!(*s, mk(s.time));
    }
    // Conservation: pushed == observed + overwritten. The subtraction
    // panics on underflow, so no sample can have been observed twice.
    let overwritten = pushed as usize - drained.len();
    // Overwriting only ever displaces the oldest samples: the last `cap`
    // pushes always survive to the final drain, and with them the very
    // last sample ever pushed.
    assert!(overwritten <= pushed as usize - cap);
    assert_eq!(drained.last().unwrap().time, pushed - 1);
    for t in (pushed - cap as u32)..pushed {
        assert!(drained.iter().any(|s| s.time == t));
    }
}

//! The per-tick decisions of the two active loops.
//!
//! The sampling loop reads the three sensor sub-channels and pushes a
//! sample only when every read succeeded — a partial sample is never
//! constructed, and a failed tick leaves the buffer untouched. The
//! forwarding loop drains up to a batch of oldest samples and, when the
//! batch is non-empty, encodes it with the node identifier into one binary
//! message. The drain happens before the send, so a send failure loses
//! that batch by design: telemetry here is best-effort, not durable.

use vstd::prelude::*;

use crate::codec::{encode_message, spec_encode_message, MAX_NODE_ID_BYTES, SAMPLE_WIRE_BYTES};
use crate::ring::{model_push, TelemetryBuffer};
use crate::sample::{Sample, Vec3};

verus! {

/// The sample a tick yields: one exactly when all three sub-channel reads
/// succeeded, none otherwise.
pub open spec fn spec_build_sample(
    time: u32,
    acceleration: Option<Vec3>,
    gyroscope: Option<Vec3>,
    magnetometer: Option<Vec3>,
) -> Option<Sample> {
    if acceleration is Some && gyroscope is Some && magnetometer is Some {
        Some(
            Sample {
                time,
                acceleration: acceleration->0,
                gyroscope: gyroscope->0,
                magnetometer: magnetometer->0,
            },
        )
    } else {
        None
    }
}

/// Combine one tick's reads into a sample, all sub-channels or nothing.
pub fn build_sample(
    time: u32,
    acceleration: Option<Vec3>,
    gyroscope: Option<Vec3>,
    magnetometer: Option<Vec3>,
) -> (r: Option<Sample>)
    ensures
        r == spec_build_sample(time, acceleration, gyroscope, magnetometer),
{
    match (acceleration, gyroscope, magnetometer) {
        (Some(acc), Some(gyro), Some(mag)) => Some(
            Sample { time, acceleration: acc, gyroscope: gyro, magnetometer: mag },
        ),
        _ => None,
    }
}

/// One tick of the sampling loop. When every sub-channel read succeeded,
/// the assembled sample goes into the buffer; a single failed read skips
/// the tick entirely, leaves the buffer untouched, and never stops the
/// loop.
pub fn sample_tick(
    buffer: &mut TelemetryBuffer,
    time: u32,
    acceleration: Option<Vec3>,
    gyroscope: Option<Vec3>,
    magnetometer: Option<Vec3>,
) -> (pushed: bool)
    requires
        old(buffer).wf(),
    ensures
        final(buffer).wf(),
        final(buffer).cap() == old(buffer).cap(),
        pushed <==> spec_build_sample(time, acceleration, gyroscope, magnetometer) is Some,
        pushed ==> final(buffer)@ == model_push(
            old(buffer)@,
            old(buffer).cap(),
            spec_build_sample(time, acceleration, gyroscope, magnetometer)->0,
        ),
        pushed ==> final(buffer).pushed_log() == old(buffer).pushed_log().push(
            spec_build_sample(time, acceleration, gyroscope, magnetometer)->0,
        ),
        !pushed ==> *final(buffer) == *old(buffer),
{
    match build_sample(time, acceleration, gyroscope, magnetometer) {
        Some(sample) => {
            buffer.push(sample);
            true
        },
        _ => false,
    }
}

/// One cycle of the forwarding loop. Up to `batch_size` oldest samples are
/// drained from the buffer; a non-empty batch is encoded with the node
/// identifier into exactly one binary message, and an empty buffer yields
/// no message at all. The samples leave the buffer here, before any send:
/// a send failure afterwards loses this batch, which is the accepted
/// best-effort policy.
pub fn forward_tick(buffer: &mut TelemetryBuffer, node_id: &Vec<u8>, batch_size: usize) -> (msg:
    Option<Vec<u8>>)
    requires
        old(buffer).wf(),
        node_id@.len() <= MAX_NODE_ID_BYTES,
        1 <= batch_size <= u32::MAX,
        5 + node_id@.len() + batch_size * SAMPLE_WIRE_BYTES <= usize::MAX,
    ensures
        final(buffer).wf(),
        final(buffer).cap() == old(buffer).cap(),
        final(buffer)@ == old(buffer)@.skip(
            vstd::math::min(batch_size as int, old(buffer)@.len() as int),
        ),
        final(buffer).drained_log() == old(buffer).drained_log() + old(buffer)@.take(
            vstd::math::min(batch_size as int, old(buffer)@.len() as int),
        ),
        final(buffer).pushed_log() == old(buffer).pushed_log(),
        final(buffer).overwritten_log() == old(buffer).overwritten_log(),
        msg is Some <==> old(buffer)@.len() > 0,
        msg matches Some(m) ==> m@ == spec_encode_message(
            node_id@,
            old(buffer)@.take(vstd::math::min(batch_size as int, old(buffer)@.len() as int)),
        ),
{
    let batch = buffer.drain_up_to(batch_size);
    if batch.len() == 0 {
        return None;
    }
    let msg = encode_message(node_id, &batch);
    Some(msg)
}

} // verus!

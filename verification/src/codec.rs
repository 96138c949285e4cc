//! The wire encoding of outbound telemetry messages.
//!
//! A message carries a short node identifier and an ordered batch of
//! samples. The layout is compact and self-describing enough to decode:
//! one length byte and the identifier bytes, then a little-endian 32-bit
//! sample count, then each sample as ten little-endian 32-bit words
//! (timestamp, then acceleration, gyroscope and magnetometer, three words
//! each). Encoding and decoding are proved to round-trip losslessly for
//! every sample, so no reading is ever distorted on the wire.

use vstd::bytes::{
    lemma_auto_spec_u32_to_from_le_bytes, spec_u32_from_le_bytes, spec_u32_to_le_bytes,
    u32_from_le_bytes, u32_to_le_bytes,
};
use vstd::prelude::*;

use crate::sample::{Sample, Vec3};

verus! {

broadcast use vstd::std_specs::vec::group_vec_axioms;

/// Encoded size of one sample: ten 32-bit words.
pub const SAMPLE_WIRE_BYTES: usize = 40;

/// Longest node identifier the one-byte length prefix can carry.
pub const MAX_NODE_ID_BYTES: usize = 255;

/// Wire bytes of one sample: its ten words, each little-endian.
pub open spec fn spec_encode_sample(s: Sample) -> Seq<u8> {
    spec_u32_to_le_bytes(s.time) + spec_u32_to_le_bytes(s.acceleration.x)
        + spec_u32_to_le_bytes(s.acceleration.y) + spec_u32_to_le_bytes(s.acceleration.z)
        + spec_u32_to_le_bytes(s.gyroscope.x) + spec_u32_to_le_bytes(s.gyroscope.y)
        + spec_u32_to_le_bytes(s.gyroscope.z) + spec_u32_to_le_bytes(s.magnetometer.x)
        + spec_u32_to_le_bytes(s.magnetometer.y) + spec_u32_to_le_bytes(s.magnetometer.z)
}

/// The sample whose wire bytes are `b` (40 bytes).
pub open spec fn spec_decode_sample(b: Seq<u8>) -> Sample
    recommends
        b.len() == SAMPLE_WIRE_BYTES,
{
    Sample {
        time: spec_u32_from_le_bytes(b.subrange(0, 4)),
        acceleration: Vec3 {
            x: spec_u32_from_le_bytes(b.subrange(4, 8)),
            y: spec_u32_from_le_bytes(b.subrange(8, 12)),
            z: spec_u32_from_le_bytes(b.subrange(12, 16)),
        },
        gyroscope: Vec3 {
            x: spec_u32_from_le_bytes(b.subrange(16, 20)),
            y: spec_u32_from_le_bytes(b.subrange(20, 24)),
            z: spec_u32_from_le_bytes(b.subrange(24, 28)),
        },
        magnetometer: Vec3 {
            x: spec_u32_from_le_bytes(b.subrange(28, 32)),
            y: spec_u32_from_le_bytes(b.subrange(32, 36)),
            z: spec_u32_from_le_bytes(b.subrange(36, 40)),
        },
    }
}

/// Wire bytes of a batch: each sample's bytes, in order.
pub open spec fn spec_encode_samples(samples: Seq<Sample>) -> Seq<u8>
    decreases samples.len(),
{
    if samples.len() == 0 {
        Seq::<u8>::empty()
    } else {
        spec_encode_samples(samples.drop_last()) + spec_encode_sample(samples.last())
    }
}

/// Wire bytes of a whole message: length-prefixed node identifier,
/// little-endian sample count, then the samples.
pub open spec fn spec_encode_message(node_id: Seq<u8>, samples: Seq<Sample>) -> Seq<u8>
    recommends
        node_id.len() <= MAX_NODE_ID_BYTES,
        samples.len() <= u32::MAX,
{
    seq![node_id.len() as u8] + node_id + spec_u32_to_le_bytes(samples.len() as u32)
        + spec_encode_samples(samples)
}

/// The message whose wire bytes are `b`, if `b` is exactly one
/// well-formed message; the node identifier and the samples in order.
pub open spec fn spec_decode_message(b: Seq<u8>) -> Option<(Seq<u8>, Seq<Sample>)> {
    if b.len() < 1 {
        None
    } else {
        let id_len = b[0] as int;
        if b.len() < 1 + id_len + 4 {
            None
        } else {
            let node_id = b.subrange(1, 1 + id_len);
            let count = spec_u32_from_le_bytes(b.subrange(1 + id_len, 5 + id_len)) as int;
            if b.len() != 5 + id_len + count * SAMPLE_WIRE_BYTES {
                None
            } else {
                let samples = Seq::new(
                    count as nat,
                    |i: int|
                        spec_decode_sample(
                            b.subrange(
                                5 + id_len + i * SAMPLE_WIRE_BYTES,
                                5 + id_len + (i + 1) * SAMPLE_WIRE_BYTES,
                            ),
                        ),
                );
                Some((node_id, samples))
            }
        }
    }
}

/// A batch's wire bytes are exactly 40 per sample.
pub proof fn lemma_encode_samples_len(samples: Seq<Sample>)
    ensures
        spec_encode_samples(samples).len() == samples.len() * SAMPLE_WIRE_BYTES,
    decreases samples.len(),
{
    lemma_auto_spec_u32_to_from_le_bytes();
    if samples.len() > 0 {
        lemma_encode_samples_len(samples.drop_last());
    }
}

/// Within a batch's wire bytes, sample `i` occupies bytes `40 i .. 40 (i+1)`.
pub proof fn lemma_encode_samples_index(samples: Seq<Sample>, i: int)
    requires
        0 <= i < samples.len(),
    ensures
        spec_encode_samples(samples).subrange(
            i * SAMPLE_WIRE_BYTES,
            (i + 1) * SAMPLE_WIRE_BYTES,
        ) == spec_encode_sample(samples[i]),
    decreases samples.len(),
{
    lemma_auto_spec_u32_to_from_le_bytes();
    lemma_encode_samples_len(samples.drop_last());
    if i == samples.len() - 1 {
        assert(spec_encode_samples(samples).subrange(
            i * SAMPLE_WIRE_BYTES,
            (i + 1) * SAMPLE_WIRE_BYTES,
        ) =~= spec_encode_sample(samples.last()));
    } else {
        lemma_encode_samples_index(samples.drop_last(), i);
        assert(spec_encode_samples(samples).subrange(
            i * SAMPLE_WIRE_BYTES,
            (i + 1) * SAMPLE_WIRE_BYTES,
        ) =~= spec_encode_samples(samples.drop_last()).subrange(
            i * SAMPLE_WIRE_BYTES,
            (i + 1) * SAMPLE_WIRE_BYTES,
        ));
    }
}

/// Decoding one sample's wire bytes recovers the sample.
pub proof fn lemma_sample_roundtrip(s: Sample)
    ensures
        spec_encode_sample(s).len() == SAMPLE_WIRE_BYTES,
        spec_decode_sample(spec_encode_sample(s)) == s,
{
    lemma_auto_spec_u32_to_from_le_bytes();
    let b = spec_encode_sample(s);
    assert(b.subrange(0, 4) =~= spec_u32_to_le_bytes(s.time));
    assert(b.subrange(4, 8) =~= spec_u32_to_le_bytes(s.acceleration.x));
    assert(b.subrange(8, 12) =~= spec_u32_to_le_bytes(s.acceleration.y));
    assert(b.subrange(12, 16) =~= spec_u32_to_le_bytes(s.acceleration.z));
    assert(b.subrange(16, 20) =~= spec_u32_to_le_bytes(s.gyroscope.x));
    assert(b.subrange(20, 24) =~= spec_u32_to_le_bytes(s.gyroscope.y));
    assert(b.subrange(24, 28) =~= spec_u32_to_le_bytes(s.gyroscope.z));
    assert(b.subrange(28, 32) =~= spec_u32_to_le_bytes(s.magnetometer.x));
    assert(b.subrange(32, 36) =~= spec_u32_to_le_bytes(s.magnetometer.y));
    assert(b.subrange(36, 40) =~= spec_u32_to_le_bytes(s.magnetometer.z));
}

/// Law: the wire encoding is lossless — decoding an encoded message
/// recovers the node identifier and every sample, in order.
pub proof fn lemma_message_roundtrip(node_id: Seq<u8>, samples: Seq<Sample>)
    requires
        node_id.len() <= MAX_NODE_ID_BYTES,
        samples.len() <= u32::MAX,
    ensures
        spec_decode_message(spec_encode_message(node_id, samples)) == Some((node_id, samples)),
{
    lemma_auto_spec_u32_to_from_le_bytes();
    lemma_encode_samples_len(samples);
    let b = spec_encode_message(node_id, samples);
    let id_len = node_id.len() as int;
    assert(b[0] == node_id.len() as u8);
    assert(b.subrange(1, 1 + id_len) =~= node_id);
    assert(b.subrange(1 + id_len, 5 + id_len) =~= spec_u32_to_le_bytes(samples.len() as u32));
    let body = spec_encode_samples(samples);
    assert(b.subrange(5 + id_len, b.len() as int) =~= body);
    let count = samples.len() as int;
    assert(b.len() == 5 + id_len + count * SAMPLE_WIRE_BYTES);
    let decoded = spec_decode_message(b);
    assert(decoded is Some);
    let got = decoded->Some_0.1;
    assert forall|i: int| 0 <= i < count implies got[i] == samples[i] by {
        lemma_encode_samples_index(samples, i);
        assert(b.subrange(
            5 + id_len + i * SAMPLE_WIRE_BYTES,
            5 + id_len + (i + 1) * SAMPLE_WIRE_BYTES,
        ) =~= body.subrange(i * SAMPLE_WIRE_BYTES, (i + 1) * SAMPLE_WIRE_BYTES));
        lemma_sample_roundtrip(samples[i]);
    }
    assert(got =~= samples);
}

/// Append one 32-bit word to `out` in little-endian order.
fn push_word(out: &mut Vec<u8>, w: u32)
    ensures
        final(out)@ == old(out)@ + spec_u32_to_le_bytes(w),
{
    let bytes = u32_to_le_bytes(w);
    let mut i: usize = 0;
    while i < bytes.len()
        invariant
            i <= bytes@.len(),
            bytes@ == spec_u32_to_le_bytes(w),
            bytes@.len() == 4,
            out@ == old(out)@ + bytes@.take(i as int),
        decreases bytes@.len() - i,
    {
        let b = bytes[i];
        out.push(b);
        proof {
            assert(old(out)@ + bytes@.take(i as int) + seq![bytes@[i as int]] =~= old(out)@
                + bytes@.take(i + 1));
        }
        i = i + 1;
    }
    proof {
        assert(bytes@.take(4) =~= bytes@);
    }
}

/// Append one sample's wire bytes to `out`.
fn push_sample(out: &mut Vec<u8>, s: &Sample)
    ensures
        final(out)@ == old(out)@ + spec_encode_sample(*s),
{
    push_word(out, s.time);
    push_word(out, s.acceleration.x);
    push_word(out, s.acceleration.y);
    push_word(out, s.acceleration.z);
    push_word(out, s.gyroscope.x);
    push_word(out, s.gyroscope.y);
    push_word(out, s.gyroscope.z);
    push_word(out, s.magnetometer.x);
    push_word(out, s.magnetometer.y);
    push_word(out, s.magnetometer.z);
    proof {
        assert(out@ =~= old(out)@ + spec_encode_sample(*s));
    }
}

/// Encode one message: the node identifier and the batch, ready to send
/// as a single binary frame.
pub fn encode_message(node_id: &Vec<u8>, samples: &Vec<Sample>) -> (msg: Vec<u8>)
    requires
        node_id@.len() <= MAX_NODE_ID_BYTES,
        samples@.len() <= u32::MAX,
        5 + node_id@.len() + samples@.len() * SAMPLE_WIRE_BYTES <= usize::MAX,
    ensures
        msg@ == spec_encode_message(node_id@, samples@),
{
    let mut msg: Vec<u8> = Vec::new();
    msg.push(node_id.len() as u8);
    let mut i: usize = 0;
    while i < node_id.len()
        invariant
            i <= node_id@.len(),
            node_id@.len() <= MAX_NODE_ID_BYTES,
            msg@ == seq![node_id@.len() as u8] + node_id@.take(i as int),
        decreases node_id@.len() - i,
    {
        let b = node_id[i];
        msg.push(b);
        proof {
            assert(seq![node_id@.len() as u8] + node_id@.take(i as int) + seq![node_id@[i as int]]
                =~= seq![node_id@.len() as u8] + node_id@.take(i + 1));
        }
        i = i + 1;
    }
    proof {
        assert(node_id@.take(node_id@.len() as int) =~= node_id@);
    }
    push_word(&mut msg, samples.len() as u32);
    let ghost header: Seq<u8> = msg@;
    let mut j: usize = 0;
    while j < samples.len()
        invariant
            j <= samples@.len(),
            msg@ == header + spec_encode_samples(samples@.take(j as int)),
        decreases samples@.len() - j,
    {
        let s = samples[j];
        push_sample(&mut msg, &s);
        proof {
            assert(samples@.take(j + 1).drop_last() =~= samples@.take(j as int));
            assert(samples@.take(j + 1).last() == samples@[j as int]);
            assert(header + spec_encode_samples(samples@.take(j as int))
                + spec_encode_sample(samples@[j as int]) =~= header + spec_encode_samples(
                samples@.take(j + 1),
            ));
        }
        j = j + 1;
    }
    proof {
        assert(samples@.take(samples@.len() as int) =~= samples@);
        assert(msg@ =~= spec_encode_message(node_id@, samples@));
    }
    msg
}

/// Read the little-endian 32-bit word at `at`.
fn read_word(b: &Vec<u8>, at: usize) -> (w: u32)
    requires
        at + 4 <= b.len(),
    ensures
        w == spec_u32_from_le_bytes(b@.subrange(at as int, at + 4)),
{
    let mut word_bytes: Vec<u8> = Vec::new();
    word_bytes.push(b[at]);
    word_bytes.push(b[at + 1]);
    word_bytes.push(b[at + 2]);
    word_bytes.push(b[at + 3]);
    proof {
        assert(word_bytes@ =~= b@.subrange(at as int, at + 4));
    }
    u32_from_le_bytes(word_bytes.as_slice())
}

/// Decode the sample whose wire bytes start at `at`.
fn read_sample(b: &Vec<u8>, at: usize) -> (s: Sample)
    requires
        at + SAMPLE_WIRE_BYTES <= b.len(),
    ensures
        s == spec_decode_sample(b@.subrange(at as int, at + SAMPLE_WIRE_BYTES)),
{
    let ghost chunk: Seq<u8> = b@.subrange(at as int, at + SAMPLE_WIRE_BYTES);
    let s = Sample {
        time: read_word(b, at),
        acceleration: Vec3 {
            x: read_word(b, at + 4),
            y: read_word(b, at + 8),
            z: read_word(b, at + 12),
        },
        gyroscope: Vec3 {
            x: read_word(b, at + 16),
            y: read_word(b, at + 20),
            z: read_word(b, at + 24),
        },
        magnetometer: Vec3 {
            x: read_word(b, at + 28),
            y: read_word(b, at + 32),
            z: read_word(b, at + 36),
        },
    };
    proof {
        assert(b@.subrange(at as int, at + 4) =~= chunk.subrange(0, 4));
        assert(b@.subrange(at + 4, at + 8) =~= chunk.subrange(4, 8));
        assert(b@.subrange(at + 8, at + 12) =~= chunk.subrange(8, 12));
        assert(b@.subrange(at + 12, at + 16) =~= chunk.subrange(12, 16));
        assert(b@.subrange(at + 16, at + 20) =~= chunk.subrange(16, 20));
        assert(b@.subrange(at + 20, at + 24) =~= chunk.subrange(20, 24));
        assert(b@.subrange(at + 24, at + 28) =~= chunk.subrange(24, 28));
        assert(b@.subrange(at + 28, at + 32) =~= chunk.subrange(28, 32));
        assert(b@.subrange(at + 32, at + 36) =~= chunk.subrange(32, 36));
        assert(b@.subrange(at + 36, at + 40) =~= chunk.subrange(36, 40));
    }
    s
}

/// Decode a whole message. Returns the node identifier and the samples
/// when `bytes` is exactly one well-formed message, and nothing otherwise.
pub fn decode_message(bytes: &Vec<u8>) -> (r: Option<(Vec<u8>, Vec<Sample>)>)
    ensures
        r is Some <==> spec_decode_message(bytes@) is Some,
        r matches Some((node_id, samples)) ==> Some((node_id@, samples@))
            == spec_decode_message(bytes@),
{
    let total: usize = bytes.len();
    if total < 1 {
        return None;
    }
    let id_len: usize = bytes[0] as usize;
    if total < 1 + id_len + 4 {
        return None;
    }
    let mut node_id: Vec<u8> = Vec::new();
    let mut i: usize = 0;
    while i < id_len
        invariant
            i <= id_len,
            1 + id_len <= bytes@.len(),
            node_id@ == bytes@.subrange(1, 1 + i as int),
        decreases id_len - i,
    {
        let b = bytes[1 + i];
        node_id.push(b);
        proof {
            assert(bytes@.subrange(1, 1 + i as int).push(bytes@[1 + i])
                =~= bytes@.subrange(1, 1 + (i + 1)));
        }
        i = i + 1;
    }
    let count_word: u32 = read_word(bytes, 1 + id_len);
    let count: usize = count_word as usize;
    let body_len: usize = total - (1 + id_len + 4);
    proof {
        vstd::arithmetic::div_mod::lemma_fundamental_div_mod(
            body_len as int,
            SAMPLE_WIRE_BYTES as int,
        );
    }
    if body_len % SAMPLE_WIRE_BYTES != 0 || body_len / SAMPLE_WIRE_BYTES != count {
        // The body is not exactly `count` whole samples, so the length
        // equation of a well-formed message cannot hold.
        proof {
            let bl: int = body_len as int;
            let w: int = SAMPLE_WIRE_BYTES as int;
            let q: int = bl / w;
            let r: int = bl % w;
            assert(bl != count * w) by (nonlinear_arith)
                requires
                    bl == w * q + r,
                    0 <= r < w,
                    r != 0 || q != count,
                    0 <= count,
            ;
            assert(bytes@.len() != 5 + id_len + count * SAMPLE_WIRE_BYTES);
        }
        return None;
    }
    proof {
        assert(bytes@.len() == 5 + id_len + count * SAMPLE_WIRE_BYTES);
        assert(spec_decode_message(bytes@) is Some);
    }
    let ghost decoded: Seq<Sample> = spec_decode_message(bytes@)->Some_0.1;
    let mut samples: Vec<Sample> = Vec::new();
    let mut j: usize = 0;
    while j < count
        invariant
            j <= count,
            total == bytes@.len(),
            1 + id_len + 4 <= total,
            bytes@.len() == 5 + id_len + count * SAMPLE_WIRE_BYTES,
            decoded.len() == count,
            forall|k: int|
                0 <= k < count ==> decoded[k] == spec_decode_sample(
                    bytes@.subrange(
                        5 + id_len + k * SAMPLE_WIRE_BYTES,
                        5 + id_len + (k + 1) * SAMPLE_WIRE_BYTES,
                    ),
                ),
            samples@ == decoded.take(j as int),
        decreases count - j,
    {
        proof {
            assert(j * SAMPLE_WIRE_BYTES + SAMPLE_WIRE_BYTES <= count * SAMPLE_WIRE_BYTES)
                by (nonlinear_arith)
                requires
                    0 <= j < count,
            ;
        }
        let s = read_sample(bytes, 5 + id_len + j * SAMPLE_WIRE_BYTES);
        samples.push(s);
        proof {
            assert(decoded.take(j as int).push(decoded[j as int]) =~= decoded.take(j + 1));
        }
        j = j + 1;
    }
    proof {
        assert(decoded.take(count as int) =~= decoded);
        assert(node_id@ =~= spec_decode_message(bytes@)->Some_0.0);
    }
    Some((node_id, samples))
}

} // verus!

//! The data unit of the pipeline: one timestamped reading of all sensor axes.
//!
//! The pipeline never does arithmetic on readings: it only moves them from
//! the sensor to the wire. Readings and timestamps are therefore carried as
//! the raw 32-bit patterns the sensor driver and the clock hand over, which
//! keeps forwarding bit-exact and the types free of platform float quirks.

use vstd::prelude::*;

verus! {

/// One three-axis reading, each axis a raw 32-bit pattern.
#[derive(Clone, Copy, PartialEq, Eq, Structural, Debug)]
pub struct Vec3 {
    pub x: u32,
    pub y: u32,
    pub z: u32,
}

/// One timestamped reading of all three sensor sub-channels.
/// Immutable once created: produced by the sampler, owned by the ring
/// buffer until drained, consumed by the forwarder.
#[derive(Clone, Copy, PartialEq, Eq, Structural, Debug)]
pub struct Sample {
    /// Monotonic time since pipeline start, as a raw 32-bit pattern.
    pub time: u32,
    pub acceleration: Vec3,
    pub gyroscope: Vec3,
    pub magnetometer: Vec3,
}

impl Vec3 {
    pub fn new(x: u32, y: u32, z: u32) -> (v: Vec3)
        ensures
            v == (Vec3 { x, y, z }),
    {
        Vec3 { x, y, z }
    }
}

impl Sample {
    pub fn new(time: u32, acceleration: Vec3, gyroscope: Vec3, magnetometer: Vec3) -> (s: Sample)
        ensures
            s == (Sample { time, acceleration, gyroscope, magnetometer }),
    {
        Sample { time, acceleration, gyroscope, magnetometer }
    }
}

} // verus!

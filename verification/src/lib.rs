//! Verified core of a battery-powered sensor node's telemetry pipeline.
//!
//! A sampling loop reads a 9-axis inertial sensor and pushes timestamped
//! samples into a bounded ring buffer; a forwarding loop drains batches from
//! the buffer, serializes them into binary messages, and sends them over a
//! persistent socket whose link a connection manager keeps up. This crate
//! holds the parts of that pipeline that are pure logic — the buffer, the
//! wire codec, the connection and session state machines, and the per-tick
//! decisions of the two loops — each with a proved contract. The hardware
//! and network edges live in the surrounding application.

pub mod codec;
pub mod link;
pub mod pipeline;
pub mod ring;
pub mod sample;
pub mod ws;

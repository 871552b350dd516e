//! Core of a real-time audio loopback bridge.
//!
//! Audio frames captured on one device are carried to another device through
//! fixed-capacity, non-blocking sample queues, one per logical channel.  The
//! modules here hold everything that runs inside the time-constrained device
//! callbacks: sample-format conversion, channel mapping, the bounded queue
//! with its overrun/underrun policy, the per-block capture and render steps,
//! and the bridge state machine that validates a configuration before any
//! stream starts.  Device enumeration and the actual stream handles live
//! outside this crate.

pub mod bridge;
pub mod callbacks;
pub mod mapper;
pub mod playback;
pub mod ring;
pub mod sample;

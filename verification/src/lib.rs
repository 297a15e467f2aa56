//! Real-time processing core of an audio-plugin host.
//!
//! The library models the shared sample/event buffers with their
//! constant/silence hints, the fan-in sum tasks that merge graph edges, the
//! per-plugin processing state machine with bypass declicking and
//! stale-schedule guarding, and the control-side coordination pieces (active
//! state handshake, deferred collection, coarse timer wheel).
//!
//! Audio samples are fixed-point values carried as `i32`; instants are
//! milliseconds carried as `u64`. The surrounding host shell converts at the
//! edges.

#![verifier::loop_isolation(false)]

pub mod buffer;
pub mod bypass;
pub mod channel;
pub mod collector;
pub mod engine;
pub mod events;
pub mod plugin;
pub mod port;
pub mod processor;
pub mod sum_task;
pub mod timer_wheel;

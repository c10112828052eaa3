//! A screen-capture pipeline: a capture worker that turns "frame arrived"
//! callbacks into a rate-limited, resolution-normalised stream of frames, and
//! a consumer handle that mirrors the requested settings and pulls the
//! delivered frames on demand.
//!
//! Everything here computes on plain values. The capture session, the two
//! channels and the clock belong to the embedding program, which hands the
//! commands, the timestamps and the raw buffers in and carries the events
//! out.

pub mod frame;
pub mod command;
pub mod wire;
pub mod resample;
pub mod worker;
pub mod consumer;
pub mod target;
pub mod pipeline;


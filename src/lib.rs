//! Playback orchestration for an audio/video player: media clock, control
//! state machine, sample buffer and a single-owner task queue.

pub mod clock;
pub mod session;
pub mod sample_buffer;
pub mod executor;
pub mod layout;

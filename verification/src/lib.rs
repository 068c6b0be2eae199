//! A streaming adapter that puts a block-oriented time and pitch stretching
//! engine between a sample source that is pulled from and a consumer that
//! pulls, one sample at a time.
//!
//! The adapter decides and never touches the outside world. Each call of
//! `RubberBandSource::step` takes what the driver last did, as a `Reply`, and
//! says what the driver has to do next, as a `Request`: pull a sample from
//! upstream, feed a block to the engine, drain the engine, replace the
//! engine, or hand a sample to the consumer. `model` defines the step as a
//! function on states, and `laws` proves what holds of every run of it.
//!
//! Samples are the bit patterns of 32-bit IEEE-754 numbers, and ratios those
//! of 64-bit ones: the library moves them and never computes with them.

pub mod buffer;
pub mod engine;
pub mod error;
pub mod keyframe;
pub mod laws;
pub mod model;
pub mod options;
pub mod protocol;
pub mod source;

pub use crate::buffer::AudioBuffer;
pub use crate::engine::EngineConfig;
pub use crate::error::StretchError;
pub use crate::keyframe::KeyFrame;
pub use crate::model::{Stage, HIGH_WATER_MARK, INPUT_BUFFER_SIZE};
pub use crate::options::RubberBandOption;
pub use crate::protocol::{Phase, Reply, Request};
pub use crate::source::RubberBandSource;

//! Audio capture and normalization for speech recognition.
//!
//! The crate has two halves. The capture half resolves an input device,
//! selects a stream configuration, and writes incoming samples to a
//! progressively updated WAV file. The normalization half converts
//! arbitrary WAV input into the canonical mono / 16 kHz / 16-bit PCM
//! form that transcription engines require.

pub mod command_line;
pub mod config;
pub mod devices;
pub mod errors;
pub mod model_manager;
pub mod normalize;
pub mod platform;
pub mod recorder;
pub mod wav;
pub mod wav_writer;

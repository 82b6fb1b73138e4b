//! A media-conversion job pipeline: a FIFO queue of jobs, admission by a
//! live-adjustable number of permits, per-job cancellation, and the pure
//! pieces of the conversion tooling (codec profiles, ffmpeg arguments,
//! encoder selection) that the pipeline's host relies on.

pub mod text;
pub mod job;
pub mod error;
pub mod model;
pub mod wellformed;
pub mod pipeline;
pub mod laws;
pub mod ffmpeg;
pub mod gpu;
pub mod settings;
pub mod stopwatch;
pub mod installer;
pub mod conversion;

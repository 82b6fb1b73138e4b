use vstd::prelude::*;

verus! {

/// Errors of the pipeline and of the conversions it runs.
#[derive(Debug, PartialEq, Eq)]
pub enum Error {
    NotAFile(String),
    InvalidPath,
    Io(String),
    ConversionCancelled,
    FfmpegFailed(String),
    FfmpegStdout,
    ImageError(String),
    InvalidCategory(String),
    JobNotFound,
    /// The identity of a submitted job is not a UUID, or belongs to a job
    /// that is still queued or running.
    InvalidIdentity,
}

} // verus!

//! The error taxonomy of the core: each failure class the components
//! surface, with a fixed textual reason for callers that show messages.

use vstd::prelude::*;

verus! {

/// The extractor binary could not be obtained.
#[derive(Clone, Copy, Debug, PartialEq, Eq, Structural)]
pub enum AcquisitionError {
    /// No per-application cache directory is resolvable on this host.
    NoCacheDirectory,
    /// The release-metadata request or the asset download failed.
    FetchFailed,
    /// No release asset matches this platform.
    NoMatchingAsset,
}

impl AcquisitionError {
    pub fn message(&self) -> (r: &'static str)
        ensures
            *self is NoCacheDirectory ==> r@ == "no cache dir available on this system"@,
            *self is FetchFailed ==> r@ == "failed to fetch the extractor release"@,
            *self is NoMatchingAsset ==> r@ == "no suitable extractor asset for this platform"@,
    {
        match self {
            AcquisitionError::NoCacheDirectory => "no cache dir available on this system",
            AcquisitionError::FetchFailed => "failed to fetch the extractor release",
            AcquisitionError::NoMatchingAsset => "no suitable extractor asset for this platform",
        }
    }
}

/// Metadata (id or title) could not be read from the extractor.
#[derive(Clone, Copy, Debug, PartialEq, Eq, Structural)]
pub enum ExtractionError {
    /// The extractor process exited with a non-zero status.
    ProcessFailed,
    /// The process succeeded but printed nothing once trimmed.
    EmptyOutput,
}

impl ExtractionError {
    pub fn message(&self) -> (r: &'static str)
        ensures
            *self is ProcessFailed ==> r@ == "extractor exited with a failure status"@,
            *self is EmptyOutput ==> r@ == "empty output from extractor"@,
    {
        match self {
            ExtractionError::ProcessFailed => "extractor exited with a failure status",
            ExtractionError::EmptyOutput => "empty output from extractor",
        }
    }
}

/// A download job failed; the cache is left untouched.
#[derive(Clone, Copy, Debug, PartialEq, Eq, Structural)]
pub enum DownloadError {
    /// The extractor subprocess exited with a non-zero status.
    ExtractorFailed,
    /// The subprocess succeeded but produced no mp3 file.
    NoOutput,
}

impl DownloadError {
    pub fn message(&self) -> (r: &'static str)
        ensures
            *self is ExtractorFailed ==> r@ == "extractor failed while downloading"@,
            *self is NoOutput ==> r@ == "no mp3 produced"@,
    {
        match self {
            DownloadError::ExtractorFailed => "extractor failed while downloading",
            DownloadError::NoOutput => "no mp3 produced",
        }
    }
}

/// Joining a voice channel failed on every allowed attempt; the pending
/// record must be deleted so the reconciler does not retry forever.
#[derive(Clone, Copy, Debug, PartialEq, Eq, Structural)]
pub enum JoinError {
    RetriesExhausted,
}

impl JoinError {
    pub fn message(&self) -> (r: &'static str)
        ensures
            r@ == "failed to join voice channel after all attempts"@,
    {
        match self {
            JoinError::RetriesExhausted => "failed to join voice channel after all attempts",
        }
    }
}

} // verus!

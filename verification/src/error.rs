//! The failures that an export can end in.

use vstd::prelude::*;
use vstd::string::*;

verus! {

/// Why an export, or a part of it, did not succeed.
#[derive(Clone, Copy, Debug, PartialEq, Eq, Structural)]
pub enum ExportError {
    /// The capture facility could not list the network devices.
    DeviceEnumerationFailure,
    /// A capture handle could not be opened or its filter not installed.
    CaptureOpenFailure,
    /// An open capture handle failed while streaming.
    CaptureTransientFailure,
    /// A packet could not be decoded.
    DecodeFailure,
    /// The packet stream ended before the wanted records were seen.
    NoAchievementsFound,
    /// None of the places where the client log may lie holds one.
    LogFileNotFound,
    /// The client log names no data directory.
    GamePathNotFound,
    /// The web-view cache holds no versioned directory.
    CacheNotFound,
    /// The cache blob could not be read.
    BlobUnreadable,
    /// The cache blob holds no usable address.
    PullUrlNotFound,
    /// The most recent address in the cache blob is no longer accepted.
    PullUrlOutdated,
    /// A request to a remote service failed.
    NetworkRequestFailure,
    /// The bundled session keys could not be read.
    KeyBundleInvalid,
    /// The pattern for the log marker was not accepted.
    MarkerPatternInvalid,
}

/// What is done about a failure.
#[derive(Clone, Copy, Debug, PartialEq, Eq, Structural)]
pub enum Disposition {
    /// Ends the session and is shown to the user.
    Surfaced,
    /// Ends the capture worker it happened in, and nothing else.
    WorkerOnly,
    /// Retried without limit.
    Retried,
    /// Dropped without notice.
    Dropped,
}

impl ExportError {
    /// The text shown for this failure.
    pub open spec fn text(self) -> Seq<char> {
        match self {
            ExportError::DeviceEnumerationFailure => "Couldn't list network devices"@,
            ExportError::CaptureOpenFailure => "Couldn't open capture device"@,
            ExportError::CaptureTransientFailure => "Capture device error"@,
            ExportError::DecodeFailure => "Couldn't decode packet"@,
            ExportError::NoAchievementsFound => "No achievements found"@,
            ExportError::LogFileNotFound => "Can't find log file"@,
            ExportError::GamePathNotFound => "Couldn't find game path"@,
            ExportError::CacheNotFound => "Couldn't find web cache"@,
            ExportError::BlobUnreadable => "Couldn't read web cache"@,
            ExportError::PullUrlNotFound => "Couldn't find pull url"@,
            ExportError::PullUrlOutdated => "URL outdated"@,
            ExportError::NetworkRequestFailure => "Network request failed"@,
            ExportError::KeyBundleInvalid => "Couldn't read session keys"@,
            ExportError::MarkerPatternInvalid => "Couldn't read log marker pattern"@,
        }
    }

    /// What is done about this failure.
    pub open spec fn handling(self) -> Disposition {
        match self {
            ExportError::CaptureOpenFailure => Disposition::WorkerOnly,
            ExportError::CaptureTransientFailure => Disposition::Retried,
            ExportError::DecodeFailure => Disposition::Dropped,
            _ => Disposition::Surfaced,
        }
    }

    /// The text shown for this failure.
    pub fn message(&self) -> (text: String)
        ensures
            text@ == self.text(),
    {
        let text = match self {
            ExportError::DeviceEnumerationFailure => "Couldn't list network devices",
            ExportError::CaptureOpenFailure => "Couldn't open capture device",
            ExportError::CaptureTransientFailure => "Capture device error",
            ExportError::DecodeFailure => "Couldn't decode packet",
            ExportError::NoAchievementsFound => "No achievements found",
            ExportError::LogFileNotFound => "Can't find log file",
            ExportError::GamePathNotFound => "Couldn't find game path",
            ExportError::CacheNotFound => "Couldn't find web cache",
            ExportError::BlobUnreadable => "Couldn't read web cache",
            ExportError::PullUrlNotFound => "Couldn't find pull url",
            ExportError::PullUrlOutdated => "URL outdated",
            ExportError::NetworkRequestFailure => "Network request failed",
            ExportError::KeyBundleInvalid => "Couldn't read session keys",
            ExportError::MarkerPatternInvalid => "Couldn't read log marker pattern",
        };
        String::from_str(text)
    }

    /// What is done about this failure.
    pub fn disposition(&self) -> (d: Disposition)
        ensures
            d == self.handling(),
    {
        match self {
            ExportError::CaptureOpenFailure => Disposition::WorkerOnly,
            ExportError::CaptureTransientFailure => Disposition::Retried,
            ExportError::DecodeFailure => Disposition::Dropped,
            _ => Disposition::Surfaced,
        }
    }
}

} // verus!

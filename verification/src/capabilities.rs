//! Plain value types exchanged with the shell: geolocation options and
//! errors, and the file-download response.

use vstd::prelude::*;

verus! {

/// Options when retrieving a position.
#[derive(Clone, Copy, PartialEq, Eq, Structural, Debug)]
pub struct GeoOptions {
    /// Maximum age in milliseconds of an acceptable cached position;
    /// zero means the device must retrieve a fresh position.
    pub maximum_age: u64,
    /// Maximum time in milliseconds the device may take to return a
    /// position; `None` means no limit.
    pub timeout: Option<u64>,
    /// Whether the application would like the best possible results.
    pub enable_high_accuracy: bool,
}

/// A position operation requested from the shell.
#[derive(Clone, Copy, PartialEq, Eq, Structural, Debug)]
pub enum GeoOperation {
    WatchPosition(GeoOptions),
    ClearWatch,
}

/// An error which may occur when retrieving the current position.
#[derive(Clone, Copy, PartialEq, Eq, Structural, Debug)]
pub enum GeoError {
    PermissionDenied,
    PositionUnavailable,
    /// The time allowed to acquire the position was reached before the
    /// information was obtained.
    Timeout,
}

/// The response to a file download; it carries no information.
#[derive(Clone, Copy, PartialEq, Eq, Structural, Debug)]
pub enum FileDownloadResponse {
    Completed,
}

} // verus!

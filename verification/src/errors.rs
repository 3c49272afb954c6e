//! The error taxonomy of one update run. Every failure path returns a
//! structured error; the caller maps it to a diagnostic message and an
//! exit code.

use vstd::prelude::*;

verus! {

/// A structured failure reason for an update run.
#[derive(Debug)]
pub enum UpdateError {
    /// The connectivity probe failed; no update was attempted.
    Connectivity(String),
    /// The latest-release fetch failed.
    ReleaseFetch(String),
    /// No published asset fits this platform.
    NoSuitableAsset,
    /// Downloading an asset failed.
    Download(String),
    /// A checksum manifest was published but holds no entry for the
    /// downloaded file.
    ChecksumNotFound { file_name: String },
    /// The downloaded file's digest differs from the published one.
    ChecksumMismatch { expected: String, actual: String },
    /// The downloaded archive could not be read.
    BadArchive,
    /// An archive entry would escape the staging directory.
    PathTraversal { name: String },
    /// Merging the extracted files into the installation directory
    /// failed; the directory may hold a mix of old and new files.
    MergeFailed(String),
    /// The native installer failed in both silent and interactive mode.
    InstallerFailure(String),
}

impl UpdateError {
    /// A human-readable description of the failure.
    pub fn message(&self) -> (r: String)
        ensures
            r@ == (match *self {
                UpdateError::Connectivity(s) => "connectivity check failed: "@ + s@,
                UpdateError::ReleaseFetch(s) => "could not fetch latest release: "@ + s@,
                UpdateError::NoSuitableAsset => "no suitable download found for this platform"@,
                UpdateError::Download(s) => "download failed: "@ + s@,
                UpdateError::ChecksumNotFound { file_name } => "checksum for "@ + file_name@
                    + " not found in checksum file"@,
                UpdateError::ChecksumMismatch { expected, actual } => "checksum mismatch: expected "@
                    + expected@ + ", got "@ + actual@,
                UpdateError::BadArchive => "downloaded archive could not be read"@,
                UpdateError::PathTraversal { name } => "illegal file path in archive: "@ + name@,
                UpdateError::MergeFailed(s) => "merging the update into the installation failed: "@
                    + s@,
                UpdateError::InstallerFailure(s) => "installer failed: "@ + s@,
            }),
    {
        match self {
            UpdateError::Connectivity(s) => String::from_str("connectivity check failed: ").concat(
                s.as_str(),
            ),
            UpdateError::ReleaseFetch(s) => String::from_str("could not fetch latest release: ")
                .concat(s.as_str()),
            UpdateError::NoSuitableAsset => String::from_str(
                "no suitable download found for this platform",
            ),
            UpdateError::Download(s) => String::from_str("download failed: ").concat(s.as_str()),
            UpdateError::ChecksumNotFound { file_name } => String::from_str("checksum for ")
                .concat(file_name.as_str()).concat(" not found in checksum file"),
            UpdateError::ChecksumMismatch { expected, actual } => String::from_str(
                "checksum mismatch: expected ",
            ).concat(expected.as_str()).concat(", got ").concat(actual.as_str()),
            UpdateError::BadArchive => String::from_str("downloaded archive could not be read"),
            UpdateError::PathTraversal { name } => String::from_str(
                "illegal file path in archive: ",
            ).concat(name.as_str()),
            UpdateError::MergeFailed(s) => String::from_str(
                "merging the update into the installation failed: ",
            ).concat(s.as_str()),
            UpdateError::InstallerFailure(s) => String::from_str("installer failed: ").concat(
                s.as_str(),
            ),
        }
    }
}

} // verus!

//! The errors of a download.
use vstd::prelude::*;

verus! {

/// Why a download did not happen.
#[derive(Debug, Clone, PartialEq, Eq)]
pub enum DownloadError {
    /// The URL is not a YouTube URL.
    InvalidUrl(String),
    /// A helper binary is missing; holds its name.
    BinaryNotFound(String),
    /// yt-dlp could not be started or reported a failure.
    DownloadFailed(String),
    /// A file-system operation failed; holds its message.
    Io(String),
    /// The helper binaries could not be installed.
    BinaryInit(String),
}

impl DownloadError {
    /// The text that describes the error to a user.
    pub open spec fn describe(self) -> Seq<char> {
        match self {
            DownloadError::InvalidUrl(m) => "Invalid URL: "@ + m@,
            DownloadError::BinaryNotFound(m) => "Binary not found: "@ + m@,
            DownloadError::DownloadFailed(m) => "Download failed: "@ + m@,
            DownloadError::Io(m) => "IO error: "@ + m@,
            DownloadError::BinaryInit(m) => "Failed to initialize binaries: "@ + m@,
        }
    }

    /// The text that describes the error to a user
    /// (what the error's `Display` shows).
    pub fn message(&self) -> (r: String)
        ensures
            r@ == self.describe(),
    {
        match self {
            DownloadError::InvalidUrl(m) => crate::text::concat_str("Invalid URL: ", m.as_str()),
            DownloadError::BinaryNotFound(m) => crate::text::concat_str(
                "Binary not found: ",
                m.as_str(),
            ),
            DownloadError::DownloadFailed(m) => crate::text::concat_str(
                "Download failed: ",
                m.as_str(),
            ),
            DownloadError::Io(m) => crate::text::concat_str("IO error: ", m.as_str()),
            DownloadError::BinaryInit(m) => crate::text::concat_str(
                "Failed to initialize binaries: ",
                m.as_str(),
            ),
        }
    }
}

} // verus!

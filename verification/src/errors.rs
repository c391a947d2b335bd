//! Error taxonomy of the pipeline. Every fatal error aborts the current
//! song's processing; transient per-frame decode problems are skipped at the
//! decode edge and never surface here.

use vstd::prelude::*;

verus! {

/// Input discovery failed: the directory holds no reference track.
#[derive(Debug, PartialEq, Eq, Structural)]
pub enum DiscoveryError {
    ReferenceNotFound,
}

/// Decoding one compressed file failed fatally.
#[derive(Debug, PartialEq, Eq, Structural)]
pub enum DecodeError {
    /// The container exposes no selectable elementary stream.
    NoDefaultStream,
    /// The decoded buffer's numeric representation is neither of the two
    /// supported kinds.
    UnsupportedSampleFormat,
}

/// Downmixing failed.
#[derive(Debug, PartialEq, Eq, Structural)]
pub enum DownmixError {
    /// The input to the downmixer is not exactly two channels wide.
    NotStereo,
}

/// Normalizing a song title failed.
#[derive(Debug, PartialEq, Eq, Structural)]
pub enum NamingError {
    /// The title holds no words at all.
    EmptyTitle,
}

/// Errors of the component that retrieves stems from the remote source.
/// The retrieval itself lives outside this library; the taxonomy is shared
/// so that callers can hand its outcomes around as plain values.
#[derive(Debug)]
pub enum DownloadError {
    NotPurchased,
    NotASongPage,
    ResetButtonNotFound,
    DownloadTimeout,
    BrowserError(String),
}

impl DownloadError {
    pub open spec fn spec_message(self) -> Seq<char> {
        match self {
            DownloadError::NotPurchased => "This track has not been purchased"@,
            DownloadError::NotASongPage => "This doesn't look like a song page. Check the url."@,
            DownloadError::ResetButtonNotFound => "Reset button not found on the page"@,
            DownloadError::DownloadTimeout => "Download operation timed out"@,
            DownloadError::BrowserError(msg) => "Browser error: "@ + msg@,
        }
    }

    /// Human-readable description of the error.
    pub fn message(&self) -> (r: String)
        ensures
            r@ == self.spec_message(),
    {
        match self {
            DownloadError::NotPurchased => "This track has not been purchased".to_owned(),
            DownloadError::NotASongPage => "This doesn't look like a song page. Check the url.".to_owned(),
            DownloadError::ResetButtonNotFound => "Reset button not found on the page".to_owned(),
            DownloadError::DownloadTimeout => "Download operation timed out".to_owned(),
            DownloadError::BrowserError(msg) => {
                let mut s = "Browser error: ".to_owned();
                s.append(msg.as_str());
                s
            },
        }
    }
}

} // verus!

//! Plain configuration values handed around by the program: the remote
//! source the stems come from, and the per-download options. The retrieval
//! component that consumes them lives outside this library.

use vstd::prelude::*;

verus! {

/// Where and how the retrieval component reaches the remote source.
pub struct Config {
    pub domain: String,
    pub headless: bool,
    pub download_path: Option<String>,
}

impl Default for Config {
    /// The stock configuration: the public site, a visible browser, no
    /// download directory chosen yet.
    fn default() -> (r: Self)
        ensures
            r.domain@ == "www.karaoke-version.com"@,
            r.headless == false,
            r.download_path is None,
    {
        Config {
            domain: "www.karaoke-version.com".to_owned(),
            headless: false,
            download_path: None,
        }
    }
}

/// Per-download options of the retrieval component.
#[derive(Clone)]
pub struct DownloadOptions {
    pub count_in: bool,
    pub transpose: i8,
}

impl Default for DownloadOptions {
    /// No count-in intro, no transposition.
    fn default() -> (r: Self)
        ensures
            r.count_in == false,
            r.transpose == 0,
    {
        DownloadOptions { count_in: false, transpose: 0 }
    }
}

} // verus!

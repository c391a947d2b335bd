use stem_align::errors::DownloadError;
use stem_align::settings::{Config, DownloadOptions};

#[test]
fn download_error_messages() {
    assert_eq!(
        DownloadError::NotPurchased.message(),
        "This track has not been purchased"
    );
    assert_eq!(
        DownloadError::DownloadTimeout.message(),
        "Download operation timed out"
    );
    assert_eq!(
        DownloadError::BrowserError("tab closed".to_string()).message(),
        "Browser error: tab closed"
    );
}

#[test]
fn default_config() {
    let c = Config::default();
    assert_eq!(c.domain, "www.karaoke-version.com");
    assert!(!c.headless);
    assert!(c.download_path.is_none());
}

#[test]
fn default_download_options() {
    let o = DownloadOptions::default();
    assert!(!o.count_in);
    assert_eq!(o.transpose, 0);
}

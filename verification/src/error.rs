//! Errors of the download engine and the Tor client.
use vstd::prelude::*;

verus! {

#[verifier::external_type_specification]
#[verifier::external_body]
pub struct ExReqwestError(reqwest::Error);

#[verifier::external_type_specification]
#[verifier::external_body]
pub struct ExIoError(std::io::Error);

/// Why a download or the connection to Tor failed.
#[derive(Debug)]
pub enum OnionError {
    /// The Tor proxy could not be used; the text says why.
    TorUnavailable(String),
    /// A download went wrong; the text says how.
    DownloadFailed(String),
    /// The HTTP client reported an error.
    Http(reqwest::Error),
    /// Reading or writing a file failed.
    Io(std::io::Error),
}

/// Trusted: the `Display` text of a `reqwest::Error` (its kind, and the
/// URL if it has one). Nothing is stated of the text: the error value
/// is opaque here.
#[verifier::external_body]
pub(crate) fn reqwest_error_text(e: &reqwest::Error) -> String {
    format!("{}", e)
}

/// Trusted: the `Display` text of a `std::io::Error`. Nothing is stated of
/// the text: the error value is opaque here.
#[verifier::external_body]
fn io_error_text(e: &std::io::Error) -> String {
    format!("{}", e)
}

/// The text that introduces each kind of error in a message.
pub open spec fn error_prefix(e: &OnionError) -> Seq<char> {
    match e {
        OnionError::TorUnavailable(_) => "Tor proxy unavailable: "@,
        OnionError::DownloadFailed(_) => "Download failed: "@,
        OnionError::Http(_) => "HTTP error: "@,
        OnionError::Io(_) => "I/O error: "@,
    }
}

impl OnionError {
    /// The message shown for this error: the kind of error followed by its
    /// text (the given text for the first two kinds, the wrapped error's own
    /// text for the others).
    pub fn message(&self) -> (m: String)
        ensures
            exists|detail: Seq<char>| m@ == error_prefix(self) + detail,
            self matches OnionError::TorUnavailable(t) ==> m@ == error_prefix(self) + t@,
            self matches OnionError::DownloadFailed(t) ==> m@ == error_prefix(self) + t@,
    {
        match self {
            OnionError::TorUnavailable(t) => {
                let mut m = String::from_str("Tor proxy unavailable: ");
                m.append(t.as_str());
                assert(m@ == error_prefix(self) + t@);
                m
            },
            OnionError::DownloadFailed(t) => {
                let mut m = String::from_str("Download failed: ");
                m.append(t.as_str());
                assert(m@ == error_prefix(self) + t@);
                m
            },
            OnionError::Http(e) => {
                let mut m = String::from_str("HTTP error: ");
                let t = reqwest_error_text(e);
                m.append(t.as_str());
                assert(m@ == error_prefix(self) + t@);
                m
            },
            OnionError::Io(e) => {
                let mut m = String::from_str("I/O error: ");
                let t = io_error_text(e);
                m.append(t.as_str());
                assert(m@ == error_prefix(self) + t@);
                m
            },
        }
    }
}

} // verus!

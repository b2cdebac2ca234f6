//! The errors that the downloader reports.

use vstd::prelude::*;

verus! {

/// Everything that can go wrong between reading the command line and the
/// merged output file.
#[derive(Debug, Clone, PartialEq, Eq)]
pub enum AppError {
    /// The URL text could not be parsed.
    UrlParseError(String),
    /// The URL's scheme is not one the downloader accepts.
    InvalidScheme,
    /// The URL has no host.
    InvalidHostname,
    /// The URL was parsed but is not usable.
    UrlValidationError(String),
    /// Transport failures, unexpected answers of the server, size
    /// mismatches, missing partial files and file-system failures.
    CouldNotConnect(String),
    /// The scheme passed validation but no downloader exists for it.
    UnsupportedProtocol,
    /// An error that arrived as plain text from elsewhere.
    StringError(String),
    /// The response body broke off while it was being read.
    CouldNotReadChunk(String),
    /// A worker task could not be joined.
    TaskError(String),
}

/// An [`AppError`] with its texts as character sequences.
pub enum AppErrorView {
    UrlParseError(Seq<char>),
    InvalidScheme,
    InvalidHostname,
    UrlValidationError(Seq<char>),
    CouldNotConnect(Seq<char>),
    UnsupportedProtocol,
    StringError(Seq<char>),
    CouldNotReadChunk(Seq<char>),
    TaskError(Seq<char>),
}

impl View for AppError {
    type V = AppErrorView;

    open spec fn view(&self) -> AppErrorView {
        match self {
            AppError::UrlParseError(s) => AppErrorView::UrlParseError(s@),
            AppError::InvalidScheme => AppErrorView::InvalidScheme,
            AppError::InvalidHostname => AppErrorView::InvalidHostname,
            AppError::UrlValidationError(s) => AppErrorView::UrlValidationError(s@),
            AppError::CouldNotConnect(s) => AppErrorView::CouldNotConnect(s@),
            AppError::UnsupportedProtocol => AppErrorView::UnsupportedProtocol,
            AppError::StringError(s) => AppErrorView::StringError(s@),
            AppError::CouldNotReadChunk(s) => AppErrorView::CouldNotReadChunk(s@),
            AppError::TaskError(s) => AppErrorView::TaskError(s@),
        }
    }
}

/// The line shown to the user for an error.
pub open spec fn error_text(e: AppErrorView) -> Seq<char> {
    match e {
        AppErrorView::UrlParseError(s) => "URL parsing error: "@ + s,
        AppErrorView::InvalidScheme => "Invalid URL scheme"@,
        AppErrorView::InvalidHostname => "Hostname is either missing or invalid"@,
        AppErrorView::UrlValidationError(s) => "URL is not valid: "@ + s,
        AppErrorView::CouldNotConnect(s) => "Could not connect to the server: "@ + s,
        AppErrorView::UnsupportedProtocol => "Unsupported protocol"@,
        AppErrorView::StringError(s) => "An error occurred: "@ + s,
        AppErrorView::CouldNotReadChunk(s) => "Could not read chunk: "@ + s,
        AppErrorView::TaskError(s) => "Task error: "@ + s,
    }
}

impl From<String> for AppError {
    /// Wraps an error that arrived as plain text.
    fn from(err: String) -> (e: AppError) {
        AppError::StringError(err)
    }
}

impl vstd::std_specs::convert::FromSpecImpl<String> for AppError {
    open spec fn obeys_from_spec() -> bool {
        true
    }

    open spec fn from_spec(err: String) -> AppError {
        AppError::StringError(err)
    }
}

impl AppError {
    /// A second value with the same variant and text.
    pub fn copy(&self) -> (r: AppError)
        ensures
            r@ == self@,
    {
        match self {
            AppError::UrlParseError(s) => AppError::UrlParseError(s.clone()),
            AppError::InvalidScheme => AppError::InvalidScheme,
            AppError::InvalidHostname => AppError::InvalidHostname,
            AppError::UrlValidationError(s) => AppError::UrlValidationError(s.clone()),
            AppError::CouldNotConnect(s) => AppError::CouldNotConnect(s.clone()),
            AppError::UnsupportedProtocol => AppError::UnsupportedProtocol,
            AppError::StringError(s) => AppError::StringError(s.clone()),
            AppError::CouldNotReadChunk(s) => AppError::CouldNotReadChunk(s.clone()),
            AppError::TaskError(s) => AppError::TaskError(s.clone()),
        }
    }

    /// The line shown to the user for this error.
    pub fn to_string(&self) -> (r: String)
        ensures
            r@ == error_text(self@),
    {
        match self {
            AppError::UrlParseError(s) => String::from_str("URL parsing error: ").concat(s.as_str()),
            AppError::InvalidScheme => String::from_str("Invalid URL scheme"),
            AppError::InvalidHostname => String::from_str("Hostname is either missing or invalid"),
            AppError::UrlValidationError(s) => String::from_str("URL is not valid: ").concat(
                s.as_str(),
            ),
            AppError::CouldNotConnect(s) => String::from_str(
                "Could not connect to the server: ",
            ).concat(s.as_str()),
            AppError::UnsupportedProtocol => String::from_str("Unsupported protocol"),
            AppError::StringError(s) => String::from_str("An error occurred: ").concat(s.as_str()),
            AppError::CouldNotReadChunk(s) => String::from_str("Could not read chunk: ").concat(
                s.as_str(),
            ),
            AppError::TaskError(s) => String::from_str("Task error: ").concat(s.as_str()),
        }
    }
}

} // verus!

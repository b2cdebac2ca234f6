//! Which URLs the downloader takes.

use crate::error::{AppError, AppErrorView};
use crate::text::same_text;
use vstd::prelude::*;

verus! {

/// What the downloader reads off a URL once it has been parsed.
#[derive(Clone, Debug, PartialEq, Eq)]
pub struct ParsedUrl {
    /// The scheme, in lower case and without the colon.
    pub scheme: String,
    /// Whether the URL names a host.
    pub has_host: bool,
    /// The path, from the slash behind the host up to the query.
    pub path: String,
    /// The whole URL as the parser writes it out again.
    pub text: String,
}

/// A [`ParsedUrl`] with its texts as character sequences.
pub struct ParsedUrlView {
    pub scheme: Seq<char>,
    pub has_host: bool,
    pub path: Seq<char>,
    pub text: Seq<char>,
}

impl View for ParsedUrl {
    type V = ParsedUrlView;

    open spec fn view(&self) -> ParsedUrlView {
        ParsedUrlView {
            scheme: self.scheme@,
            has_host: self.has_host,
            path: self.path@,
            text: self.text@,
        }
    }
}

/// What the `url` crate makes of the text `input`: the parts of the URL, or
/// the message of its parse error.
pub uninterp spec fn url_parse(input: Seq<char>) -> Result<ParsedUrlView, Seq<char>>;

/// Parses `input` with `url::Url::parse`. Of a URL it hands on what
/// `scheme`, `has_host`, `path` and `as_str` return, of a parse error what
/// it displays.
#[verifier::external_body]
pub(crate) fn parse_url(input: &str) -> (parsed: Result<ParsedUrl, String>)
    ensures
        match parsed {
            Ok(url) => url_parse(input@) == Ok::<ParsedUrlView, Seq<char>>(url@),
            Err(message) => url_parse(input@) == Err::<ParsedUrlView, Seq<char>>(message@),
        },
{
    match url::Url::parse(input) {
        Ok(url) => Ok(
            ParsedUrl {
                scheme: url.scheme().to_string(),
                has_host: url.has_host(),
                path: url.path().to_string(),
                text: url.as_str().to_string(),
            },
        ),
        Err(e) => Err(e.to_string()),
    }
}

/// Whether `scheme` is one that the downloader takes: `http`, `https`, `ftp`
/// or `ftps`.
pub open spec fn scheme_allowed(scheme: Seq<char>) -> bool {
    scheme == "http"@ || scheme == "https"@ || scheme == "ftp"@ || scheme == "ftps"@
}

/// What the validation makes of the outcome of parsing: the URL, if it was
/// parsed, has an allowed scheme and names a host, else the error for the
/// first of these that fails.
pub open spec fn validation_of(parsed: Result<ParsedUrlView, Seq<char>>) -> Result<
    ParsedUrlView,
    AppErrorView,
> {
    match parsed {
        Err(message) => Err(AppErrorView::UrlParseError(message)),
        Ok(url) => if !scheme_allowed(url.scheme) {
            Err(AppErrorView::InvalidScheme)
        } else if !url.has_host {
            Err(AppErrorView::InvalidHostname)
        } else {
            Ok(url)
        },
    }
}

/// Whether `scheme` is one that the downloader takes.
pub fn is_allowed_scheme(scheme: &str) -> (allowed: bool)
    ensures
        allowed == scheme_allowed(scheme@),
{
    same_text(scheme, "http") || same_text(scheme, "https") || same_text(scheme, "ftp")
        || same_text(scheme, "ftps")
}

/// Judges the outcome of parsing a URL: a parse error is handed on with its
/// message, a URL is refused for a scheme that is not allowed, then for a
/// missing host.
pub fn check_parsed_url(parsed: Result<ParsedUrl, String>) -> (checked: Result<ParsedUrl, AppError>)
    ensures
        match checked {
            Ok(url) => validation_of(parsed_view(parsed)) == Ok::<ParsedUrlView, AppErrorView>(url@),
            Err(e) => validation_of(parsed_view(parsed)) == Err::<ParsedUrlView, AppErrorView>(e@),
        },
{
    match parsed {
        Err(message) => Err(AppError::UrlParseError(message)),
        Ok(url) => {
            if !is_allowed_scheme(url.scheme.as_str()) {
                Err(AppError::InvalidScheme)
            } else if !url.has_host {
                Err(AppError::InvalidHostname)
            } else {
                Ok(url)
            }
        },
    }
}

/// The outcome of parsing with its texts as character sequences.
pub open spec fn parsed_view(parsed: Result<ParsedUrl, String>) -> Result<ParsedUrlView, Seq<char>> {
    match parsed {
        Ok(url) => Ok(url@),
        Err(message) => Err(message@),
    }
}

/// Validates a given URL string: it must parse, have one of the schemes
/// `http`, `https`, `ftp` and `ftps`, and name a host.
pub fn validate_url(url: &str) -> (checked: Result<ParsedUrl, AppError>)
    ensures
        match checked {
            Ok(parsed) => validation_of(url_parse(url@)) == Ok::<ParsedUrlView, AppErrorView>(
                parsed@,
            ),
            Err(e) => validation_of(url_parse(url@)) == Err::<ParsedUrlView, AppErrorView>(e@),
        },
{
    check_parsed_url(parse_url(url))
}

} // verus!

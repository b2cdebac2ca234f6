//! Asking an FTP gateway for the size of a resource. Fetching ranges over
//! FTP is not supported.

use crate::error::{AppError, AppErrorView};
use crate::text::{parse_u64, parse_u64_text};
use vstd::prelude::*;

verus! {

/// What a successful answer says of the size of the resource: the number
/// in `Content-Length`, or an error if there is none.
pub open spec fn ftp_size_of(content_length: Option<Seq<char>>) -> Result<u64, AppErrorView> {
    match content_length {
        Some(text) => match parse_u64_text(text) {
            Some(size) => Ok(size),
            None => Err(AppErrorView::StringError("Failed to parse content length"@)),
        },
        None => Err(AppErrorView::StringError("Failed to parse content length"@)),
    }
}

/// Reads the size of the resource off a successful answer, given its
/// `Content-Length` header if it has one. An answer is successful if its
/// status is one of 200 to 299; there is no result for any other.
pub fn get_total_file_size(status: u16, content_length: Option<&str>) -> (size: Result<u64, AppError>)
    requires
        200 <= status < 300,
    ensures
        match size {
            Ok(n) => ftp_size_of(crate::downloader::http::content_range_view(content_length))
                == Ok::<u64, AppErrorView>(n),
            Err(e) => ftp_size_of(crate::downloader::http::content_range_view(content_length))
                == Err::<u64, AppErrorView>(e@),
        },
{
    let parsed: Option<u64> = match content_length {
        Some(text) => parse_u64(text),
        None => None,
    };
    match parsed {
        Some(n) => Ok(n),
        None => Err(AppError::from(String::from_str("Failed to parse content length"))),
    }
}

} // verus!

use rtget::downloader::{download_chunk, download_protocol, get_total_file_size, probe_protocol, Protocol};
use rtget::error::AppError;
use rtget::url_validator::{check_parsed_url, is_allowed_scheme, validate_url, ParsedUrl};

fn parts(scheme: &str, has_host: bool) -> ParsedUrl {
    ParsedUrl {
        scheme: scheme.to_string(),
        has_host,
        path: "/f".to_string(),
        text: format!("{}://h/f", scheme),
    }
}

#[test]
fn test_invalid_url_error() {
    let url = "invalid-url";
    let result = validate_url(url);
    assert!(result.is_err(), "Expected an error for an invalid URL");
}

#[test]
fn invalid_url_is_a_parse_error_with_the_parsers_message() {
    assert_eq!(
        validate_url("invalid-url"),
        Err(AppError::UrlParseError("relative URL without a base".to_string()))
    );
}

#[test]
fn valid_urls_are_taken_apart() {
    let url = validate_url("HTTP://Example.com/dir/file.bin?x=1#frag").unwrap();
    assert_eq!(url.scheme, "http");
    assert!(url.has_host);
    assert_eq!(url.path, "/dir/file.bin");
    assert_eq!(url.text, "http://example.com/dir/file.bin?x=1#frag");
    for accepted in ["http://h/f", "https://h/f", "ftp://h/f", "ftps://h/f"] {
        assert!(validate_url(accepted).is_ok(), "{}", accepted);
    }
}

#[test]
fn other_schemes_are_refused() {
    assert_eq!(validate_url("mailto:someone@example.com"), Err(AppError::InvalidScheme));
    assert_eq!(validate_url("sftp://h/f"), Err(AppError::InvalidScheme));
    assert_eq!(validate_url("file:///etc/passwd"), Err(AppError::InvalidScheme));
}

#[test]
fn url_without_host_is_refused() {
    assert_eq!(validate_url("ftps:/only/a/path"), Err(AppError::InvalidHostname));
}

#[test]
fn scheme_is_checked_before_host() {
    assert_eq!(check_parsed_url(Ok(parts("gopher", false))), Err(AppError::InvalidScheme));
    assert_eq!(check_parsed_url(Ok(parts("https", false))), Err(AppError::InvalidHostname));
    assert_eq!(check_parsed_url(Ok(parts("https", true))), Ok(parts("https", true)));
    assert_eq!(
        check_parsed_url(Err("bad".to_string())),
        Err(AppError::UrlParseError("bad".to_string()))
    );
    assert!(is_allowed_scheme("ftps"));
    assert!(!is_allowed_scheme("HTTP"));
    assert!(!is_allowed_scheme(""));
}

#[test]
fn protocols_by_scheme() {
    assert_eq!(download_protocol(Ok(parts("http", true))), Ok(Protocol::Http));
    assert_eq!(download_protocol(Ok(parts("https", true))), Ok(Protocol::Http));
    assert_eq!(download_protocol(Ok(parts("ftp", true))), Err(AppError::UnsupportedProtocol));
    assert_eq!(download_protocol(Ok(parts("ftps", true))), Err(AppError::UnsupportedProtocol));
    assert_eq!(probe_protocol(Ok(parts("https", true))), Ok(Protocol::Http));
    assert_eq!(probe_protocol(Ok(parts("ftp", true))), Ok(Protocol::Ftp));
    assert_eq!(probe_protocol(Ok(parts("sftp", true))), Ok(Protocol::Ftp));
    assert_eq!(probe_protocol(Ok(parts("ftps", true))), Err(AppError::UnsupportedProtocol));
    assert_eq!(
        probe_protocol(Err("bad".to_string())),
        Err(AppError::UrlParseError("bad".to_string()))
    );
}

#[test]
fn protocols_of_real_urls() {
    assert_eq!(download_chunk("https://example.com/f"), Ok(Protocol::Http));
    assert_eq!(download_chunk("ftp://example.com/f"), Err(AppError::UnsupportedProtocol));
    assert_eq!(get_total_file_size("ftp://example.com/f"), Ok(Protocol::Ftp));
    assert_eq!(get_total_file_size("http://example.com/f"), Ok(Protocol::Http));
    assert_eq!(
        get_total_file_size("not a url"),
        Err(AppError::UrlParseError("relative URL without a base".to_string()))
    );
}

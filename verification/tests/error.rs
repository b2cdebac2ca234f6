use rtget::error::AppError;

#[test]
fn test_url_parse_error_message() {
    let error = AppError::UrlParseError("Invalid format".to_string());
    assert_eq!(error.to_string(), "URL parsing error: Invalid format");
}

#[test]
fn test_invalid_scheme_error_message() {
    let error = AppError::InvalidScheme;
    assert_eq!(error.to_string(), "Invalid URL scheme");
}

#[test]
fn test_invalid_hostname_error_message() {
    let error = AppError::InvalidHostname;
    assert_eq!(error.to_string(), "Hostname is either missing or invalid");
}

#[test]
fn test_url_validation_error_message() {
    let error = AppError::UrlValidationError("Invalid format".to_string());
    assert_eq!(error.to_string(), "URL is not valid: Invalid format");
}

#[test]
fn error_messages_of_the_other_variants() {
    assert_eq!(
        AppError::CouldNotConnect("refused".to_string()).to_string(),
        "Could not connect to the server: refused"
    );
    assert_eq!(
        AppError::CouldNotReadChunk("reset".to_string()).to_string(),
        "Could not read chunk: reset"
    );
    assert_eq!(AppError::UnsupportedProtocol.to_string(), "Unsupported protocol");
    assert_eq!(AppError::StringError("oops".to_string()).to_string(), "An error occurred: oops");
    assert_eq!(AppError::TaskError("panicked".to_string()).to_string(), "Task error: panicked");
    assert_eq!(AppError::UrlParseError(String::new()).to_string(), "URL parsing error: ");
}

#[test]
fn error_from_string_and_copy() {
    let error = AppError::from("plain".to_string());
    assert_eq!(error, AppError::StringError("plain".to_string()));
    assert_eq!(error.copy(), error);
    assert_eq!(AppError::InvalidScheme.copy(), AppError::InvalidScheme);
    assert_eq!(
        AppError::TaskError("t".to_string()).copy(),
        AppError::TaskError("t".to_string())
    );
}

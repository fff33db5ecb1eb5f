use mirage_fit::{Error, Result};

#[test]
fn test_error_creation() {
    let config_error = Error::config("Missing API key");
    assert!(matches!(config_error, Error::Config { .. }));
    assert_eq!(config_error.status_code(), 500);
}

#[test]
fn test_all_error_constructors() {
    let config_err = Error::config("Config issue");
    assert!(matches!(config_err, Error::Config { .. }));

    let fs_err = Error::file_system("File system issue");
    assert!(matches!(fs_err, Error::FileSystem { .. }));

    let gemini_err = Error::gemini_api("API issue", Some(400));
    assert!(matches!(gemini_err, Error::GeminiApi { .. }));

    let invalid_req_err = Error::invalid_request("Bad request");
    assert!(matches!(invalid_req_err, Error::InvalidRequest { .. }));

    let not_found_err = Error::not_found("resource");
    assert!(matches!(not_found_err, Error::NotFound { .. }));

    let invalid_img_err = Error::invalid_image("Bad image");
    assert!(matches!(invalid_img_err, Error::InvalidImage { .. }));

    let rate_limit_err = Error::rate_limit("Too fast");
    assert!(matches!(rate_limit_err, Error::RateLimit { .. }));

    let internal_err = Error::internal("Something went wrong");
    assert!(matches!(internal_err, Error::Internal { .. }));
}

#[test]
fn test_error_status_codes() {
    assert_eq!(Error::invalid_request("bad data").status_code(), 400);
    assert_eq!(Error::not_found("file.jpg").status_code(), 404);
    assert_eq!(Error::rate_limit("too many requests").status_code(), 429);
    assert_eq!(Error::invalid_image("corrupt image").status_code(), 400);
    assert_eq!(Error::config("missing key").status_code(), 500);
    assert_eq!(Error::file_system("disk full").status_code(), 500);
    assert_eq!(Error::internal("panic").status_code(), 500);

    assert_eq!(Error::gemini_api("Bad request", Some(400)).status_code(), 400);
    assert_eq!(Error::gemini_api("Unknown error", None).status_code(), 500);
    assert_eq!(Error::gemini_api("Invalid status", Some(500)).status_code(), 500);
}

#[test]
fn test_user_messages() {
    let error = Error::invalid_request("Invalid file format");
    assert_eq!(error.user_message(), "Invalid file format");

    let error = Error::not_found("avatar.jpg");
    assert_eq!(error.user_message(), "Resource not found: avatar.jpg");

    let error = Error::invalid_image("Corrupted JPEG");
    assert_eq!(error.user_message(), "Invalid image: Corrupted JPEG");

    let error = Error::rate_limit("API quota exceeded");
    assert_eq!(error.user_message(), "Rate limit exceeded: API quota exceeded");

    let error = Error::gemini_api("Service unavailable", Some(503));
    assert_eq!(error.user_message(), "AI service error: Service unavailable");

    let error = Error::internal("Database connection failed");
    assert_eq!(error.user_message(), "Internal server error occurred");

    let error = Error::config("Missing API key");
    assert_eq!(error.user_message(), "Internal server error occurred");

    let error = Error::file_system("Disk full");
    assert_eq!(error.user_message(), "Internal server error occurred");
}

#[test]
fn test_error_display() {
    let error = Error::config("API key not set");
    assert_eq!(error.to_display_string(), "Configuration error: API key not set");

    let error = Error::gemini_api("Rate limited", Some(429));
    assert_eq!(
        error.to_display_string(),
        "Gemini API error: Rate limited, status: Some(429)"
    );

    let error = Error::not_found("image.jpg");
    assert_eq!(error.to_display_string(), "Resource not found: image.jpg");
}

#[test]
fn test_error_debug() {
    let error = Error::config("Missing API key");
    let debug_str = format!("{:?}", error);
    assert!(debug_str.contains("Config"));
    assert!(debug_str.contains("Missing API key"));
}

#[test]
fn test_result_type_alias() {
    fn test_function() -> Result<i32> {
        Ok(42)
    }

    fn test_function_error() -> Result<i32> {
        Err(Error::invalid_request("Test error"))
    }

    assert_eq!(test_function().unwrap(), 42);
    assert!(test_function_error().is_err());
}

#[test]
fn test_error_message_content_safety() {
    let sensitive_error = Error::internal("Database password: secret123");
    assert_eq!(sensitive_error.user_message(), "Internal server error occurred");

    let config_error = Error::config("API key: sk-abcd1234");
    assert_eq!(config_error.user_message(), "Internal server error occurred");

    let user_error = Error::invalid_request("Email is required");
    assert_eq!(user_error.user_message(), "Email is required");
}

#[test]
fn test_error_handling_consistency() {
    let errors = vec![
        Error::config("Test config error"),
        Error::file_system("Test filesystem error"),
        Error::gemini_api("Test API error", Some(500)),
        Error::invalid_request("Test invalid request"),
        Error::not_found("Test resource"),
        Error::invalid_image("Test invalid image"),
        Error::rate_limit("Test rate limit"),
        Error::internal("Test internal error"),
    ];

    for error in errors {
        let status = error.status_code();
        assert!(status >= 400);
        assert!(status < 600);

        let user_msg = error.user_message();
        assert!(!user_msg.is_empty());

        let error_string = error.to_display_string();
        assert!(!error_string.is_empty());
    }
}

#[test]
fn error_gemini_status_outside_http_range_is_500() {
    assert_eq!(Error::gemini_api("odd", Some(99)).status_code(), 500);
    assert_eq!(Error::gemini_api("odd", Some(1000)).status_code(), 500);
    assert_eq!(Error::gemini_api("odd", Some(999)).status_code(), 999);
    assert_eq!(Error::gemini_api("odd", Some(100)).status_code(), 100);
}

#[test]
fn error_display_of_every_variant() {
    let cases = vec![
        (Error::Io("disk gone".to_string()), "IO error: disk gone"),
        (Error::Http("timeout".to_string()), "HTTP request failed: timeout"),
        (Error::Json("bad".to_string()), "JSON error: bad"),
        (Error::Image("bad".to_string()), "Image processing error: bad"),
        (Error::Base64("bad".to_string()), "Base64 error: bad"),
        (Error::Uuid("bad".to_string()), "UUID error: bad"),
        (Error::file_system("full"), "File system error: full"),
        (Error::gemini_api("down", None), "Gemini API error: down, status: None"),
        (Error::invalid_request("no"), "Invalid request: no"),
        (Error::invalid_image("no"), "Invalid image: no"),
        (Error::rate_limit("slow"), "Rate limit exceeded: slow"),
        (Error::internal("oops"), "Internal server error: oops"),
        (Error::Anyhow("other".to_string()), "Error: other"),
    ];
    for (error, shown) in cases {
        assert_eq!(error.to_display_string(), shown);
    }
    assert_eq!(Error::Io("x".to_string()).user_message(), "Internal server error occurred");
    assert_eq!(Error::Io("x".to_string()).status_code(), 500);
}

#[test]
fn error_response_body_carries_message_and_code() {
    let body = Error::invalid_request("Bad input data").response_body();
    assert_eq!(body.error.message, "Bad input data");
    assert_eq!(body.error.code, 400);

    let body = Error::internal("secret").response_body();
    assert_eq!(body.error.message, "Internal server error occurred");
    assert_eq!(body.error.code, 500);

    let body = Error::not_found("user").response_body();
    assert_eq!(body.error.code, 404);
    let body = Error::rate_limit("Too many requests").response_body();
    assert_eq!(body.error.code, 429);
}

#[test]
fn error_texts_are_never_empty_but_for_empty_requests() {
    let errors = vec![
        Error::Io(String::new()),
        Error::config(""),
        Error::file_system(""),
        Error::gemini_api("", None),
        Error::not_found(""),
        Error::invalid_image(""),
        Error::rate_limit(""),
        Error::internal(""),
        Error::Anyhow(String::new()),
    ];
    for e in &errors {
        assert!(!e.to_display_string().is_empty());
        assert!(!e.user_message().is_empty());
    }
    let empty = Error::invalid_request("");
    assert_eq!(empty.to_display_string(), "Invalid request: ");
    assert_eq!(empty.user_message(), "");
}

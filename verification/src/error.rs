//! The service's error type: what went wrong, the HTTP status it is answered
//! with, and the message a user is shown.

use vstd::prelude::*;

use crate::models::{ErrorDetails, ErrorResponse};
use crate::text::{decimal, decimal_string, join2, join3, join4, owned};

verus! {

/// Errors of the service.
///
/// The variants that stand for a failure of a lower layer (I/O, HTTP, JSON,
/// image decoding, Base64, UUID parsing, other) hold that failure's message.
#[derive(Debug)]
pub enum Error {
    /// An I/O operation failed.
    Io(String),
    /// An HTTP request failed.
    Http(String),
    /// JSON could not be written or read.
    Json(String),
    /// An image could not be processed.
    Image(String),
    /// Base64 could not be decoded.
    Base64(String),
    /// A UUID could not be parsed.
    Uuid(String),
    /// The configuration is incomplete or wrong.
    Config { message: String },
    /// A file system operation failed.
    FileSystem { message: String },
    /// The Gemini API failed, with the HTTP status it answered, if any.
    GeminiApi { message: String, status: Option<u16> },
    /// The request carried invalid data.
    InvalidRequest { message: String },
    /// A resource does not exist.
    NotFound { resource: String },
    /// An image has an invalid format or content.
    InvalidImage { message: String },
    /// A rate limit was exceeded.
    RateLimit { message: String },
    /// Something failed inside the service.
    Internal { message: String },
    /// Any other failure.
    Anyhow(String),
}

/// The service's result type.
pub type Result<T> = core::result::Result<T, Error>;

/// Whether an HTTP status code exists: `http::StatusCode::from_u16` accepts
/// exactly the codes from 100 to 999.
pub open spec fn is_status_code(code: u16) -> bool {
    100 <= code && code <= 999
}

/// The HTTP status that answers an error.
pub open spec fn status_of(e: Error) -> u16 {
    match e {
        Error::InvalidRequest { .. } => 400,
        Error::NotFound { .. } => 404,
        Error::InvalidImage { .. } => 400,
        Error::RateLimit { .. } => 429,
        Error::GeminiApi { status: Some(s), .. } => if is_status_code(s) {
            s
        } else {
            500
        },
        _ => 500,
    }
}

/// The message a user is shown for an error; internal details stay hidden.
pub open spec fn user_message_of(e: Error) -> Seq<char> {
    match e {
        Error::InvalidRequest { message } => message@,
        Error::NotFound { resource } => "Resource not found: "@ + resource@,
        Error::InvalidImage { message } => "Invalid image: "@ + message@,
        Error::RateLimit { message } => "Rate limit exceeded: "@ + message@,
        Error::GeminiApi { message, .. } => "AI service error: "@ + message@,
        _ => "Internal server error occurred"@,
    }
}

/// How an optional status code is printed for debugging.
pub open spec fn debug_status(status: Option<u16>) -> Seq<char> {
    match status {
        Some(s) => "Some("@ + decimal(s as nat) + ")"@,
        None => "None"@,
    }
}

/// The full description of an error.
pub open spec fn description_of(e: Error) -> Seq<char> {
    match e {
        Error::Io(m) => "IO error: "@ + m@,
        Error::Http(m) => "HTTP request failed: "@ + m@,
        Error::Json(m) => "JSON error: "@ + m@,
        Error::Image(m) => "Image processing error: "@ + m@,
        Error::Base64(m) => "Base64 error: "@ + m@,
        Error::Uuid(m) => "UUID error: "@ + m@,
        Error::Config { message } => "Configuration error: "@ + message@,
        Error::FileSystem { message } => "File system error: "@ + message@,
        Error::GeminiApi { message, status } => "Gemini API error: "@ + message@ + ", status: "@
            + debug_status(status),
        Error::InvalidRequest { message } => "Invalid request: "@ + message@,
        Error::NotFound { resource } => "Resource not found: "@ + resource@,
        Error::InvalidImage { message } => "Invalid image: "@ + message@,
        Error::RateLimit { message } => "Rate limit exceeded: "@ + message@,
        Error::Internal { message } => "Internal server error: "@ + message@,
        Error::Anyhow(m) => "Error: "@ + m@,
    }
}

/// The error is one whose details are internal to the service.
pub open spec fn is_internal(e: Error) -> bool {
    !(e is InvalidRequest || e is NotFound || e is InvalidImage || e is RateLimit
        || e is GeminiApi)
}

impl Error {
    /// A configuration error.
    pub fn config(message: &str) -> (e: Error)
        ensures
            e matches Error::Config { message: m } && m@ == message@,
    {
        Error::Config { message: owned(message) }
    }

    /// A file system error.
    pub fn file_system(message: &str) -> (e: Error)
        ensures
            e matches Error::FileSystem { message: m } && m@ == message@,
    {
        Error::FileSystem { message: owned(message) }
    }

    /// A Gemini API error with the HTTP status that came back, if any.
    pub fn gemini_api(message: &str, status: Option<u16>) -> (e: Error)
        ensures
            e matches Error::GeminiApi { message: m, status: s } && m@ == message@ && s == status,
    {
        Error::GeminiApi { message: owned(message), status }
    }

    /// An invalid request error.
    pub fn invalid_request(message: &str) -> (e: Error)
        ensures
            e matches Error::InvalidRequest { message: m } && m@ == message@,
    {
        Error::InvalidRequest { message: owned(message) }
    }

    /// A not found error for `resource`.
    pub fn not_found(resource: &str) -> (e: Error)
        ensures
            e matches Error::NotFound { resource: r } && r@ == resource@,
    {
        Error::NotFound { resource: owned(resource) }
    }

    /// An invalid image error.
    pub fn invalid_image(message: &str) -> (e: Error)
        ensures
            e matches Error::InvalidImage { message: m } && m@ == message@,
    {
        Error::InvalidImage { message: owned(message) }
    }

    /// A rate limit error.
    pub fn rate_limit(message: &str) -> (e: Error)
        ensures
            e matches Error::RateLimit { message: m } && m@ == message@,
    {
        Error::RateLimit { message: owned(message) }
    }

    /// An internal error.
    pub fn internal(message: &str) -> (e: Error)
        ensures
            e matches Error::Internal { message: m } && m@ == message@,
    {
        Error::Internal { message: owned(message) }
    }

    /// The HTTP status code that answers this error.
    pub fn status_code(&self) -> (code: u16)
        ensures
            code == status_of(*self),
            is_status_code(code),
    {
        match self {
            Error::InvalidRequest { .. } => 400,
            Error::NotFound { .. } => 404,
            Error::InvalidImage { .. } => 400,
            Error::RateLimit { .. } => 429,
            Error::GeminiApi { status: Some(s), .. } => {
                if 100 <= *s && *s <= 999 {
                    *s
                } else {
                    500
                }
            },
            _ => 500,
        }
    }

    /// The message shown to a user, which hides internal details.
    pub fn user_message(&self) -> (m: String)
        ensures
            m@ == user_message_of(*self),
            is_internal(*self) ==> m@ == "Internal server error occurred"@,
    {
        match self {
            Error::InvalidRequest { message } => message.clone(),
            Error::NotFound { resource } => join2("Resource not found: ", resource.as_str()),
            Error::InvalidImage { message } => join2("Invalid image: ", message.as_str()),
            Error::RateLimit { message } => join2("Rate limit exceeded: ", message.as_str()),
            Error::GeminiApi { message, .. } => join2("AI service error: ", message.as_str()),
            _ => owned("Internal server error occurred"),
        }
    }

    /// The full description of the error, with its internal details.
    pub fn to_display_string(&self) -> (d: String)
        ensures
            d@ == description_of(*self),
    {
        match self {
            Error::Io(m) => join2("IO error: ", m.as_str()),
            Error::Http(m) => join2("HTTP request failed: ", m.as_str()),
            Error::Json(m) => join2("JSON error: ", m.as_str()),
            Error::Image(m) => join2("Image processing error: ", m.as_str()),
            Error::Base64(m) => join2("Base64 error: ", m.as_str()),
            Error::Uuid(m) => join2("UUID error: ", m.as_str()),
            Error::Config { message } => join2("Configuration error: ", message.as_str()),
            Error::FileSystem { message } => join2("File system error: ", message.as_str()),
            Error::GeminiApi { message, status } => {
                let shown = match status {
                    Some(s) => {
                        let digits = decimal_string(*s as u64);
                        join3("Some(", digits.as_str(), ")")
                    },
                    None => owned("None"),
                };
                join4("Gemini API error: ", message.as_str(), ", status: ", shown.as_str())
            },
            Error::InvalidRequest { message } => join2("Invalid request: ", message.as_str()),
            Error::NotFound { resource } => join2("Resource not found: ", resource.as_str()),
            Error::InvalidImage { message } => join2("Invalid image: ", message.as_str()),
            Error::RateLimit { message } => join2("Rate limit exceeded: ", message.as_str()),
            Error::Internal { message } => join2("Internal server error: ", message.as_str()),
            Error::Anyhow(m) => join2("Error: ", m.as_str()),
        }
    }

    /// The JSON body that answers this error: the user message and the
    /// status code.
    pub fn response_body(&self) -> (r: ErrorResponse)
        ensures
            r.error.message@ == user_message_of(*self),
            r.error.code == status_of(*self),
    {
        ErrorResponse {
            error: ErrorDetails { message: self.user_message(), code: self.status_code() },
        }
    }
}

/// Every error is answered with an existing HTTP status. Errors other than
/// those of the Gemini API are answered with a client or server error status;
/// a Gemini API error is answered with the status the API gave, when that is
/// an existing status, and with 500 otherwise.
pub proof fn law_error_status_is_an_error_status(e: Error)
    ensures
        is_status_code(status_of(e)),
        !(e is GeminiApi) ==> 400 <= status_of(e) < 600,
        e is GeminiApi && e->status is Some && is_status_code(e->status->0) ==> status_of(e)
            == e->status->0,
        e is GeminiApi && e->status is Some && !is_status_code(e->status->0) ==> status_of(e)
            == 500,
        e is GeminiApi && e->status is None ==> status_of(e) == 500,
{
}

/// Internal errors never show their details: a user sees the same message
/// whatever the internal message was.
pub proof fn law_internal_details_hidden(e1: Error, e2: Error)
    requires
        is_internal(e1),
        is_internal(e2),
    ensures
        user_message_of(e1) == user_message_of(e2),
{
}

/// Every error has a description, and a user is shown a message for every
/// error but an invalid request that came with an empty message (whose
/// message is shown as it is).
pub proof fn law_error_texts_not_empty(e: Error)
    ensures
        description_of(e).len() > 0,
        !(e is InvalidRequest) ==> user_message_of(e).len() > 0,
        e matches Error::InvalidRequest { message } ==> user_message_of(e) == message@,
{
    reveal_strlit("IO error: ");
    reveal_strlit("HTTP request failed: ");
    reveal_strlit("JSON error: ");
    reveal_strlit("Image processing error: ");
    reveal_strlit("Base64 error: ");
    reveal_strlit("UUID error: ");
    reveal_strlit("Configuration error: ");
    reveal_strlit("File system error: ");
    reveal_strlit("Gemini API error: ");
    reveal_strlit("Invalid request: ");
    reveal_strlit("Resource not found: ");
    reveal_strlit("Invalid image: ");
    reveal_strlit("Rate limit exceeded: ");
    reveal_strlit("Internal server error: ");
    reveal_strlit("Error: ");
    reveal_strlit("AI service error: ");
    reveal_strlit("Internal server error occurred");
}

} // verus!

//! The errors of the client of the scraping service.

use vstd::prelude::*;

verus! {

/// `reqwest::Error`: why a request could not be sent or its answer not be read.
#[verifier::external_type_specification]
#[verifier::external_body]
pub struct ExHttpError(reqwest::Error);

/// What the service says when it refuses a request.
#[derive(Debug)]
pub struct FirecrawlAPIError {
    /// Always false.
    pub success: bool,
    /// Why the request was refused.
    pub error: String,
    /// More on the failure, where the service gives it.
    pub details: Option<serde_json::Value>,
}

/// Why a call of the service failed.
#[derive(Debug)]
pub enum FirecrawlError {
    /// The request could not be sent; the text says what was being done.
    HttpError(String, reqwest::Error),
    /// The service answered with a status that is no success and a body that cannot be read:
    /// what was being done, the status, and its name.
    HttpRequestFailed(String, u16, String),
    /// The service refused the request.
    APIError(String, FirecrawlAPIError),
    /// The body of the answer is not the JSON that was expected.
    ResponseParseError(serde_json::Error),
    /// The body of the answer could not be read as text.
    ResponseParseErrorText(reqwest::Error),
}

impl FirecrawlError {
    /// Whether the failure is one of reading the body.
    pub open spec fn is_parse_failure(&self) -> bool {
        self is ResponseParseError || self is ResponseParseErrorText
    }
}

} // verus!

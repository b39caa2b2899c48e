//! The client of the scraping service: where it sends its requests, what it sends with them,
//! and how it judges an answer. It does not send anything itself.

use crate::json::{json_as_bool, json_flag, json_has, json_has_member, json_index, json_member};
use crate::sdk_error::{FirecrawlAPIError, FirecrawlError};
use crate::text::{contains_text, has_substring, same_text, text_view};
use vstd::prelude::*;
use vstd::string::StringExecFns;

verus! {

/// The version of the service's API, as it stands in every path.
pub const API_VERSION: &'static str = "/v2";

/// Where the service runs in the cloud.
pub const CLOUD_API_URL: &'static str = "https://api.firecrawl.dev";

/// The address of the service and the key that opens it.
#[derive(Clone, Debug)]
pub struct Client {
    pub api_key: Option<String>,
    pub api_url: String,
}

/// How the body of an answer is to be read.
#[derive(Clone, Copy, Debug, PartialEq, Eq, Structural)]
pub enum BodyKind {
    /// As the result of the call.
    Payload,
    /// As the service's account of why it refused.
    Refusal,
}

/// How the body of an answer to `action` is to be read: as the result where the action asks
/// for a status or cancels, where the body says `success: true`, or where it says nothing of
/// success; as a refusal else.
pub open spec fn body_kind(action: Seq<char>, body: serde_json::Value) -> BodyKind {
    if has_substring(action, "status"@) || has_substring(action, "cancel"@) || json_flag(
        json_member(body, "success"@),
    ) == Some(true) || !json_has_member(body, "success"@) {
        BodyKind::Payload
    } else {
        BodyKind::Refusal
    }
}

/// One header of a request.
#[derive(Clone, Debug)]
pub struct Header {
    pub name: String,
    pub value: String,
}

/// The headers of a request, as the contracts speak of them: names with values.
pub open spec fn headers_view(headers: Seq<Header>) -> Seq<(Seq<char>, Seq<char>)> {
    Seq::new(headers.len(), |i: int| (headers[i].name@, headers[i].value@))
}

/// The headers that go with a request: the content type, the key where there is one, and
/// the idempotency key where there is one.
pub open spec fn request_headers(api_key: Option<Seq<char>>, idempotency_key: Option<Seq<char>>) -> Seq<
    (Seq<char>, Seq<char>),
> {
    seq![("Content-Type"@, "application/json"@)] + (match api_key {
        Some(k) => seq![("Authorization"@, "Bearer "@ + k)],
        None => Seq::empty(),
    }) + (match idempotency_key {
        Some(k) => seq![("x-idempotency-key"@, k)],
        None => Seq::empty(),
    })
}

fn text_of(s: &str) -> (r: String)
    ensures
        r@ == s@,
{
    s.to_owned()
}

impl Client {
    /// A client of the service in the cloud.
    pub fn new(api_key: &str) -> (r: Result<Client, FirecrawlError>)
        ensures
            r matches Ok(c) && c.api_key.deep_view() == Some(api_key@) && c.api_url@
                == CLOUD_API_URL@,
    {
        Client::new_selfhosted(CLOUD_API_URL, Some(api_key))
    }

    /// A client of the service at `api_url`. The service in the cloud is not to be had
    /// without a key.
    pub fn new_selfhosted(api_url: &str, api_key: Option<&str>) -> (r: Result<
        Client,
        FirecrawlError,
    >)
        ensures
            match r {
                Ok(c) => {
                    &&& !(api_url@ == CLOUD_API_URL@ && api_key.is_none())
                    &&& c.api_url@ == api_url@
                    &&& c.api_key.deep_view() == text_view(api_key)
                },
                Err(e) => {
                    &&& api_url@ == CLOUD_API_URL@ && api_key.is_none()
                    &&& e matches FirecrawlError::APIError(what, cause)
                    &&& what@ == "Configuration"@
                    &&& !cause.success
                    &&& cause.error@ == "API key is required for cloud service"@
                    &&& cause.details.is_none()
                },
            },
    {
        if same_text(api_url, CLOUD_API_URL) && api_key.is_none() {
            return Err(
                FirecrawlError::APIError(
                    text_of("Configuration"),
                    FirecrawlAPIError {
                        success: false,
                        error: text_of("API key is required for cloud service"),
                        details: None,
                    },
                ),
            );
        }
        Ok(
            Client {
                api_key: match api_key {
                    Some(k) => Some(text_of(k)),
                    None => None,
                },
                api_url: text_of(api_url),
            },
        )
    }

    /// The full address of an endpoint: the service's address, the version, and the path.
    pub fn url(&self, path: &str) -> (r: String)
        ensures
            r@ == self.api_url@ + API_VERSION@ + path@,
    {
        let mut full = self.api_url.clone();
        full.append(API_VERSION);
        full.append(path);
        full
    }

    /// The headers that go with a request.
    pub fn prepare_headers(&self, idempotency_key: Option<&str>) -> (headers: Vec<Header>)
        ensures
            headers_view(headers@) == request_headers(
                self.api_key.deep_view(),
                text_view(idempotency_key),
            ),
    {
        let mut headers: Vec<Header> = Vec::new();
        headers.push(Header { name: text_of("Content-Type"), value: text_of("application/json") });
        if let Some(key) = &self.api_key {
            let mut value = text_of("Bearer ");
            value.append(key.as_str());
            headers.push(Header { name: text_of("Authorization"), value });
        }
        if let Some(key) = idempotency_key {
            headers.push(Header { name: text_of("x-idempotency-key"), value: text_of(key) });
        }
        assert(headers_view(headers@) =~= request_headers(
            self.api_key.deep_view(),
            text_view(idempotency_key),
        ));
        headers
    }

    /// Says how the body of an answer to `action` is to be read.
    pub fn classify_body(action: &str, body: &serde_json::Value) -> (kind: BodyKind)
        ensures
            kind == body_kind(action@, *body),
    {
        let succeeded = match json_as_bool(json_index(body, "success")) {
            Some(b) => b,
            None => false,
        };
        if contains_text(action, "status") || contains_text(action, "cancel") || succeeded
            || !json_has(body, "success") {
            BodyKind::Payload
        } else {
            BodyKind::Refusal
        }
    }

    /// Settles what a call returns once its answer has been read: a body that could not be
    /// read, under a status that is no success, is reported as the failed request that it
    /// is; everything else stands as it was read.
    pub fn handle_response<T>(
        response: Result<T, FirecrawlError>,
        is_success: bool,
        action: &str,
        status: u16,
        reason: &str,
    ) -> (r: Result<T, FirecrawlError>)
        ensures
            match response {
                Ok(_) => r == response,
                Err(e) => if e.is_parse_failure() && !is_success {
                    &&& r matches Err(FirecrawlError::HttpRequestFailed(what, code, name))
                    &&& what@ == action@
                    &&& code == status
                    &&& name@ == reason@
                } else {
                    r == response
                },
            },
    {
        match response {
            Ok(v) => Ok(v),
            Err(FirecrawlError::ResponseParseError(e)) => {
                if is_success {
                    Err(FirecrawlError::ResponseParseError(e))
                } else {
                    Err(FirecrawlError::HttpRequestFailed(text_of(action), status, text_of(reason)))
                }
            },
            Err(FirecrawlError::ResponseParseErrorText(e)) => {
                if is_success {
                    Err(FirecrawlError::ResponseParseErrorText(e))
                } else {
                    Err(FirecrawlError::HttpRequestFailed(text_of(action), status, text_of(reason)))
                }
            },
            Err(e) => Err(e),
        }
    }
}

} // verus!

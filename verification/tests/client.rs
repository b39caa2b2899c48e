use fdb_queue::client::{BodyKind, API_VERSION, CLOUD_API_URL};
use fdb_queue::{Client, FirecrawlAPIError, FirecrawlError};

#[test]
fn test_new_client() {
    let client = Client::new("test-api-key").unwrap();
    assert_eq!(client.api_key, Some("test-api-key".to_string()));
    assert_eq!(client.api_url, CLOUD_API_URL);
}

#[test]
fn test_new_client_requires_api_key_for_cloud() {
    let result = Client::new_selfhosted(CLOUD_API_URL, None::<&str>);
    assert!(result.is_err());
}

#[test]
fn test_new_selfhosted_client() {
    let client = Client::new_selfhosted("http://localhost:3000", Some("api-key")).unwrap();
    assert_eq!(client.api_key, Some("api-key".to_string()));
    assert_eq!(client.api_url, "http://localhost:3000");
}

#[test]
fn test_selfhosted_without_api_key() {
    let client = Client::new_selfhosted("http://localhost:3000", None::<&str>).unwrap();
    assert_eq!(client.api_key, None);
    assert_eq!(client.api_url, "http://localhost:3000");
}

#[test]
fn test_url_builder() {
    let client = Client::new("test-key").unwrap();
    assert_eq!(client.url("/scrape"), "https://api.firecrawl.dev/v2/scrape");
}

#[test]
fn missing_key_for_the_cloud_is_a_configuration_error() {
    match Client::new_selfhosted("https://api.firecrawl.dev", None::<&str>) {
        Err(FirecrawlError::APIError(what, cause)) => {
            assert_eq!(what, "Configuration");
            assert!(!cause.success);
            assert_eq!(cause.error, "API key is required for cloud service");
            assert!(cause.details.is_none());
        }
        _ => panic!("no configuration error"),
    }
    assert_eq!(API_VERSION, "/v2");
}

#[test]
fn headers_carry_content_type_key_and_idempotency_key() {
    let with_key = Client::new("k").unwrap();
    let lines: Vec<(String, String)> = with_key
        .prepare_headers(Some("once"))
        .into_iter()
        .map(|h| (h.name, h.value))
        .collect();
    assert_eq!(
        lines,
        vec![
            ("Content-Type".to_string(), "application/json".to_string()),
            ("Authorization".to_string(), "Bearer k".to_string()),
            ("x-idempotency-key".to_string(), "once".to_string()),
        ]
    );
    let without = Client::new_selfhosted("http://localhost", None::<&str>).unwrap();
    let lines = without.prepare_headers(None);
    assert_eq!(lines.len(), 1);
    assert_eq!(lines[0].name, "Content-Type");
}

fn body(text: &str) -> serde_json::Value {
    serde_json::from_str(text).unwrap()
}

#[test]
fn bodies_are_read_as_result_or_refusal() {
    assert_eq!(Client::classify_body("search", &body("{\"success\": true}")), BodyKind::Payload);
    assert_eq!(Client::classify_body("search", &body("{\"success\": false}")), BodyKind::Refusal);
    assert_eq!(Client::classify_body("search", &body("{\"success\": null}")), BodyKind::Refusal);
    assert_eq!(Client::classify_body("search", &body("{\"success\": \"yes\"}")), BodyKind::Refusal);
    assert_eq!(Client::classify_body("search", &body("{\"data\": 1}")), BodyKind::Payload);
    assert_eq!(Client::classify_body("search", &body("[1]")), BodyKind::Payload);
    assert_eq!(Client::classify_body("crawl status", &body("{\"success\": false}")), BodyKind::Payload);
    assert_eq!(Client::classify_body("cancel crawl", &body("{\"success\": false}")), BodyKind::Payload);
    assert_eq!(Client::classify_body("stat us", &body("{\"success\": false}")), BodyKind::Refusal);
}

#[test]
fn unreadable_body_under_a_failed_status_is_a_failed_request() {
    let parse_error = || serde_json::from_str::<serde_json::Value>("{").unwrap_err();
    let settled: Result<u8, FirecrawlError> = Client::handle_response(
        Err(FirecrawlError::ResponseParseError(parse_error())),
        false,
        "search",
        502,
        "502",
    );
    match settled {
        Err(FirecrawlError::HttpRequestFailed(what, status, name)) => {
            assert_eq!(what, "search");
            assert_eq!(status, 502);
            assert_eq!(name, "502");
        }
        _ => panic!("not a failed request"),
    }
    let kept: Result<u8, FirecrawlError> = Client::handle_response(
        Err(FirecrawlError::ResponseParseError(parse_error())),
        true,
        "search",
        200,
        "200",
    );
    assert!(matches!(kept, Err(FirecrawlError::ResponseParseError(_))));
    let refusal = FirecrawlAPIError { success: false, error: "Invalid query".to_string(), details: None };
    let refused: Result<u8, FirecrawlError> = Client::handle_response(
        Err(FirecrawlError::APIError("search".to_string(), refusal)),
        false,
        "search",
        400,
        "400",
    );
    assert!(matches!(refused, Err(FirecrawlError::APIError(_, _))));
    let fine: Result<u8, FirecrawlError> = Client::handle_response(Ok(7), false, "search", 500, "500");
    assert!(matches!(fine, Ok(7)));
}

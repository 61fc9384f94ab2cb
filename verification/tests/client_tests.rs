//! Tests for query construction, response interpretation and the error
//! taxonomy.

use qrng_client::client::{
    api_error_message, build_query, classify_generate_error, interpret_generate_response,
    interpret_health_response, QRNGClient,
};
use qrng_client::errors::QRNGError;
use qrng_client::json::parse_json;
use qrng_client::types::GenerateOptions;

#[test]
fn query_with_all_options() {
    let options = GenerateOptions::new()
        .bytes(64)
        .format(String::from("base64"))
        .method(String::from("vacuum"))
        .signature_type(String::from("ed25519"));
    assert_eq!(
        build_query(&options),
        "bytes=64&format=base64&method=vacuum&signatureType=ed25519"
    );
}

#[test]
fn query_with_method_only() {
    let options = GenerateOptions::new().method(String::from("vacuum"));
    assert_eq!(build_query(&options), "bytes=32&format=hex&method=vacuum");
}

#[test]
fn query_with_signature_type_only() {
    let options = GenerateOptions::new().signature_type(String::from("ed25519"));
    assert_eq!(build_query(&options), "bytes=32&format=hex&signatureType=ed25519");
}

#[test]
fn query_with_defaults() {
    assert_eq!(build_query(&GenerateOptions::new()), "bytes=32&format=hex");
    assert_eq!(build_query(&GenerateOptions::default()), "bytes=32&format=hex");
}

#[test]
fn options_builder_sets_each_field() {
    let options = GenerateOptions::new().bytes(16);
    assert_eq!(options.bytes, Some(16));
    assert!(options.format.is_none());
    assert!(options.method.is_none());
    assert!(options.signature_type.is_none());
}

#[test]
fn client_urls() {
    let client = QRNGClient::with_base_url(
        String::from("SECRET-REDACTED"),
        String::from("http://localhost:9000"),
    );
    assert_eq!(client.base_url(), "http://localhost:9000");
    assert_eq!(client.api_key(), "SECRET-REDACTED");
    assert_eq!(client.health_url(), "http://localhost:9000/api/health");
    let url = client.generate_url(&GenerateOptions::new().bytes(8));
    assert_eq!(url, "http://localhost:9000/api/random?bytes=8&format=hex");
}

#[test]
fn client_default_base_url() {
    let client = QRNGClient::new(String::from("k"));
    assert_eq!(client.base_url(), "https://qrngapi.com");
    assert_eq!(client.health_url(), "https://qrngapi.com/api/health");
}

#[test]
fn status_401_is_authentication() {
    for body in ["", "{}", "{\"error\":\"ignored\"}", "garbage"] {
        match interpret_generate_response(401, body) {
            Err(QRNGError::Authentication(m)) => assert_eq!(m, "Invalid API key"),
            _ => panic!("expected an authentication error"),
        }
    }
}

#[test]
fn status_429_is_rate_limit() {
    for body in ["", "{\"error\":\"ignored\"}"] {
        match interpret_generate_response(429, body) {
            Err(QRNGError::RateLimit(m)) => assert_eq!(m, "Rate limit exceeded"),
            _ => panic!("expected a rate limit error"),
        }
    }
}

#[test]
fn status_402_is_quota_exceeded() {
    for body in ["", "{\"error\":\"ignored\"}"] {
        match interpret_generate_response(402, body) {
            Err(QRNGError::QuotaExceeded(m)) => assert_eq!(m, "Monthly quota exceeded"),
            _ => panic!("expected a quota error"),
        }
    }
}

#[test]
fn status_500_takes_message_from_body() {
    match interpret_generate_response(500, "{\"error\":\"boom\"}") {
        Err(QRNGError::Api { message, status }) => {
            assert_eq!(message, "boom");
            assert_eq!(status, 500);
        }
        _ => panic!("expected an api error"),
    }
    for body in ["", "not json", "{\"error\":17}", "[1,2]"] {
        match interpret_generate_response(500, body) {
            Err(QRNGError::Api { message, status }) => {
                assert_eq!(message, "Unknown error");
                assert_eq!(status, 500);
            }
            _ => panic!("expected an api error"),
        }
    }
}

#[test]
fn status_200_decodes_entropy_result() {
    let body = "{\"data\":\"deadbeef\",\"proofId\":\"p-1\",\"signature\":\"sig\",\
                \"publicKey\":\"pk\",\"signatureType\":\"ed25519\"}";
    let result = interpret_generate_response(200, body).unwrap();
    assert_eq!(result.data, "deadbeef");
    assert_eq!(result.proof_id, "p-1");
    assert_eq!(result.signature, "sig");
    assert_eq!(result.public_key, "pk");
    assert_eq!(result.signature_type, "ed25519");
    assert!(result.metadata.is_empty());
}

#[test]
fn status_200_keeps_metadata() {
    let body = "{\"data\":\"00\",\"proofId\":\"p\",\"signature\":\"s\",\"publicKey\":\"k\",\
                \"signatureType\":\"t\",\"metadata\":{\"source\":\"qrng\",\"count\":3}}";
    let result = interpret_generate_response(200, body).unwrap();
    assert_eq!(result.metadata.len(), 2);
    assert_eq!(result.metadata[0].0, "source");
    assert_eq!(result.metadata[1].0, "count");
}

#[test]
fn status_200_with_bad_body_is_decode_error() {
    for body in ["", "not json", "{\"data\":\"x\"}", "{\"data\":1,\"proofId\":\"p\",\
                  \"signature\":\"s\",\"publicKey\":\"k\",\"signatureType\":\"t\"}"] {
        match interpret_generate_response(200, body) {
            Err(QRNGError::Decode(_)) => {}
            _ => panic!("expected a decode error"),
        }
    }
}

#[test]
fn health_failure_is_generic_api_error() {
    for status in [401u16, 429, 402, 404, 500, 199, 300] {
        match interpret_health_response(status, "{\"error\":\"ignored\"}") {
            Err(QRNGError::Api { message, status: s }) => {
                assert_eq!(message, "Health check failed");
                assert_eq!(s, status);
            }
            _ => panic!("expected an api error"),
        }
    }
}

#[test]
fn health_success_decodes_report() {
    let body = "{\"status\":\"ok\",\"metrics\":{\"uptime\":123},\"timestamp\":\"2024-01-01T00:00:00Z\"}";
    let report = interpret_health_response(200, body).unwrap();
    assert_eq!(report.status, "ok");
    assert_eq!(report.metrics.len(), 1);
    assert_eq!(report.metrics[0].0, "uptime");
    assert_eq!(report.timestamp, "2024-01-01T00:00:00Z");
}

#[test]
fn health_success_requires_metrics() {
    let body = "{\"status\":\"ok\",\"timestamp\":\"now\"}";
    match interpret_health_response(200, body) {
        Err(QRNGError::Decode(_)) => {}
        _ => panic!("expected a decode error"),
    }
}

#[test]
fn error_messages() {
    let api = QRNGError::Api { message: String::from("boom"), status: 500 };
    assert_eq!(api.message(), "API error (500): boom");
    assert_eq!(
        QRNGError::Authentication(String::from("Invalid API key")).message(),
        "Authentication error: Invalid API key"
    );
    assert_eq!(
        QRNGError::RateLimit(String::from("Rate limit exceeded")).message(),
        "Rate limit: Rate limit exceeded"
    );
    assert_eq!(
        QRNGError::QuotaExceeded(String::from("Monthly quota exceeded")).message(),
        "Quota exceeded: Monthly quota exceeded"
    );
    assert_eq!(
        QRNGError::Network(String::from("connection refused")).message(),
        "Network error: connection refused"
    );
    assert_eq!(QRNGError::Decode(String::from("bad body")).message(), "JSON error: bad body");
}

#[test]
fn classifier_ignores_body_for_fixed_statuses() {
    let body = parse_json("{\"error\":\"boom\"}").unwrap();
    assert!(matches!(
        classify_generate_error(401, Some(&body)),
        QRNGError::Authentication(_)
    ));
    assert!(matches!(classify_generate_error(429, Some(&body)), QRNGError::RateLimit(_)));
    assert!(matches!(
        classify_generate_error(402, Some(&body)),
        QRNGError::QuotaExceeded(_)
    ));
    match classify_generate_error(503, Some(&body)) {
        QRNGError::Api { message, status } => {
            assert_eq!(message, "boom");
            assert_eq!(status, 503);
        }
        _ => panic!("expected an api error"),
    }
    match classify_generate_error(503, None) {
        QRNGError::Api { message, status } => {
            assert_eq!(message, "Unknown error");
            assert_eq!(status, 503);
        }
        _ => panic!("expected an api error"),
    }
}

#[test]
fn api_error_message_reads_error_field() {
    let body = parse_json("{\"error\":\"why\"}").unwrap();
    assert_eq!(api_error_message(Some(&body)), "why");
    let no_field = parse_json("{\"other\":true}").unwrap();
    assert_eq!(api_error_message(Some(&no_field)), "Unknown error");
    let not_obj = parse_json("[]").unwrap();
    assert_eq!(api_error_message(Some(&not_obj)), "Unknown error");
    assert_eq!(api_error_message(None), "Unknown error");
}

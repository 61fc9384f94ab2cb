//! Round-trip tests: encoding a record and decoding the result reproduces
//! every field, including metadata and metrics keys the schema does not know.

use qrng_client::json::{parse_json, to_json_text, JsonValue};
use qrng_client::types::{
    decode_entropy_result, decode_health_status, encode_entropy_result, encode_health_status,
    EntropyResult, HealthStatus,
};

fn sample_entropy() -> EntropyResult {
    EntropyResult {
        data: String::from("a1b2c3"),
        proof_id: String::from("proof-77"),
        signature: String::from("sig-bytes"),
        public_key: String::from("pk-bytes"),
        signature_type: String::from("ed25519"),
        metadata: vec![
            (String::from("source"), JsonValue::Str(String::from("vacuum"))),
            (String::from("count"), JsonValue::Num(String::from("12"))),
            (
                String::from("trace"),
                JsonValue::Arr(vec![JsonValue::Bool(true), JsonValue::Null]),
            ),
        ],
    }
}

#[test]
fn entropy_value_round_trip() {
    let original = sample_entropy();
    let encoded = encode_entropy_result(&original);
    let decoded = decode_entropy_result(&encoded).unwrap();
    assert_eq!(decoded.data, original.data);
    assert_eq!(decoded.proof_id, original.proof_id);
    assert_eq!(decoded.signature, original.signature);
    assert_eq!(decoded.public_key, original.public_key);
    assert_eq!(decoded.signature_type, original.signature_type);
    assert_eq!(decoded.metadata.len(), original.metadata.len());
    for (left, right) in decoded.metadata.iter().zip(original.metadata.iter()) {
        assert_eq!(left.0, right.0);
        assert_eq!(to_json_text(&left.1), to_json_text(&right.1));
    }
}

#[test]
fn entropy_text_round_trip() {
    let original = sample_entropy();
    let text = to_json_text(&encode_entropy_result(&original));
    let reparsed = parse_json(&text).unwrap();
    let decoded = decode_entropy_result(&reparsed).unwrap();
    assert_eq!(decoded.data, original.data);
    assert_eq!(decoded.metadata.len(), 3);
    assert_eq!(decoded.metadata[2].0, "trace");
    assert_eq!(to_json_text(&decoded.metadata[2].1), "[true,null]");
}

fn sample_health() -> HealthStatus {
    HealthStatus {
        status: String::from("healthy"),
        metrics: vec![
            (String::from("uptime"), JsonValue::Num(String::from("99.99"))),
            (String::from("region"), JsonValue::Str(String::from("eu-1"))),
        ],
        timestamp: String::from("2024-06-01T12:00:00Z"),
    }
}

#[test]
fn health_value_round_trip() {
    let original = sample_health();
    let encoded = encode_health_status(&original);
    let decoded = decode_health_status(&encoded).unwrap();
    assert_eq!(decoded.status, original.status);
    assert_eq!(decoded.timestamp, original.timestamp);
    assert_eq!(decoded.metrics.len(), original.metrics.len());
    for (left, right) in decoded.metrics.iter().zip(original.metrics.iter()) {
        assert_eq!(left.0, right.0);
        assert_eq!(to_json_text(&left.1), to_json_text(&right.1));
    }
}

#[test]
fn health_text_round_trip() {
    let original = sample_health();
    let text = to_json_text(&encode_health_status(&original));
    let reparsed = parse_json(&text).unwrap();
    let decoded = decode_health_status(&reparsed).unwrap();
    assert_eq!(decoded.status, "healthy");
    assert_eq!(decoded.metrics[0].0, "uptime");
    assert_eq!(to_json_text(&decoded.metrics[0].1), "99.99");
}

#[test]
fn decode_rejects_non_object_metadata() {
    let body = parse_json(
        "{\"data\":\"d\",\"proofId\":\"p\",\"signature\":\"s\",\"publicKey\":\"k\",\
         \"signatureType\":\"t\",\"metadata\":[1,2]}",
    )
    .unwrap();
    assert!(decode_entropy_result(&body).is_err());
}

#[test]
fn decode_rejects_duplicate_metadata_keys() {
    let body = parse_json(
        "{\"data\":\"d\",\"proofId\":\"p\",\"signature\":\"s\",\"publicKey\":\"k\",\
         \"signatureType\":\"t\",\"metadata\":{\"a\":1,\"a\":2}}",
    )
    .unwrap();
    assert!(decode_entropy_result(&body).is_err());
}

#[test]
fn health_rejects_duplicate_metrics_keys() {
    let body =
        parse_json("{\"status\":\"ok\",\"metrics\":{\"m\":1,\"m\":2},\"timestamp\":\"now\"}")
            .unwrap();
    assert!(decode_health_status(&body).is_err());
}

#[test]
fn record_clones_preserve_fields() {
    let original = sample_entropy();
    let copy = original.clone();
    assert_eq!(copy.data, original.data);
    assert_eq!(copy.metadata.len(), original.metadata.len());
    let health = sample_health();
    let health_copy = health.clone();
    assert_eq!(health_copy.status, health.status);
    assert_eq!(health_copy.metrics.len(), health.metrics.len());
}

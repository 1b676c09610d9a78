use cgi_extension::framing::read_frame;
use cgi_extension::{CGIExtensionRequest, FatalError};
use serde_json::{Number, Value};

fn decode(text: &str) -> Result<CGIExtensionRequest, FatalError> {
    CGIExtensionRequest::decode(text.as_bytes().to_vec())
}

fn refused(text: &str) -> bool {
    matches!(decode(text), Err(FatalError::InvalidRequest))
}

#[test]
fn framed_request_reads_back() {
    let mut fields = serde_json::Map::new();
    fields.insert("id".to_string(), Value::Null);
    fields.insert("method".to_string(), Value::String("ping".to_string()));
    fields.insert("parameters".to_string(), Value::Array(Vec::new()));
    let document = serde_json::to_vec(&Value::Object(fields)).unwrap();
    let mut input = format!("{}\n", document.len()).into_bytes();
    input.extend_from_slice(&document);

    let payload = read_frame(&input).unwrap();
    assert_eq!(payload, document);
    let request = CGIExtensionRequest::decode(payload).unwrap();
    assert_eq!(request.id, None);
    assert_eq!(request.method, "ping");
    assert_eq!(request.parameters, Vec::<String>::new());
}

#[test]
fn request_holds_method_and_parameters_in_order() {
    let request = decode(r#"{"id":12,"method":"sum","parameters":["3","1","2",""]}"#).unwrap();
    assert_eq!(request.id, Some(12));
    assert_eq!(request.method, "sum");
    assert_eq!(request.parameters, vec!["3", "1", "2", ""]);
}

#[test]
fn request_id_may_be_absent_or_null() {
    assert_eq!(decode(r#"{"method":"m","parameters":[]}"#).unwrap().id, None);
    assert_eq!(decode(r#"{"id":null,"method":"m","parameters":[]}"#).unwrap().id, None);
    assert_eq!(decode(r#"{"id":0,"method":"m","parameters":[]}"#).unwrap().id, Some(0));
    assert_eq!(
        decode(r#"{"id":4294967295,"method":"m","parameters":[]}"#).unwrap().id,
        Some(u32::MAX)
    );
}

#[test]
fn request_id_must_fit_thirty_two_bits() {
    assert!(refused(r#"{"id":4294967296,"method":"m","parameters":[]}"#));
    assert!(refused(r#"{"id":18446744073709551616,"method":"m","parameters":[]}"#));
    assert!(refused(r#"{"id":-1,"method":"m","parameters":[]}"#));
    assert!(refused(r#"{"id":1.0,"method":"m","parameters":[]}"#));
    assert!(refused(r#"{"id":1e2,"method":"m","parameters":[]}"#));
    assert!(refused(r#"{"id":"1","method":"m","parameters":[]}"#));
    assert!(refused(r#"{"id":true,"method":"m","parameters":[]}"#));
    assert!(refused(r#"{"id":[1],"method":"m","parameters":[]}"#));
    assert!(refused(r#"{"id":{},"method":"m","parameters":[]}"#));
}

#[test]
fn request_needs_a_method_that_is_a_string() {
    assert!(refused(r#"{"parameters":[]}"#));
    assert!(refused(r#"{"method":null,"parameters":[]}"#));
    assert!(refused(r#"{"method":1,"parameters":[]}"#));
    assert!(refused(r#"{"method":["m"],"parameters":[]}"#));
    assert!(refused(r#"{"Method":"m","parameters":[]}"#));
    assert_eq!(decode(r#"{"method":"","parameters":[]}"#).unwrap().method, "");
}

#[test]
fn request_needs_parameters_that_are_strings() {
    assert!(refused(r#"{"method":"m"}"#));
    assert!(refused(r#"{"method":"m","parameters":null}"#));
    assert!(refused(r#"{"method":"m","parameters":"a"}"#));
    assert!(refused(r#"{"method":"m","parameters":{"0":"a"}}"#));
    assert!(refused(r#"{"method":"m","parameters":["a",1]}"#));
    assert!(refused(r#"{"method":"m","parameters":[null]}"#));
    assert!(refused(r#"{"method":"m","parameters":[["a"]]}"#));
    assert!(refused(r#"{"method":"m","parameters":["a","b",false]}"#));
}

#[test]
fn request_must_be_an_object() {
    assert!(refused(""));
    assert!(refused("   "));
    assert!(refused("null"));
    assert!(refused("42"));
    assert!(refused(r#""echo""#));
    assert!(refused(r#"[null,"echo",["hi"]]"#));
    assert!(refused("{}"));
}

#[test]
fn request_must_be_one_whole_document() {
    assert!(refused(r#"{"method":"m","parameters":[]"#));
    assert!(refused(r#"{"method":"m","parameters":[]} x"#));
    assert!(refused(r#"{"method":"m","parameters":[]}{}"#));
    assert!(refused(r#"{method:"m",parameters:[]}"#));
    assert!(decode(" \n{\"method\":\"m\",\"parameters\":[]}\n ").is_ok());
}

#[test]
fn request_ignores_other_fields() {
    let request =
        decode(r#"{"extra":{"a":[1,2]},"method":"m","parameters":["p"],"version":2}"#).unwrap();
    assert_eq!(request.method, "m");
    assert_eq!(request.parameters, vec!["p"]);
    assert_eq!(request.id, None);
}

#[test]
fn request_texts_are_unescaped() {
    let request = decode(r#"{"method":"café","parameters":["a\"b","\n","😀"]}"#).unwrap();
    assert_eq!(request.method, "caf\u{e9}");
    assert_eq!(request.parameters, vec!["a\"b", "\n", "\u{1F600}"]);
}

#[test]
fn payload_that_is_not_utf8_is_refused_as_such() {
    assert_eq!(
        CGIExtensionRequest::decode(vec![b'{', 0xff, b'}']).err(),
        Some(FatalError::InvalidUtf8)
    );
    assert_eq!(
        CGIExtensionRequest::decode(vec![0xc3]).err(),
        Some(FatalError::InvalidUtf8)
    );
    assert_eq!(CGIExtensionRequest::decode(Vec::new()).err(), Some(FatalError::InvalidRequest));
}

#[test]
fn request_is_read_from_a_document() {
    let mut fields = serde_json::Map::new();
    fields.insert("id".to_string(), Value::Number(Number::from(9u32)));
    fields.insert("method".to_string(), Value::String("m".to_string()));
    fields.insert(
        "parameters".to_string(),
        Value::Array(vec![Value::String("x".to_string()), Value::String("y".to_string())]),
    );
    let request = CGIExtensionRequest::from_json(&Value::Object(fields.clone())).unwrap();
    assert_eq!(request.id, Some(9));
    assert_eq!(request.method, "m");
    assert_eq!(request.parameters, vec!["x", "y"]);

    fields.insert("id".to_string(), Value::Number(Number::from(-9i64)));
    assert!(CGIExtensionRequest::from_json(&Value::Object(fields.clone())).is_none());
    fields.insert("id".to_string(), Value::Number(Number::from(u64::MAX)));
    assert!(CGIExtensionRequest::from_json(&Value::Object(fields)).is_none());
    assert!(CGIExtensionRequest::from_json(&Value::Null).is_none());
    assert!(CGIExtensionRequest::from_json(&Value::Array(Vec::new())).is_none());
}

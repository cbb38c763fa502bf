use evocaition::decode::{check_status, decode_once, document_outcome, CompletionError};
use evocaition::schema::{classify_document, read_choice, Choice, Document};

fn doc(text: &str) -> serde_json::Value {
    serde_json::from_str(text).unwrap()
}

#[test]
fn single_document_message_yields_its_content() {
    let body = r#"{"model":"m","object":"chat.completion","created":0,"choices":[{"message":{"content":"hello","role":"assistant"}}]}"#;
    let fragments = decode_once(body).unwrap();
    assert_eq!(fragments, vec!["hello".to_string()]);
}

#[test]
fn single_document_plain_choice_yields_text() {
    let body = r#"{"id":"x","model":"m","object":"text_completion","created":5,"choices":[{"text":"abc","finish_reason":"stop"}],"usage":{"prompt_tokens":1,"completion_tokens":2,"total_tokens":3}}"#;
    assert_eq!(decode_once(body).unwrap(), vec!["abc".to_string()]);
}

#[test]
fn single_document_takes_first_choice_only() {
    let body = r#"{"model":"m","object":"o","created":0,"choices":[{"text":"one"},{"text":"two"}]}"#;
    assert_eq!(decode_once(body).unwrap(), vec!["one".to_string()]);
}

#[test]
fn single_document_message_without_content_yields_empty_text() {
    let body = r#"{"model":"m","object":"o","created":0,"choices":[{"message":{"role":"assistant","content":null}}]}"#;
    assert_eq!(decode_once(body).unwrap(), vec![String::new()]);
}

#[test]
fn empty_choices_yield_no_fragment() {
    let body = r#"{"model":"m","object":"o","created":0,"choices":[]}"#;
    assert!(decode_once(body).unwrap().is_empty());
}

#[test]
fn error_envelope_yields_api_error() {
    let body = r#"{"error":{"code":429,"message":"rate limited"}}"#;
    match decode_once(body) {
        Err(CompletionError::Api { code, message, metadata }) => {
            assert_eq!(code, 429);
            assert_eq!(message, "rate limited");
            assert!(metadata.is_none());
        }
        other => panic!("unexpected outcome: {:?}", other),
    }
}

#[test]
fn error_envelope_keeps_metadata() {
    let body = r#"{"error":{"code":400,"message":"bad","metadata":{"provider":"p"}}}"#;
    match decode_once(body) {
        Err(CompletionError::Api { code, metadata, .. }) => {
            assert_eq!(code, 400);
            assert_eq!(metadata, Some(doc(r#"{"provider":"p"}"#)));
        }
        other => panic!("unexpected outcome: {:?}", other),
    }
}

#[test]
fn error_code_out_of_range_is_malformed() {
    let body = r#"{"error":{"code":4294967296,"message":"x"}}"#;
    assert!(matches!(decode_once(body), Err(CompletionError::MalformedResponse { .. })));
}

#[test]
fn invalid_json_is_malformed_and_keeps_body() {
    let body = "{not json";
    match decode_once(body) {
        Err(CompletionError::MalformedResponse { raw_body, diagnostic }) => {
            assert_eq!(raw_body, body);
            assert!(!diagnostic.is_empty());
        }
        other => panic!("unexpected outcome: {:?}", other),
    }
}

#[test]
fn unknown_shape_is_malformed() {
    let body = r#"{"hello":"world"}"#;
    match decode_once(body) {
        Err(CompletionError::MalformedResponse { raw_body, .. }) => assert_eq!(raw_body, body),
        other => panic!("unexpected outcome: {:?}", other),
    }
}

#[test]
fn delta_in_single_document_is_rejected() {
    let body = r#"{"model":"m","object":"o","created":0,"choices":[{"delta":{"content":"x"}}]}"#;
    assert!(matches!(decode_once(body), Err(CompletionError::UnexpectedStreamingShape)));
}

#[test]
fn message_without_role_matches_no_choice() {
    let v = doc(r#"{"message":{"content":"x"}}"#);
    assert!(read_choice(&v).is_none());
    let body = r#"{"model":"m","object":"o","created":0,"choices":[{"message":{"content":"x"}}]}"#;
    assert!(matches!(decode_once(body), Err(CompletionError::MalformedResponse { .. })));
}

#[test]
fn choice_shapes_are_tried_in_order() {
    let plain = doc(r#"{"text":"t","message":{"role":"r"}}"#);
    assert!(matches!(read_choice(&plain), Some(Choice::Plain { .. })));
    let message = doc(r#"{"message":{"role":"r","content":"c"},"delta":{}}"#);
    match read_choice(&message) {
        Some(Choice::Message { content, role, .. }) => {
            assert_eq!(content, Some("c".to_string()));
            assert_eq!(role, "r");
        }
        other => panic!("unexpected choice: {:?}", other),
    }
    let delta = doc(r#"{"delta":{"role":"assistant"},"finish_reason":"stop"}"#);
    match read_choice(&delta) {
        Some(Choice::Delta { content, role, finish_reason }) => {
            assert_eq!(content, None);
            assert_eq!(role, Some("assistant".to_string()));
            assert_eq!(finish_reason, Some("stop".to_string()));
        }
        other => panic!("unexpected choice: {:?}", other),
    }
}

#[test]
fn wrongly_typed_optional_member_matches_no_choice() {
    assert!(read_choice(&doc(r#"{"text":"t","finish_reason":3}"#)).is_none());
    assert!(read_choice(&doc(r#"{"text":"t","error":{"code":"x"}}"#)).is_none());
    assert!(read_choice(&doc(r#"{"delta":null}"#)).is_none());
}

#[test]
fn tool_calls_are_checked() {
    let good = doc(
        r#"{"message":{"role":"assistant","tool_calls":[{"id":"1","type":"function","function":{"name":"f","arguments":{}}}]}}"#,
    );
    assert!(matches!(read_choice(&good), Some(Choice::Message { .. })));
    let bad = doc(
        r#"{"message":{"role":"assistant","tool_calls":[{"id":"1","type":"function","function":{"name":"f"}}]}}"#,
    );
    assert!(read_choice(&bad).is_none());
}

#[test]
fn classify_reads_all_response_members() {
    let v = doc(
        r#"{"id":"a","provider":"p","model":"m","object":"o","created":7,"choices":[],"system_fingerprint":"fp","usage":{"prompt_tokens":1,"completion_tokens":2,"total_tokens":3}}"#,
    );
    match classify_document(&v) {
        Document::Response(r) => {
            assert_eq!(r.id, Some("a".to_string()));
            assert_eq!(r.provider, Some("p".to_string()));
            assert_eq!(r.model, "m");
            assert_eq!(r.object, "o");
            assert_eq!(r.created, 7);
            assert_eq!(r.system_fingerprint, Some("fp".to_string()));
            let u = r.usage.unwrap();
            assert_eq!((u.prompt_tokens, u.completion_tokens, u.total_tokens), (1, 2, 3));
        }
        other => panic!("unexpected document: {:?}", other),
    }
}

#[test]
fn negative_created_is_not_a_response() {
    let v = doc(r#"{"model":"m","object":"o","created":-1,"choices":[]}"#);
    assert!(matches!(classify_document(&v), Document::Unrecognized));
}

#[test]
fn document_outcome_streaming_takes_every_choice() {
    let v = doc(
        r#"{"model":"m","object":"o","created":0,"choices":[{"text":""},{"delta":{}},{"delta":{"content":"b"}},{"message":{"role":"r","content":"c"}}]}"#,
    );
    let out = document_outcome(&v, "raw", true).unwrap();
    assert_eq!(out, vec!["".to_string(), "b".to_string(), "c".to_string()]);
}

#[test]
fn document_outcome_keeps_raw_text_when_unrecognized() {
    let v = doc("[1,2]");
    match document_outcome(&v, "[1,2]", false) {
        Err(CompletionError::MalformedResponse { raw_body, .. }) => assert_eq!(raw_body, "[1,2]"),
        other => panic!("unexpected outcome: {:?}", other),
    }
}

#[test]
fn status_outside_success_range_is_transport_error() {
    assert!(check_status(200, String::new()).is_ok());
    assert!(check_status(299, String::new()).is_ok());
    match check_status(500, "oops".to_string()) {
        Err(CompletionError::Transport { status, body }) => {
            assert_eq!(status, 500);
            assert_eq!(body, "oops");
        }
        other => panic!("unexpected outcome: {:?}", other),
    }
    assert!(check_status(199, String::new()).is_err());
    assert!(check_status(300, String::new()).is_err());
}

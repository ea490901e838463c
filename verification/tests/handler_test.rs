use thunder::connection_manager::AcquireError;
use thunder::handler::{
    acquire_failure_message, context_id_or_default, function_name_or_unknown, lease_timeout_ms, parse_lease_id,
    released_count, request_uri, take_response_body, DispatchError, JsResponse, LeaseIdError, ResponseBody,
};

fn js(kind: &str, b64: &str, stream: Option<&str>) -> JsResponse {
    JsResponse {
        status: 200,
        headers: vec![],
        body_kind: kind.to_string(),
        body_base64: b64.to_string(),
        stream_id: stream.map(|s| s.to_string()),
    }
}

#[test]
fn request_uri_uses_host_and_path() {
    assert_eq!(request_uri(Some("localhost:9000"), Some("/test?x=1")), "http://localhost:9000/test?x=1");
    assert_eq!(request_uri(None, None), "http://localhost/");
    assert_eq!(context_id_or_default(None), "default");
    assert_eq!(context_id_or_default(Some("ctx-a")), "ctx-a");
    assert_eq!(function_name_or_unknown(None), "<unknown>");
}

#[test]
fn response_bodies() {
    let (r, keep) = take_response_body(&js("stream", "", Some("s1")), "s1");
    assert_eq!(r, Ok(ResponseBody::Stream));
    assert!(keep);
    let (r, keep) = take_response_body(&js("stream", "", Some("s2")), "s1");
    assert_eq!(r, Err(DispatchError::StreamIdMismatch { expected: "s1".to_string(), got: "s2".to_string() }));
    assert!(!keep);
    let (r, _) = take_response_body(&js("stream", "", None), "s1");
    assert_eq!(r, Err(DispatchError::MissingStreamId));
    let (r, keep) = take_response_body(&js("inline", "eyJvayI6dHJ1ZX0=", None), "s1");
    assert_eq!(r, Ok(ResponseBody::Full(b"{\"ok\":true}".to_vec())));
    assert!(!keep);
    let (r, _) = take_response_body(&js("inline", "", None), "s1");
    assert_eq!(r, Ok(ResponseBody::Full(vec![])));
    let (r, _) = take_response_body(&js("inline", "!!!", None), "s1");
    assert_eq!(r, Err(DispatchError::InvalidBase64Body));
    let (r, _) = take_response_body(&js("weird", "", None), "s1");
    assert_eq!(r, Err(DispatchError::UnknownBodyKind("weird".to_string())));
}

#[test]
fn lease_operation_helpers() {
    assert_eq!(lease_timeout_ms(0), None);
    assert_eq!(lease_timeout_ms(250), Some(250));
    assert_eq!(
        acquire_failure_message(&AcquireError::Backpressure),
        "[thunder] outbound lease acquisition failed: backpressure"
    );
    assert_eq!(
        acquire_failure_message(&AcquireError::Internal("boom".to_string())),
        "[thunder] outbound lease acquisition failed: internal error: boom"
    );
    assert_eq!(released_count(3), 3);
}

#[test]
fn lease_ids_parse_like_from_str() {
    for s in ["0", "42", "+7", "18446744073709551615", "", "+", "-1", "12a", "18446744073709551616", " 1"] {
        let expected = s.parse::<u64>().map_err(|e| e.to_string());
        let got = parse_lease_id(s).map_err(|e| match e {
            LeaseIdError::Empty => "cannot parse integer from empty string".to_string(),
            LeaseIdError::InvalidDigit => "invalid digit found in string".to_string(),
            LeaseIdError::PosOverflow => "number too large to fit in target type".to_string(),
        });
        assert_eq!(got, expected, "input {s:?}");
    }
}

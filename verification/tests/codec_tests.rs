use cdp_core::codec::{
    get_num_field, get_str_field, parse_event, parse_message, parse_method_call, parse_response,
    serialize_event, serialize_method_call, serialize_response,
};
use cdp_core::types::{CallId, CdpEvent, Error, Message, MethodCall, Response};

#[test]
fn method_call_wire_form_is_exact() {
    let mc = MethodCall {
        id: CallId::new(42),
        method: "Page.navigate".to_string(),
        params: "{\"url\":\"http://x\"}".to_string(),
    };
    let wire = serialize_method_call(&mc, None);
    assert_eq!(
        wire,
        "{\"id\":42,\"method\":\"Page.navigate\",\"params\":{\"url\":\"http://x\"}}"
    );
}

#[test]
fn method_call_round_trips() {
    let mc = MethodCall {
        id: CallId::new(7),
        method: "Runtime.enable".to_string(),
        params: "{}".to_string(),
    };
    let wire = serialize_method_call(&mc, None);
    let (back, sess) = parse_method_call(wire.as_str()).expect("parses");
    assert_eq!(back.id, CallId::new(7));
    assert_eq!(back.method, "Runtime.enable");
    assert_eq!(back.params, "{}");
    assert!(sess.is_none());
}

#[test]
fn method_call_round_trips_with_session() {
    let mc = MethodCall {
        id: CallId::new(123456),
        method: "Network.enable".to_string(),
        params: "{\"maxTotalBufferSize\":10}".to_string(),
    };
    let wire = serialize_method_call(&mc, Some("SESSION-9"));
    let (back, sess) = parse_method_call(wire.as_str()).expect("parses");
    assert_eq!(back.id, CallId::new(123456));
    assert_eq!(back.method, "Network.enable");
    assert_eq!(back.params, "{\"maxTotalBufferSize\":10}");
    assert_eq!(sess.as_deref(), Some("SESSION-9"));
}

#[test]
fn response_ok_round_trips() {
    let resp = Response {
        id: CallId::new(3),
        result: Some("{\"frameId\":\"F0\"}".to_string()),
        error: None,
    };
    let wire = serialize_response(&resp);
    assert_eq!(wire, "{\"id\":3,\"result\":{\"frameId\":\"F0\"}}");
    let back = parse_response(wire.as_str()).expect("parses");
    assert_eq!(back.id, CallId::new(3));
    assert_eq!(back.result.as_deref(), Some("{\"frameId\":\"F0\"}"));
    assert!(back.error.is_none());
}

#[test]
fn response_err_round_trips() {
    let resp = Response {
        id: CallId::new(9),
        result: None,
        error: Some(Error { code: 32000, message: "No such frame".to_string() }),
    };
    let wire = serialize_response(&resp);
    assert_eq!(
        wire,
        "{\"id\":9,\"error\":{\"code\":32000,\"message\":\"No such frame\"}}"
    );
    let back = parse_response(wire.as_str()).expect("parses");
    assert_eq!(back.id, CallId::new(9));
    assert!(back.result.is_none());
    let err = back.error.expect("error present");
    assert_eq!(err.code, 32000);
    assert_eq!(err.message, "No such frame");
}

#[test]
fn event_round_trips() {
    let ev = CdpEvent {
        method: "Page.lifecycleEvent".to_string(),
        session_id: Some("S1".to_string()),
        params: "{\"frameId\":\"F0\",\"name\":\"load\"}".to_string(),
    };
    let wire = serialize_event(&ev);
    let back = parse_event(wire.as_str()).expect("parses");
    assert_eq!(back.method, "Page.lifecycleEvent");
    assert_eq!(back.session_id.as_deref(), Some("S1"));
    assert_eq!(back.params, "{\"frameId\":\"F0\",\"name\":\"load\"}");
}

#[test]
fn message_disambiguates_by_id() {
    let with_id = "{\"id\":5,\"result\":{}}";
    match parse_message(with_id).expect("parses") {
        Message::Response(r) => assert_eq!(r.id, CallId::new(5)),
        Message::Event(_) => panic!("a frame with an id is a response"),
    }
    let without_id = "{\"method\":\"Page.frameStartedLoading\",\"params\":{\"frameId\":\"F0\"}}";
    match parse_message(without_id).expect("parses") {
        Message::Event(ev) => assert_eq!(ev.method, "Page.frameStartedLoading"),
        Message::Response(_) => panic!("a frame without an id is an event"),
    }
}

#[test]
fn malformed_frames_are_dropped() {
    assert!(parse_message("not json at all").is_none());
    assert!(parse_message("{\"id\":oops}").is_none());
    assert!(parse_response("{\"id\":1}").is_none());
}

#[test]
fn field_extraction_is_exact() {
    let params = "{\"frame\":{\"id\":\"F0\",\"url\":\"http://x\",\"loaderId\":\"L2\"}}";
    assert_eq!(get_str_field(params, "id").as_deref(), Some("F0"));
    assert_eq!(get_str_field(params, "url").as_deref(), Some("http://x"));
    assert_eq!(get_str_field(params, "loaderId").as_deref(), Some("L2"));
    assert!(get_str_field(params, "name").is_none());
    let with_num = "{\"requestId\":\"R1\",\"response\":{\"status\":200}}";
    assert_eq!(get_num_field(with_num, "status"), Some(200));
    assert_eq!(get_str_field(with_num, "requestId").as_deref(), Some("R1"));
    assert!(get_num_field(with_num, "requestId").is_none());
}

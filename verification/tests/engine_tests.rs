use wiremock_grpc::CallRecord;
use wiremock_grpc::MockGrpcServer;
use wiremock_grpc::NotRecordedError;
use wiremock_grpc::RequestBuilder;
use wiremock_grpc::ValidationError;
use wiremock_grpc::GRPC_CODE_OK;
use wiremock_grpc::GRPC_CODE_UNIMPLEMENTED;

const SAY_HELLO: &str = "/hello.Greeter/SayHello";

/// Encode a one-string-field protobuf message (field 1, length-delimited),
/// the wire shape of the greeter's `HelloReply`. Holds for payloads under
/// 128 bytes, where the length varint is a single byte.
fn hello_reply_bytes(message: &str) -> Vec<u8> {
    assert!(message.len() < 128);
    let mut out = vec![0x0a, message.len() as u8];
    out.extend_from_slice(message.as_bytes());
    out
}

/// Decode the payload produced by `hello_reply_bytes` back to its string.
fn hello_reply_message(bytes: &[u8]) -> String {
    assert_eq!(0x0a, bytes[0], "expected a length-delimited first field");
    let len = bytes[1] as usize;
    assert_eq!(2 + len, bytes.len());
    String::from_utf8(bytes[2..].to_vec()).unwrap()
}

fn uri_for(server: &MockGrpcServer, path: &str) -> String {
    format!("http://[::1]:{}{}", server.port(), path)
}

#[test]
fn default() {
    let mut server = MockGrpcServer::new(5055);

    let request1 = server
        .setup(
            RequestBuilder::when()
                .path(SAY_HELLO)
                .return_status(GRPC_CODE_OK)
                .return_body(hello_reply_bytes("Hello Mustakim")),
        )
        .unwrap();

    let response = server.handle(&SAY_HELLO.to_string(), &uri_for(&server, SAY_HELLO));

    assert_eq!(GRPC_CODE_OK, response.code);
    assert_eq!("Hello Mustakim", hello_reply_message(&response.body));

    // multiple requests
    let requests = server.find(request1);
    assert!(requests.is_some(), "Request must be logged");
    assert_eq!(1, requests.unwrap().len(), "Only 1 request must be logged");

    // single request
    let request = server.find_one(request1).unwrap();
    assert_eq!(
        format!("http://[::1]:{}/hello.Greeter/SayHello", server.port()),
        request.endpoint_uri
    );
    assert!(request.endpoint_uri.ends_with(SAY_HELLO));
}

#[test]
fn handled_when_mock_set_with_different_status_code() {
    let mut server = MockGrpcServer::new(5056);

    server
        .setup(
            RequestBuilder::given(SAY_HELLO)
                .return_status(6)
                .return_body(hello_reply_bytes("yo")),
        )
        .unwrap();

    let response = server.handle(&SAY_HELLO.to_string(), &uri_for(&server, SAY_HELLO));

    // The client sees the forced AlreadyExists code as a failed call.
    assert_ne!(GRPC_CODE_OK, response.code);
    assert_eq!(6, response.code);
}

#[test]
#[should_panic]
fn panic_when_mock_not_set() {
    let mut server = MockGrpcServer::new(5057);

    // no mock is set up

    let response = server.handle(&SAY_HELLO.to_string(), &uri_for(&server, SAY_HELLO));

    // A client maps a non-success status to an error and unwraps it.
    let client_view: Result<Vec<u8>, u32> = if response.code == GRPC_CODE_OK {
        Ok(response.body)
    } else {
        Err(response.code)
    };
    let _ = client_view.expect("Must panic");
}

#[test]
fn engine_keeps_specified_port() {
    let server = MockGrpcServer::new(5055);
    assert_eq!(5055, server.port());
}

#[test]
fn earliest_rule_with_selector_wins() {
    let mut server = MockGrpcServer::new(5060);

    let other = server
        .setup(RequestBuilder::given("/other.Svc/Call").return_status(3))
        .unwrap();
    let first = server
        .setup(RequestBuilder::given(SAY_HELLO).return_status(5))
        .unwrap();
    let second = server
        .setup(RequestBuilder::given(SAY_HELLO).return_status(7))
        .unwrap();

    let response = server.handle(&SAY_HELLO.to_string(), &uri_for(&server, SAY_HELLO));

    // The earliest-registered rule for the selector answers; re-registering
    // the selector later does not override it.
    assert_eq!(5, response.code);
    assert_eq!(1, server.find(first).unwrap().len());
    assert!(server.find(second).is_none());
    assert!(server.find(other).is_none());
}

#[test]
fn unmatched_call_gets_fixed_fallback() {
    let mut server = MockGrpcServer::new(5061);

    server
        .setup(RequestBuilder::given("/other.Svc/Call").return_status(0))
        .unwrap();

    for _ in 0..2 {
        let response = server.handle(&SAY_HELLO.to_string(), &uri_for(&server, SAY_HELLO));
        assert_eq!(GRPC_CODE_UNIMPLEMENTED, response.code);
        assert_eq!(12, response.code);
        assert!(response.body.is_empty());
    }
}

#[test]
fn empty_rule_fails_validation() {
    let mut server = MockGrpcServer::new(5062);

    let valid = server
        .setup(RequestBuilder::given(SAY_HELLO).return_status(0))
        .unwrap();

    let rejected = server.setup(RequestBuilder::given("/other.Svc/Call"));
    assert_eq!(Err(ValidationError), rejected);

    // The rejected rule was not added: its selector still gets the fallback,
    // and traffic for the valid rule is unaffected.
    let fallback = server.handle(&"/other.Svc/Call".to_string(), &uri_for(&server, "/other.Svc/Call"));
    assert_eq!(GRPC_CODE_UNIMPLEMENTED, fallback.code);

    let matched = server.handle(&SAY_HELLO.to_string(), &uri_for(&server, SAY_HELLO));
    assert_eq!(GRPC_CODE_OK, matched.code);
    assert_eq!(1, server.find(valid).unwrap().len());
}

#[test]
fn find_returns_all_matching_calls_in_order() {
    let mut server = MockGrpcServer::new(5063);

    let rule = server
        .setup(RequestBuilder::given(SAY_HELLO).return_status(0))
        .unwrap();

    assert!(server.find(rule).is_none());
    assert!(matches!(server.find_one(rule), Err(NotRecordedError)));

    for i in 0..3 {
        let uri = format!("http://[::1]:{}{}?call={}", server.port(), SAY_HELLO, i);
        server.handle(&SAY_HELLO.to_string(), &uri);
    }

    let records: Vec<CallRecord> = server.find(rule).unwrap();
    assert_eq!(3, records.len());
    for (i, record) in records.iter().enumerate() {
        assert_eq!(i as u64, record.sequence);
        assert_eq!(Some(rule), record.matched_rule_id);
        assert_eq!(SAY_HELLO, record.operation);
        assert!(record.endpoint_uri.ends_with(&format!("?call={}", i)));
    }
    assert!(records[0].sequence < records[1].sequence);
    assert!(records[1].sequence < records[2].sequence);

    // find_one is strictly for the single-call-expected case.
    assert!(matches!(server.find_one(rule), Err(NotRecordedError)));
}

#[test]
fn find_one_returns_the_single_call() {
    let mut server = MockGrpcServer::new(5064);

    let rule = server
        .setup(RequestBuilder::given(SAY_HELLO).return_status(0))
        .unwrap();
    server.handle(&SAY_HELLO.to_string(), &uri_for(&server, SAY_HELLO));

    let record = server.find_one(rule).unwrap();
    assert_eq!(Some(rule), record.matched_rule_id);
    assert_eq!(0, record.sequence);
    assert_eq!(SAY_HELLO, record.operation);
}

#[test]
fn repeat_invocation_records_independent_calls() {
    let mut server = MockGrpcServer::new(5065);

    let rule = server
        .setup(
            RequestBuilder::given(SAY_HELLO)
                .return_status(GRPC_CODE_OK)
                .return_body(hello_reply_bytes("Hello Mustakim")),
        )
        .unwrap();

    let first = server.handle(&SAY_HELLO.to_string(), &uri_for(&server, SAY_HELLO));
    let second = server.handle(&SAY_HELLO.to_string(), &uri_for(&server, SAY_HELLO));

    assert_eq!(first.code, second.code);
    assert_eq!(first.body, second.body);

    let records = server.find(rule).unwrap();
    assert_eq!(2, records.len());
    assert_eq!(records[0].matched_rule_id, records[1].matched_rule_id);
    assert!(records[0].sequence < records[1].sequence);
}

#[test]
fn body_only_rule_defaults_to_success_status() {
    let mut server = MockGrpcServer::new(5066);

    server
        .setup(RequestBuilder::given(SAY_HELLO).return_body(hello_reply_bytes("yo")))
        .unwrap();

    let response = server.handle(&SAY_HELLO.to_string(), &uri_for(&server, SAY_HELLO));
    assert_eq!(GRPC_CODE_OK, response.code);
    assert_eq!("yo", hello_reply_message(&response.body));
}

#[test]
fn status_only_rule_returns_empty_payload() {
    let mut server = MockGrpcServer::new(5067);

    server
        .setup(RequestBuilder::given(SAY_HELLO).return_status(5))
        .unwrap();

    let response = server.handle(&SAY_HELLO.to_string(), &uri_for(&server, SAY_HELLO));
    assert_eq!(5, response.code);
    assert!(response.body.is_empty());
}

#[test]
fn unmatched_calls_are_recorded_for_no_rule() {
    let mut server = MockGrpcServer::new(5068);

    let rule = server
        .setup(RequestBuilder::given("/other.Svc/Call").return_status(0))
        .unwrap();
    server.handle(&SAY_HELLO.to_string(), &uri_for(&server, SAY_HELLO));

    // The unmatched call is attributed to no rule.
    assert!(server.find(rule).is_none());
}

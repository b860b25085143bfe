use fetch_bridge::{
    BodyStream, Error, ExchangeOutcome, Header, HttpMethod, HttpVersion, OutgoingRequest,
    complete_call, drain, keep_valid, name_is_te, prepare_call, strip_te,
};

fn header(name: &[u8], value: &[u8]) -> Header {
    Header { name: name.to_vec(), value: value.to_vec() }
}

#[test]
fn te_names_match_case_insensitively() {
    assert!(name_is_te(&b"te".to_vec()));
    assert!(name_is_te(&b"TE".to_vec()));
    assert!(name_is_te(&b"Te".to_vec()));
    assert!(!name_is_te(&b"t".to_vec()));
    assert!(!name_is_te(&b"tee".to_vec()));
}

#[test]
fn stripping_removes_every_te_header() {
    let headers = vec![
        header(b"te", b"trailers"),
        header(b"content-type", b"application/grpc"),
        header(b"TE", b"gzip"),
    ];
    let out = strip_te(headers).unwrap();
    assert_eq!(out.len(), 1);
    assert_eq!(out[0].name, b"content-type".to_vec());
    assert!(out.iter().all(|h| !name_is_te(&h.name)));
}

#[test]
fn stripping_without_te_is_a_precondition_violation() {
    let headers = vec![header(b"content-type", b"application/grpc")];
    assert_eq!(strip_te(headers).err(), Some(Error::MissingTeHeader));
}

#[test]
fn prepared_request_never_carries_te() {
    let request = OutgoingRequest {
        path: b"/x".to_vec(),
        headers: vec![header(b"te", b"anything-at-all"), header(b"a", b"1")],
        body: BodyStream::empty(),
    };
    let host = prepare_call(&b"http://h".to_vec(), request, None).unwrap();
    assert!(host.headers.iter().all(|h| !name_is_te(&h.name)));
}

#[test]
fn missing_te_aborts_before_any_exchange() {
    let request = OutgoingRequest {
        path: b"/x".to_vec(),
        headers: vec![header(b"content-type", b"application/grpc")],
        body: BodyStream::new(vec![b"payload".to_vec()]),
    };
    let r = prepare_call(&b"http://h".to_vec(), request, None);
    assert_eq!(r.err(), Some(Error::MissingTeHeader));
}

#[test]
fn body_failure_aborts_the_call() {
    let request = OutgoingRequest {
        path: b"/x".to_vec(),
        headers: vec![header(b"te", b"trailers")],
        body: BodyStream::with_failure(vec![b"partial".to_vec()], Error::HostStream),
    };
    let r = prepare_call(&b"http://h".to_vec(), request, None);
    assert_eq!(r.err(), Some(Error::HostStream));
}

#[test]
fn one_invalid_response_header_is_dropped_and_nine_survive() {
    let mut headers = Vec::new();
    for i in 0..5u8 {
        headers.push(header(format!("ok-{}", i).as_bytes(), b"fine"));
    }
    headers.push(header(b"broken", b"has a \x00 byte"));
    for i in 5..9u8 {
        headers.push(header(format!("ok-{}", i).as_bytes(), b"fine"));
    }
    let outcome = ExchangeOutcome::Response {
        status: 200,
        headers,
        body: BodyStream::empty(),
    };
    let resp = complete_call(outcome).unwrap();
    assert_eq!(resp.headers.len(), 9);
    assert!(resp.headers.iter().all(|h| h.name != b"broken".to_vec()));
}

#[test]
fn response_header_filter_agrees_with_host_header_type() {
    // Each single-byte value is kept exactly when the host header type
    // accepts it.
    for b in 0..=255u8 {
        let kept = keep_valid(vec![header(b"n", &[b])]);
        let host_ok = http::HeaderValue::from_bytes(&[b]).is_ok();
        assert_eq!(kept.len() == 1, host_ok, "byte {}", b);
    }
}

#[test]
fn successful_responses_report_http2() {
    for status in [200u16, 404, 500] {
        let outcome = ExchangeOutcome::Response {
            status,
            headers: vec![],
            body: BodyStream::empty(),
        };
        let resp = complete_call(outcome).unwrap();
        assert_eq!(resp.status, status);
        assert!(matches!(resp.version, HttpVersion::H2));
    }
}

#[test]
fn response_body_failure_is_a_transport_failure() {
    let outcome = ExchangeOutcome::Response {
        status: 200,
        headers: vec![],
        body: BodyStream::with_failure(vec![], Error::HostStream),
    };
    assert_eq!(complete_call(outcome).err(), Some(Error::Transport));
}

#[test]
fn scenario_unary_post_to_composed_url() {
    let request = OutgoingRequest {
        path: b"/pkg.Service/Method".to_vec(),
        headers: vec![
            header(b"te", b"trailers"),
            header(b"content-type", b"application/grpc"),
        ],
        body: BodyStream::new(vec![b"\x00\x00\x00\x00\x05".to_vec(), b"hello".to_vec()]),
    };
    let host = prepare_call(&b"https://svc.example/".to_vec(), request, None).unwrap();
    assert!(matches!(host.method, HttpMethod::Post));
    assert_eq!(host.url, b"https://svc.example//pkg.Service/Method".to_vec());
    assert_eq!(host.body, b"\x00\x00\x00\x00\x05hello".to_vec());
    assert!(host.headers.iter().all(|h| !name_is_te(&h.name)));
    assert!(host
        .headers
        .iter()
        .any(|h| h.name == b"content-type".to_vec() && h.value == b"application/grpc".to_vec()));
}

#[test]
fn scenario_response_wraps_host_bytes() {
    let outcome = ExchangeOutcome::Response {
        status: 200,
        headers: vec![header(b"grpc-status", b"0")],
        body: BodyStream::new(vec![b"resp1".to_vec(), b"resp2".to_vec()]),
    };
    let resp = complete_call(outcome).unwrap();
    assert_eq!(resp.status, 200);
    assert!(matches!(resp.version, HttpVersion::H2));
    assert!(resp
        .headers
        .iter()
        .any(|h| h.name == b"grpc-status".to_vec() && h.value == b"0".to_vec()));
    let mut body = resp.body;
    assert!(!body.terminated());
    let buf = drain(&mut body).unwrap();
    assert_eq!(buf, b"resp1resp2".to_vec());
}

#[test]
fn scenario_refused_connection_is_a_transport_failure() {
    let r = complete_call(ExchangeOutcome::TransportFailure);
    assert_eq!(r.err(), Some(Error::Transport));
}

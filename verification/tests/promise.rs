use mwebsocket::headers::Headers;
use mwebsocket::promise::{fetch_outcome, http_get, Polled, Promise, RawResponse};

fn raw(status: i32, headers: &[(&str, &str)], body: &[u8]) -> RawResponse {
    RawResponse {
        status,
        headers: headers.iter().map(|(k, v)| (k.to_string(), v.to_string())).collect(),
        body: body.to_vec(),
    }
}

#[test]
fn http_get_begins_with_a_pending_promise() {
    let (mut promise, request) = http_get("http://example.com/".to_string(), None);
    assert!(promise.is_pending());
    assert!(matches!(promise.poll(), Polled::Empty));
    assert!(matches!(promise.poll(), Polled::Empty));
    assert!(promise.is_pending());
    assert_eq!(promise.failure(), None);
    assert_eq!(request.url, "http://example.com/");
    assert_eq!(request.headers.len(), 0);
}

#[test]
fn http_get_gives_each_header_name_its_last_value() {
    let headers = vec![
        ["Accept".to_string(), "text/plain".to_string()],
        ["X-A".to_string(), "1".to_string()],
        ["Accept".to_string(), "*/*".to_string()],
    ];
    let (promise, request) = http_get("http://example.com/x".to_string(), Some(headers));
    assert!(promise.is_pending());
    assert_eq!(request.url, "http://example.com/x");
    assert_eq!(request.headers.len(), 2);
    assert_eq!(request.headers.get("Accept"), Some("*/*".to_string()));
    assert_eq!(request.headers.get("X-A"), Some("1".to_string()));
    assert_eq!(
        request.headers.to_vec(),
        vec![("Accept".to_string(), "*/*".to_string()), ("X-A".to_string(), "1".to_string())]
    );
    let (_, bare) = http_get("http://example.com/x".to_string(), Some(vec![]));
    assert_eq!(bare.headers.len(), 0);
}

#[test]
fn a_response_is_handed_out_once() {
    let mut promise = Promise::new();
    assert!(promise.settle(Ok(raw(200, &[("content-type", "text/plain")], b"hello"))));
    assert!(!promise.is_pending());
    let response = match promise.poll() {
        Polled::Response(response) => response,
        other => panic!("polled {:?}", other),
    };
    assert_eq!(response.status, 200);
    assert_eq!(response.body, "hello");
    assert_eq!(response.headers.get("content-type"), Some("text/plain".to_string()));
    assert_eq!(response.headers.len(), 1);
    assert!(matches!(promise.poll(), Polled::Empty));
    assert!(matches!(promise.poll(), Polled::Empty));
    assert!(!promise.is_pending());
    assert_eq!(promise.failure(), None);
}

#[test]
fn a_failed_request_is_told_from_a_pending_one() {
    let mut pending = Promise::new();
    assert!(matches!(pending.poll(), Polled::Empty));
    let mut promise = Promise::new();
    assert!(promise.settle(Err("connection refused".to_string())));
    assert!(!promise.is_pending());
    match promise.poll() {
        Polled::Failed(cause) => assert_eq!(cause, "connection refused"),
        other => panic!("polled {:?}", other),
    }
    assert_eq!(promise.failure(), Some("connection refused".to_string()));
    assert!(!promise.is_pending());
}

#[test]
fn a_failure_is_shown_at_every_poll() {
    let mut promise = Promise::new();
    assert!(promise.settle(Err("timed out".to_string())));
    for _ in 0..3 {
        match promise.poll() {
            Polled::Failed(cause) => assert_eq!(cause, "timed out"),
            other => panic!("polled {:?}", other),
        }
    }
}

#[test]
fn the_cell_is_written_once() {
    let mut promise = Promise::new();
    assert!(promise.settle(Ok(raw(404, &[], b"nope"))));
    assert!(!promise.settle(Ok(raw(200, &[], b"late"))));
    assert!(!promise.settle(Err("late".to_string())));
    match promise.poll() {
        Polled::Response(response) => {
            assert_eq!((response.status, response.body.as_str()), (404, "nope"))
        }
        other => panic!("polled {:?}", other),
    }
    assert!(!promise.settle(Ok(raw(200, &[], b"late"))));
    assert!(matches!(promise.poll(), Polled::Empty));
    assert_eq!(promise.failure(), None);

    let mut failed = Promise::new();
    assert!(failed.settle(Err("first".to_string())));
    assert!(!failed.settle(Ok(raw(200, &[], b"late"))));
    assert_eq!(failed.failure(), Some("first".to_string()));
    assert!(matches!(failed.poll(), Polled::Failed(_)));
}

#[test]
fn a_body_that_is_no_text_is_a_failure() {
    let mut promise = Promise::new();
    assert!(promise.settle(Ok(raw(200, &[], &[0x66, 0xff, 0x6f]))));
    assert_eq!(promise.failure(), Some("response body is not valid UTF-8".to_string()));
    match promise.poll() {
        Polled::Failed(cause) => assert_eq!(cause, "response body is not valid UTF-8"),
        other => panic!("polled {:?}", other),
    }
}

#[test]
fn fetch_outcome_decodes_the_body() {
    let response = fetch_outcome(Ok(raw(201, &[("a", "1")], "héllo €".as_bytes()))).unwrap();
    assert_eq!(response.status, 201);
    assert_eq!(response.body, "héllo €");
    let empty = fetch_outcome(Ok(raw(204, &[], b""))).unwrap();
    assert_eq!(empty.body, "");
    assert_eq!(empty.headers.len(), 0);
    assert_eq!(
        fetch_outcome(Ok(raw(200, &[], &[0xc3]))).unwrap_err(),
        "response body is not valid UTF-8"
    );
    assert_eq!(fetch_outcome(Err("timed out".to_string())).unwrap_err(), "timed out");
}

#[test]
fn of_two_headers_with_one_name_the_later_decides() {
    let response =
        fetch_outcome(Ok(raw(200, &[("a", "1"), ("b", "2"), ("a", "3")], b""))).unwrap();
    assert_eq!(response.headers.len(), 2);
    assert_eq!(response.headers.get("a"), Some("3".to_string()));
    assert_eq!(response.headers.get("b"), Some("2".to_string()));
    assert_eq!(response.headers.get("c"), None);
}

#[test]
fn headers_map_each_name_to_one_value() {
    let mut headers = Headers::new();
    assert_eq!(headers.len(), 0);
    assert_eq!(headers.get("a"), None);
    headers.insert("a".to_string(), "1".to_string());
    headers.insert("b".to_string(), "2".to_string());
    assert_eq!(headers.len(), 2);
    headers.insert("a".to_string(), "3".to_string());
    assert_eq!(headers.len(), 2);
    assert_eq!(headers.get("a"), Some("3".to_string()));
    assert_eq!(headers.get("b"), Some("2".to_string()));
    assert_eq!(headers.get("A"), None);
    assert_eq!(
        headers.to_vec(),
        vec![("a".to_string(), "3".to_string()), ("b".to_string(), "2".to_string())]
    );
}

#[test]
fn headers_from_pairs_collects_in_order() {
    let headers = Headers::from_pairs(vec![
        ("x".to_string(), "1".to_string()),
        ("y".to_string(), "2".to_string()),
        ("x".to_string(), "".to_string()),
    ]);
    assert_eq!(headers.len(), 2);
    assert_eq!(headers.get("x"), Some("".to_string()));
    assert_eq!(headers.get("y"), Some("2".to_string()));
    assert_eq!(Headers::from_pairs(vec![]).len(), 0);
}

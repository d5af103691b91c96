use mwebsocket::client::{Client, Directive, Target};
use mwebsocket::connection::{ConnState, ReadOutcome};
use mwebsocket::handshake::ConnectErrorKind;

fn drain(client: &mut Client) -> Vec<String> {
    let mut items = Vec::new();
    while let Some(item) = client.poll() {
        items.push(item);
    }
    items
}

fn open_client() -> (Client, u64) {
    let mut client = Client::new();
    let command = client.connect("ws://127.0.0.1:8080/live".to_string(), None).unwrap();
    assert_eq!(client.handshake_done(command.epoch, Ok(())), Directive::Continue);
    (client, command.epoch)
}

#[test]
fn simple_test() {
    let mut client = Client::new();
    let command = client.connect("ws://127.0.0.1:8080/live".to_string(), None).unwrap();
    match command.target {
        Target::Url(url) => assert_eq!(url, "ws://127.0.0.1:8080/live"),
        other => panic!("opened with {:?}", other),
    }
    loop {
        let msg = client.poll();
        if msg.is_none() {
            break;
        }
    }
}

#[test]
fn a_new_client_has_no_connection_and_nothing_to_poll() {
    let mut client = Client::new();
    assert_eq!(client.state(), ConnState::Disconnected);
    assert_eq!(client.epoch(), 0);
    assert_eq!(client.poll(), None);
    assert_eq!(client.poll(), None);
    assert_eq!(client.state(), ConnState::Disconnected);
}

#[test]
fn echo_scenario() {
    let mut client = Client::new();
    let command = client.connect("ws://127.0.0.1:9001/echo".to_string(), None).unwrap();
    assert_eq!(client.state(), ConnState::Connecting);
    assert_eq!(client.poll(), None);
    assert_eq!(client.handshake_done(command.epoch, Ok(())), Directive::Continue);
    assert_eq!(client.state(), ConnState::Open);
    assert_eq!(client.send("ping".to_string()), Some("ping".to_string()));
    client.write_done(Ok(()));
    assert_eq!(
        client.read_done(command.epoch, ReadOutcome::Text("ping".to_string())),
        Directive::Continue
    );
    assert_eq!(client.poll(), Some("@open".to_string()));
    assert_eq!(client.poll(), Some("ping".to_string()));
    assert_eq!(client.poll(), None);
    assert!(client.close());
    assert_eq!(client.state(), ConnState::Closing);
    client.write_done(Ok(()));
    assert_eq!(client.read_done(command.epoch, ReadOutcome::ConnectionClosed), Directive::Stop);
    assert_eq!(client.state(), ConnState::Closed);
    assert_eq!(drain(&mut client), vec!["@close".to_string()]);
}

#[test]
fn unreachable_host_scenario() {
    let mut client = Client::new();
    let command = client.connect("ws://no-such-host.invalid/".to_string(), None).unwrap();
    let cause = "IO error: failed to lookup address information".to_string();
    assert_eq!(client.handshake_done(command.epoch, Err(cause)), Directive::Stop);
    assert_eq!(client.state(), ConnState::Closed);
    assert_eq!(
        drain(&mut client),
        vec![
            "@error: IO error: failed to lookup address information".to_string(),
            "@close".to_string(),
        ]
    );
}

#[test]
fn malformed_arguments_are_refused_at_once() {
    let mut client = Client::new();
    assert_eq!(
        client.connect("".to_string(), None).unwrap_err().kind,
        ConnectErrorKind::InvalidUri
    );
    assert_eq!(
        client.connect("/live".to_string(), None).unwrap_err().kind,
        ConnectErrorKind::EmptyHostName
    );
    assert_eq!(
        client
            .connect("ws://h/".to_string(), Some(vec![["bad name".to_string(), "v".to_string()]]))
            .unwrap_err()
            .kind,
        ConnectErrorKind::InvalidHeaderName
    );
    let fault = client
        .connect("ws://h/".to_string(), Some(vec![["x".to_string(), "a\nb".to_string()]]))
        .unwrap_err();
    assert_eq!(fault.kind, ConnectErrorKind::InvalidHeaderValue);
    assert_eq!(fault.message(), "HTTP format error: failed to parse header value");
    assert_eq!(client.state(), ConnState::Disconnected);
    assert_eq!(client.epoch(), 0);
    assert_eq!(client.poll(), None);
}

#[test]
fn a_refused_connect_leaves_the_current_connection_alone() {
    let (mut client, epoch) = open_client();
    assert!(client.connect("".to_string(), None).is_err());
    assert_eq!(client.state(), ConnState::Open);
    assert_eq!(client.epoch(), epoch);
    assert_eq!(drain(&mut client), vec!["@open".to_string()]);
}

#[test]
fn connect_with_headers_gives_an_upgrade_request() {
    let mut client = Client::new();
    let headers = vec![["Authorization".to_string(), "Bearer abc".to_string()]];
    let command = client.connect("ws://example.com/live".to_string(), Some(headers.clone())).unwrap();
    assert_eq!(command.epoch, 1);
    assert_eq!(client.epoch(), 1);
    match command.target {
        Target::Request(request) => {
            assert_eq!(request.uri, "ws://example.com/live");
            assert_eq!(request.host, "example.com");
            assert_eq!(request.key.chars().count(), 24);
            assert_eq!(request.extra, headers);
        }
        other => panic!("opened with {:?}", other),
    }
}

#[test]
fn send_is_a_no_op_unless_open() {
    let mut client = Client::new();
    assert_eq!(client.send("a".to_string()), None);
    let command = client.connect("ws://h/".to_string(), None).unwrap();
    assert_eq!(client.send("a".to_string()), None);
    client.handshake_done(command.epoch, Ok(()));
    assert_eq!(client.send("a".to_string()), Some("a".to_string()));
    assert!(client.close());
    assert_eq!(client.send("a".to_string()), None);
    client.read_done(command.epoch, ReadOutcome::ConnectionClosed);
    assert_eq!(client.send("a".to_string()), None);
    assert_eq!(drain(&mut client), vec!["@open".to_string(), "@close".to_string()]);
}

#[test]
fn sends_reach_the_wire_in_order() {
    let (mut client, epoch) = open_client();
    let texts = ["one", "two", "", "two", "@close", "three"];
    let mut wire = Vec::new();
    for text in texts {
        if let Some(frame) = client.send(text.to_string()) {
            wire.push(frame);
        }
    }
    assert_eq!(wire, texts);
    for frame in wire {
        assert_eq!(client.read_done(epoch, ReadOutcome::Text(frame)), Directive::Continue);
    }
    assert_eq!(client.poll(), Some("@open".to_string()));
    assert_eq!(drain(&mut client), texts);
    assert_eq!(client.state(), ConnState::Open);
}

#[test]
fn close_twice_is_close_once() {
    let (mut client, epoch) = open_client();
    assert!(client.close());
    assert!(!client.close());
    assert_eq!(client.state(), ConnState::Closing);
    assert_eq!(drain(&mut client), vec!["@open".to_string()]);
    assert_eq!(client.read_done(epoch, ReadOutcome::ConnectionClosed), Directive::Stop);
    assert!(!client.close());
    assert!(!client.close());
    assert_eq!(client.state(), ConnState::Closed);
    assert_eq!(drain(&mut client), vec!["@close".to_string()]);
}

#[test]
fn close_on_a_client_that_never_connected_does_nothing() {
    let mut client = Client::new();
    assert!(!client.close());
    assert_eq!(client.state(), ConnState::Disconnected);
    assert_eq!(client.poll(), None);
    let _ = client.connect("ws://h/".to_string(), None).unwrap();
    assert!(!client.close());
    assert_eq!(client.state(), ConnState::Connecting);
    assert_eq!(client.poll(), None);
}

#[test]
fn a_read_error_is_reported_and_the_session_goes_on() {
    let (mut client, epoch) = open_client();
    assert_eq!(
        client.read_done(epoch, ReadOutcome::Failed("IO error: reset".to_string())),
        Directive::Continue
    );
    assert_eq!(client.read_done(epoch, ReadOutcome::NonText), Directive::Continue);
    assert_eq!(client.read_done(epoch, ReadOutcome::Idle), Directive::Continue);
    assert_eq!(client.read_done(epoch, ReadOutcome::Text("still here".to_string())), Directive::Continue);
    assert_eq!(client.state(), ConnState::Open);
    assert_eq!(
        drain(&mut client),
        vec!["@open".to_string(), "@error: IO error: reset".to_string(), "still here".to_string()]
    );
}

#[test]
fn already_closed_is_reported_then_closed() {
    let (mut client, epoch) = open_client();
    assert_eq!(client.read_done(epoch, ReadOutcome::AlreadyClosed), Directive::Stop);
    assert_eq!(client.state(), ConnState::Closed);
    assert_eq!(
        drain(&mut client),
        vec![
            "@open".to_string(),
            "@error: Connection already closed".to_string(),
            "@close".to_string(),
        ]
    );
}

#[test]
fn nothing_follows_close() {
    let (mut client, epoch) = open_client();
    assert_eq!(client.read_done(epoch, ReadOutcome::ConnectionClosed), Directive::Stop);
    assert_eq!(drain(&mut client), vec!["@open".to_string(), "@close".to_string()]);
    assert_eq!(client.read_done(epoch, ReadOutcome::Text("late".to_string())), Directive::Stop);
    assert_eq!(client.read_done(epoch, ReadOutcome::ConnectionClosed), Directive::Stop);
    assert_eq!(client.handshake_done(epoch, Ok(())), Directive::Stop);
    client.write_done(Err("late".to_string()));
    assert_eq!(client.state(), ConnState::Closed);
    assert_eq!(client.poll(), None);
}

#[test]
fn a_write_failure_is_reported_as_an_error_item() {
    let (mut client, _) = open_client();
    assert_eq!(client.send("x".to_string()), Some("x".to_string()));
    client.write_done(Err("IO error: broken pipe".to_string()));
    assert_eq!(client.state(), ConnState::Open);
    assert_eq!(
        drain(&mut client),
        vec!["@open".to_string(), "@error: IO error: broken pipe".to_string()]
    );
}

#[test]
fn a_write_report_without_a_handle_is_dropped() {
    let mut client = Client::new();
    client.write_done(Err("x".to_string()));
    let _ = client.connect("ws://h/".to_string(), None).unwrap();
    client.write_done(Err("x".to_string()));
    assert_eq!(client.poll(), None);
}

#[test]
fn a_new_connect_replaces_the_connection() {
    let (mut client, first) = open_client();
    let second = client.connect("ws://other.test/".to_string(), None).unwrap().epoch;
    assert_ne!(first, second);
    assert_eq!(client.state(), ConnState::Connecting);
    assert_eq!(drain(&mut client), vec!["@open".to_string(), "@close".to_string()]);
    assert_eq!(client.read_done(first, ReadOutcome::Text("stale".to_string())), Directive::Stop);
    assert_eq!(client.handshake_done(first, Ok(())), Directive::Stop);
    assert_eq!(client.state(), ConnState::Connecting);
    assert_eq!(client.poll(), None);
    assert_eq!(client.handshake_done(second, Ok(())), Directive::Continue);
    assert_eq!(client.read_done(first, ReadOutcome::ConnectionClosed), Directive::Stop);
    assert_eq!(client.state(), ConnState::Open);
    assert_eq!(client.read_done(second, ReadOutcome::Text("fresh".to_string())), Directive::Continue);
    assert_eq!(drain(&mut client), vec!["@open".to_string(), "fresh".to_string()]);
}

#[test]
fn replacing_a_pending_handshake_closes_it() {
    let mut client = Client::new();
    let first = client.connect("ws://h/".to_string(), None).unwrap().epoch;
    let second = client.connect("ws://h/".to_string(), None).unwrap().epoch;
    assert_eq!((first, second), (1, 2));
    assert_eq!(drain(&mut client), vec!["@close".to_string()]);
    assert_eq!(client.handshake_done(first, Err("refused".to_string())), Directive::Stop);
    assert_eq!(client.poll(), None);
}

#[test]
fn reconnect_after_close_starts_a_fresh_stream() {
    let (mut client, first) = open_client();
    client.read_done(first, ReadOutcome::ConnectionClosed);
    let second = client.connect("ws://h/".to_string(), None).unwrap().epoch;
    client.handshake_done(second, Ok(()));
    assert_eq!(
        drain(&mut client),
        vec!["@open".to_string(), "@close".to_string(), "@open".to_string()]
    );
}

#[test]
fn a_report_for_a_handshake_arrives_once() {
    let (mut client, epoch) = open_client();
    assert_eq!(client.handshake_done(epoch, Ok(())), Directive::Stop);
    assert_eq!(client.handshake_done(epoch, Err("x".to_string())), Directive::Stop);
    assert_eq!(client.state(), ConnState::Open);
    assert_eq!(drain(&mut client), vec!["@open".to_string()]);
}

#[test]
fn a_read_report_before_the_handshake_is_ignored() {
    let mut client = Client::new();
    let epoch = client.connect("ws://h/".to_string(), None).unwrap().epoch;
    assert_eq!(client.read_done(epoch, ReadOutcome::Text("early".to_string())), Directive::Stop);
    assert_eq!(client.state(), ConnState::Connecting);
    assert_eq!(client.poll(), None);
}

#[test]
fn poll_on_an_empty_channel_returns_at_once() {
    let mut client = Client::new();
    let _ = client.connect("ws://127.0.0.1:8080/live".to_string(), None).unwrap();
    let started = std::time::Instant::now();
    for _ in 0..1000 {
        assert_eq!(client.poll(), None);
    }
    assert!(started.elapsed() < std::time::Duration::from_secs(1));
}

#[test]
fn the_read_interval_and_timeout_are_ten_milliseconds() {
    assert_eq!(mwebsocket::client::READ_INTERVAL_MS, 10);
    assert_eq!(mwebsocket::client::READ_TIMEOUT_MS, 10);
}

use dhttp::codec::decode_response;
use dhttp::content::RequestContent;
use dhttp::error::Error;
use dhttp::message::{Header, Request, Response};
use dhttp::server::{Action, ConnectionState, Event, Reception};
use dhttp::Server;

const DATE: &str = "Thu, 01 Jan 1970 00:00:00 GMT";

fn decode_reply(payload: Vec<u8>) -> Response {
    decode_response(RequestContent::new(payload)).unwrap()
}

fn handler(request: &Request) -> Response {
    let (status, body) = if request.target == "/index.html" {
        (200, &b"hello"[..])
    } else {
        (404, &b"not found"[..])
    };
    Response {
        status,
        headers: vec![Header { name: "Content-Type".to_string(), value: "text/plain".to_string() }],
        body: body.to_vec(),
    }
}

fn received(source: &str, payload: &[u8]) -> Event {
    Event::Received { source: source.to_string(), payload: payload.to_vec() }
}

fn connected() -> Server {
    let mut server = Server::new();
    assert!(matches!(server.step(Event::Start), Action::Connect));
    assert!(matches!(server.step(Event::ConnectSucceeded), Action::Receive));
    server
}

#[test]
fn reverse_happy_path() {
    let payload = b"GET /index.html HTTP/1.1\r\nHost: node1.dtn\r\n\r\n".to_vec();
    let reception = Server::handle_bundle_reception("dtn://client.dtn/dhttp/client".to_string(), payload);
    let (source, request) = match reception {
        Reception::Dispatch { source, request } => (source, request),
        Reception::Dropped { .. } => panic!("dropped"),
    };
    assert_eq!(source, "dtn://client.dtn/dhttp/client");
    assert_eq!(request.method, "GET");
    assert_eq!(request.target, "/index.html");
    let response = handler(&request);
    let bundle = Server::reply(source, &request.method, response, DATE).unwrap();
    assert_eq!(bundle.destination, "dtn://client.dtn/dhttp/client");
    let reply = decode_reply(bundle.payload);
    assert_eq!(reply.status, 200);
    assert_eq!(reply.body, b"hello".to_vec());
}

#[test]
fn handler_failure_travels_as_its_response() {
    let payload = b"GET /missing HTTP/1.1\r\nHost: node1.dtn\r\n\r\n".to_vec();
    let reception = Server::handle_bundle_reception("dtn://c/a".to_string(), payload);
    let (source, request) = match reception {
        Reception::Dispatch { source, request } => (source, request),
        Reception::Dropped { .. } => panic!("dropped"),
    };
    let bundle = Server::reply(source, &request.method, handler(&request), DATE).unwrap();
    let reply = decode_reply(bundle.payload);
    assert_eq!(reply.status, 404);
    assert_eq!(reply.body, b"not found".to_vec());
}

#[test]
fn malformed_payload_is_dropped_and_the_next_is_handled() {
    let mut server = connected();
    let mut sent = Vec::new();
    let inbound: [(&str, &[u8]); 2] = [
        ("dtn://a/x", b"this is no request"),
        ("dtn://b/y", b"GET /index.html HTTP/1.1\r\nHost: node1.dtn\r\n\r\n"),
    ];
    for (source, payload) in inbound {
        match server.step(received(source, payload)) {
            Action::Spawn { source, payload } => {
                match Server::handle_bundle_reception(source, payload) {
                    Reception::Dispatch { source, request } => {
                        let response = handler(&request);
                        sent.extend(Server::reply(source, &request.method, response, DATE).ok());
                    }
                    Reception::Dropped { .. } => {}
                }
            }
            _ => panic!("the loop stopped"),
        }
        assert_eq!(server.state(), ConnectionState::Connected);
    }
    assert_eq!(sent.len(), 1);
    assert_eq!(sent[0].destination, "dtn://b/y");
    let payload = sent.pop().unwrap().payload;
    let reply = decode_reply(payload);
    assert_eq!(reply.status, 200);
    assert_eq!(reply.body, b"hello".to_vec());
}

#[test]
fn empty_payload_is_dropped() {
    assert!(matches!(
        Server::handle_bundle_reception("dtn://a/x".to_string(), Vec::new()),
        Reception::Dropped { .. }
    ));
}

#[test]
fn connection_life() {
    let mut server = Server::new();
    assert_eq!(server.state(), ConnectionState::Disconnected);
    assert!(matches!(server.step(Event::Start), Action::Connect));
    assert_eq!(server.state(), ConnectionState::Connecting);
    assert!(matches!(server.step(Event::ConnectSucceeded), Action::Receive));
    assert_eq!(server.state(), ConnectionState::Connected);
    assert!(matches!(server.step(Event::ReceiveFailed), Action::Receive));
    assert_eq!(server.state(), ConnectionState::Connected);
    match server.step(received("dtn://a/x", b"abc")) {
        Action::Spawn { source, payload } => {
            assert_eq!(source, "dtn://a/x");
            assert_eq!(payload, b"abc".to_vec());
        }
        _ => panic!("no unit of work"),
    }
    assert_eq!(server.state(), ConnectionState::Connected);
}

#[test]
fn failed_connection_is_fatal() {
    let mut server = Server::new();
    server.step(Event::Start);
    assert!(matches!(server.step(Event::ConnectFailed), Action::Abort));
    assert_eq!(server.state(), ConnectionState::Terminated);
    assert!(matches!(server.step(Event::Start), Action::Abort));
    assert!(matches!(server.step(Event::ConnectSucceeded), Action::Abort));
    assert!(matches!(server.step(received("dtn://a/x", b"")), Action::Abort));
    assert_eq!(server.state(), ConnectionState::Terminated);
}

#[test]
fn events_out_of_place_are_ignored() {
    let mut server = Server::new();
    assert!(matches!(server.step(Event::ReceiveFailed), Action::Ignore));
    assert!(matches!(server.step(received("dtn://a/x", b"")), Action::Ignore));
    assert!(matches!(server.step(Event::ConnectSucceeded), Action::Ignore));
    assert_eq!(server.state(), ConnectionState::Disconnected);
    server.step(Event::Start);
    assert!(matches!(server.step(Event::Start), Action::Ignore));
    assert!(matches!(server.step(Event::ReceiveFailed), Action::Ignore));
    assert_eq!(server.state(), ConnectionState::Connecting);
    let mut server = connected();
    assert!(matches!(server.step(Event::Start), Action::Ignore));
    assert!(matches!(server.step(Event::ConnectFailed), Action::Ignore));
    assert_eq!(server.state(), ConnectionState::Connected);
}

#[test]
fn reply_goes_to_the_source() {
    let bundle = Server::reply_of("dtn://a/x".to_string(), Ok(vec![1, 2, 3])).unwrap();
    assert_eq!(bundle.destination, "dtn://a/x");
    assert_eq!(bundle.payload, vec![1, 2, 3]);
    let why = Server::reply_of("dtn://a/x".to_string(), Err("why".to_string())).err().unwrap();
    assert_eq!(why, "why");
}

#[test]
fn response_that_cannot_be_encoded_is_not_sent() {
    let response = Response { status: 1000, headers: Vec::new(), body: Vec::new() };
    assert!(Server::reply("dtn://a/x".to_string(), "GET", response, DATE).is_err());
}

#[test]
fn reception_follows_the_decoder() {
    let request = Request {
        method: "GET".to_string(),
        target: "/".to_string(),
        headers: Vec::new(),
        body: Vec::new(),
    };
    match Server::reception_of("s".to_string(), Ok(request)) {
        Reception::Dispatch { source, request } => {
            assert_eq!(source, "s");
            assert_eq!(request.target, "/");
        }
        Reception::Dropped { .. } => panic!("dropped"),
    }
    let failure = Error::MalformedPayload.because("why".to_string());
    match Server::reception_of("s".to_string(), Err(failure)) {
        Reception::Dropped { failure } => {
            assert_eq!(failure.kind, Error::MalformedPayload);
            assert_eq!(failure.detail, "why");
        }
        Reception::Dispatch { .. } => panic!("dispatched"),
    }
}

#[test]
fn record_of_a_handled_bundle() {
    assert_eq!(
        Server::record("dtn://client.dtn/dhttp/client", "GET", "/index.html?x=1", 200),
        "[dtn://client.dtn/dhttp/client] GET /index.html?x=1 200"
    );
    assert_eq!(Server::record("", "", "", 0), "[]   0");
    assert_eq!(Server::record("s", "HEAD", "/", u16::MAX), "[s] HEAD / 65535");
}

#[test]
fn reply_is_the_dated_response() {
    let response = Response {
        status: 200,
        headers: vec![Header { name: "Content-Type".to_string(), value: "text/plain".to_string() }],
        body: b"hello".to_vec(),
    };
    let bundle = Server::reply("dtn://c/a".to_string(), "GET", response, DATE).unwrap();
    assert_eq!(bundle.destination, "dtn://c/a");
    assert_eq!(
        String::from_utf8(bundle.payload).unwrap(),
        "HTTP/1.1 200 OK\r\n\
         content-length: 5\r\n\
         content-type: text/plain\r\n\
         date: Thu, 01 Jan 1970 00:00:00 GMT\r\n\
         \r\n\
         hello"
    );
}

#[test]
fn reply_keeps_the_date_of_the_response() {
    let response = Response {
        status: 204,
        headers: vec![Header { name: "DATE".to_string(), value: "its own".to_string() }],
        body: Vec::new(),
    };
    let bundle = Server::reply("dtn://c/a".to_string(), "GET", response, DATE).unwrap();
    let reply = decode_reply(bundle.payload);
    let dates: Vec<&Header> =
        reply.headers.iter().filter(|h| h.name.eq_ignore_ascii_case("date")).collect();
    assert_eq!(dates.len(), 1);
    assert_eq!(dates[0].value, "its own");
}

#[test]
fn reply_with_a_date_that_cannot_be_sent_is_refused() {
    let response = Response { status: 200, headers: Vec::new(), body: Vec::new() };
    assert!(Server::reply("dtn://c/a".to_string(), "GET", response, "caf\u{e9}").is_err());
}

#[test]
fn payload_that_would_stop_the_decoder_is_dropped() {
    let payloads: [&[u8]; 4] = [
        b"GET / HTTP/1.1\r\nHost: h\r\nX-Name: \xc3\xa9\r\n\r\n",
        b"POST / HTTP/1.1\r\nHost: h\r\nTransfer-Encoding: chunked\r\n\r\n0\r\nX-T: 1",
        b"POST / HTTP/1.1\r\nHost: h\r\nTransfer-Encoding: chunked\r\n\r\n0\r\nX-T: \xc3\xa9\r\n\r\n",
        b"POST / HTTP/1.1\r\nHost: h\r\nTransfer-Encoding: chunked\r\n\r\nzz\r\n",
    ];
    for payload in payloads {
        match Server::handle_bundle_reception("dtn://a/x".to_string(), payload.to_vec()) {
            Reception::Dropped { failure } => assert_eq!(failure.kind, Error::MalformedPayload),
            Reception::Dispatch { .. } => panic!("dispatched"),
        }
    }
}

#[test]
fn request_cut_short_is_dropped() {
    let payload = b"POST /p HTTP/1.1\r\nHost: h\r\nContent-Length: 10\r\n\r\nabc".to_vec();
    match Server::handle_bundle_reception("dtn://a/x".to_string(), payload) {
        Reception::Dropped { failure } => {
            assert_eq!(failure.kind, Error::MalformedPayload);
            assert_eq!(failure.detail, "the body is not as long as Content-Length says");
        }
        Reception::Dispatch { .. } => panic!("dispatched"),
    }
    let payload = b"POST /p HTTP/1.1\r\nHost: h\r\nContent-Length: 3\r\n\r\nabc".to_vec();
    match Server::handle_bundle_reception("dtn://a/x".to_string(), payload) {
        Reception::Dispatch { request, .. } => assert_eq!(request.body, b"abc".to_vec()),
        Reception::Dropped { .. } => panic!("dropped"),
    }
}

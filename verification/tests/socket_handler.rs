use rouille::socket_handler::http1::{
    default_reason_phrase, write_status_and_headers, Http1Handler, Http1Step, UpdateError,
};
use rouille::socket_handler::request_body_analyzer::RequestBodyAnalyzer;
use rouille::socket_handler::thread_per_request::{HandlerError, SocketHandler, Step, Update as ThreadUpdate};
use rouille::socket_handler::{
    parse_http_version, parse_request_line, HttpVersion, Protocol, Received, RegistrationState, Update,
};
use rouille::Response;

#[test]
fn http_version_parses() {
    assert_eq!(parse_http_version("HTTP/1.1"), Ok(HttpVersion(1, 1)));
    assert_eq!(parse_http_version("HTTP/1.0"), Ok(HttpVersion(1, 0)));
    assert_eq!(parse_http_version("HTTP/+2.01"), Ok(HttpVersion(2, 1)));
}

#[test]
fn http_version_errors() {
    assert_eq!(parse_http_version("HTTP"), Err(()));
    assert_eq!(parse_http_version("HTTP/1"), Err(()));
    assert_eq!(parse_http_version("HTTP/1.x"), Err(()));
    assert_eq!(parse_http_version("HTTP/256.0"), Err(()));
    assert_eq!(parse_http_version("HTTP/1.1.1"), Err(()));
}

#[test]
fn request_line_parses() {
    let (m, p, v) = parse_request_line(b"GET /index.html HTTP/1.1").unwrap();
    assert_eq!(m, "GET");
    assert_eq!(p, "/index.html");
    assert_eq!(v, HttpVersion(1, 1));
    assert_eq!(parse_request_line(b"GET /"), Err(()));
    assert_eq!(parse_request_line(b"GET / FTP"), Err(()));
}

#[test]
fn reason_phrases() {
    assert_eq!(default_reason_phrase(200), "OK");
    assert_eq!(default_reason_phrase(404), "Not Found");
    assert_eq!(default_reason_phrase(414), "Reques-URI Too Large");
    assert_eq!(default_reason_phrase(299), "Unknown");
}

#[test]
fn status_and_headers_are_written() {
    let mut out = b"x".to_vec();
    let headers = vec![
        ("Content-Type".to_owned(), "text/plain".to_owned()),
        ("connection".to_owned(), "keep-alive".to_owned()),
        ("Date".to_owned(), "today".to_owned()),
    ];
    write_status_and_headers(&mut out, 404, &headers, Some(12));
    assert_eq!(
        String::from_utf8(out).unwrap(),
        "xHTTP/1.1 404 Not Found\r\nContent-Type: text/plain\r\nDate: today\r\nServer: rouille\r\nContent-Length: 12\r\n\r\n"
    );
}

fn idle(step: &Http1Step) -> bool {
    matches!(step, Http1Step::Done(r) if r.registration.is_none() && !r.close_read)
}

#[test]
fn http1_full_request() {
    let mut handler = Http1Handler::new("1.2.3.4:5".to_owned(), Protocol::Https);
    let mut update = Update::empty();
    update.pending_read_buffer.extend_from_slice(b"GET /foo HTTP/1.1\r\nHost: example.com\r\n\r\nrest");
    let step = handler.update(&mut update).unwrap();
    match step {
        Http1Step::StartHandler(request, result) => {
            assert_eq!(request.method(), "GET");
            assert_eq!(request.raw_url(), "/foo");
            assert_eq!(request.header("host"), Some("example.com"));
            assert!(request.is_secure());
            assert_eq!(request.remote_addr(), "1.2.3.4:5");
            assert!(!request.has_data());
            assert_eq!(result.registration, Some(RegistrationState::FirstTime));
        },
        _ => panic!(),
    }
    assert_eq!(update.pending_read_buffer, b"rest".to_vec());

    // While the response is streamed, the channel is polled.
    assert!(matches!(handler.update(&mut update).unwrap(), Http1Step::PollResponse));
    let step = handler.on_response(&mut update, Received::Value(b"HTTP/1.1 200 OK\r\n".to_vec()));
    assert!(matches!(step, Http1Step::PollResponse));
    assert_eq!(update.pending_write_buffer, b"HTTP/1.1 200 OK\r\n".to_vec());
    let step = handler.on_response(&mut update, Received::Empty);
    assert!(matches!(step, Http1Step::Done(r) if r.registration == Some(RegistrationState::Reregister)));
    let step = handler.on_response(&mut update, Received::Disconnected);
    assert!(idle(&step));
}

#[test]
fn http1_partial_data_waits() {
    let mut handler = Http1Handler::new("1.2.3.4:5".to_owned(), Protocol::Http);
    let mut update = Update::empty();
    update.pending_read_buffer.extend_from_slice(b"GET / HTTP/1.0\r\nHost: a\r\n");
    assert!(idle(&handler.update(&mut update).unwrap()));
    assert_eq!(update.pending_read_buffer, b"Host: a\r\n".to_vec());
    update.pending_read_buffer.extend_from_slice(b"\r\n");
    assert!(matches!(handler.update(&mut update).unwrap(), Http1Step::StartHandler(..)));
}

#[test]
fn http1_request_line_split_across_reads() {
    let mut handler = Http1Handler::new("1.2.3.4:5".to_owned(), Protocol::Http);
    let mut update = Update::empty();
    update.pending_read_buffer.extend_from_slice(b"GET / HT");
    assert!(idle(&handler.update(&mut update).unwrap()));
    update.pending_read_buffer.extend_from_slice(b"TP/1.0\r\n");
    assert!(idle(&handler.update(&mut update).unwrap()));
    assert!(update.pending_read_buffer.is_empty());

    let mut handler = Http1Handler::new("1.2.3.4:5".to_owned(), Protocol::Http);
    let mut update = Update::empty();
    update.pending_read_buffer.extend_from_slice(b"GET / HTTP/1.1");
    assert!(idle(&handler.update(&mut update).unwrap()));
    update.pending_read_buffer.extend_from_slice(b"\r\nHost: a");
    let step = handler.update(&mut update).unwrap();
    assert!(idle(&step));
    assert!(update.pending_write_buffer.is_empty());
    assert_eq!(update.pending_read_buffer, b"Host: a".to_vec());
    update.pending_read_buffer.extend_from_slice(b"\r\n\r\n");
    match handler.update(&mut update).unwrap() {
        Http1Step::StartHandler(request, _) => {
            assert_eq!(request.method(), "GET");
            assert_eq!(request.raw_url(), "/");
            assert_eq!(request.header("Host"), Some("a"));
        },
        _ => panic!(),
    }
}

#[test]
fn thread_per_request_request_line_split_across_reads() {
    let mut handler = SocketHandler::new("9.9.9.9:1".to_owned());
    let mut update = ThreadUpdate::empty();
    update.pending_read_buffer.extend_from_slice(b"POST /x HT");
    assert!(matches!(handler.update(&mut update).unwrap(), Step::Done));
    update.new_data_start = update.pending_read_buffer.len();
    update.pending_read_buffer.extend_from_slice(b"TP/1.1\r\nA: b\r\n\r\n");
    match handler.update(&mut update).unwrap() {
        Step::StartHandler(request) => {
            assert_eq!(request.method(), "POST");
            assert_eq!(request.raw_url(), "/x");
        },
        _ => panic!(),
    }
    assert!(update.pending_read_buffer.is_empty());
}

#[test]
fn http1_errors() {
    let mut handler = Http1Handler::new("a".to_owned(), Protocol::Http);
    let mut update = Update::empty();
    update.pending_read_buffer.extend_from_slice(b"GARBAGE\r\n");
    assert_eq!(handler.update(&mut update).err(), Some(UpdateError::InvalidRequestLine));

    let mut handler = Http1Handler::new("a".to_owned(), Protocol::Http);
    let mut update = Update::empty();
    update.pending_read_buffer.extend_from_slice(b"ABCDEFGHIJKLMNOPQ / HTTP/1.1\r\n");
    assert_eq!(handler.update(&mut update).err(), Some(UpdateError::MethodTooLong));

    let mut handler = Http1Handler::new("a".to_owned(), Protocol::Http);
    let mut update = Update::empty();
    update.pending_read_buffer.extend_from_slice(b"GET / HTTP/1.1\r\nbad header\r\n\r\n");
    assert_eq!(handler.update(&mut update).err(), Some(UpdateError::InvalidHeaders));
}

#[test]
fn body_analyzer_counts_down() {
    let headers = vec![("content-length".to_owned(), "10".to_owned())];
    let mut analyzer = RequestBodyAnalyzer::new(&headers);
    let o = analyzer.feed(&mut [0u8; 4]);
    assert_eq!((o.body_data, o.finished), (4, false));
    let o = analyzer.feed(&mut [0u8; 10]);
    assert_eq!((o.body_data, o.finished), (6, true));
    let o = analyzer.feed(&mut [0u8; 3]);
    assert_eq!((o.body_data, o.finished), (0, true));
}

#[test]
fn body_analyzer_without_length() {
    let headers = vec![
        ("Content-Length".to_owned(), "5".to_owned()),
        ("Content-Length".to_owned(), "abc".to_owned()),
    ];
    let mut analyzer = RequestBodyAnalyzer::new(&headers);
    let o = analyzer.feed(&mut [0u8; 4]);
    assert_eq!((o.body_data, o.finished), (0, true));
}

#[test]
fn thread_per_request_answers_once() {
    let mut handler = SocketHandler::new("9.9.9.9:1".to_owned());
    let mut update = ThreadUpdate::empty();
    update.pending_read_buffer.extend_from_slice(b"POST /x HTTP/1.1\r\nA: b\r\n\r\n");
    match handler.update(&mut update).unwrap() {
        Step::StartHandler(request) => {
            assert_eq!(request.method(), "POST");
            assert_eq!(request.raw_url(), "/x");
            assert_eq!(request.remote_addr(), "9.9.9.9:1");
            assert_eq!(request.headers().size_hint(), (0, Some(0)));
        },
        _ => panic!(),
    }
    assert!(update.registration);
    assert!(matches!(handler.update(&mut update).unwrap(), Step::PollResponse));

    handler.on_response(&mut update, Received::Value(Response::text("hi"))).unwrap();
    let head = b"HTTP/1.1 200 Ok\r\nContent-Type: text/plain; charset=utf8\r\n\r\n".to_vec();
    assert_eq!(update.pending_write_buffer, head);
    assert!(matches!(handler.update(&mut update).unwrap(), Step::Done));
    assert_eq!(update.pending_write_buffer[head.len()..].to_vec(), b"hi".to_vec());
    handler.update(&mut update).unwrap();

    update.pending_read_buffer.extend_from_slice(b"GET / HTTP/1.1\r\nA: b\r\n\r\n");
    assert_eq!(handler.update(&mut update).err(), Some(HandlerError::AlreadyAnswered));
}

#[test]
fn thread_per_request_refuses_upgrades() {
    let mut handler = SocketHandler::new("9.9.9.9:1".to_owned());
    let mut update = ThreadUpdate::empty();
    update.pending_read_buffer.extend_from_slice(b"GET / HTTP/1.1\r\nA: b\r\n\r\n");
    assert!(matches!(handler.update(&mut update).unwrap(), Step::StartHandler(_)));
    let mut response = Response::text("hi");
    response.upgrade = true;
    assert_eq!(
        handler.on_response(&mut update, Received::Value(response)).err(),
        Some(HandlerError::UpgradeRequested)
    );
}

#[test]
fn http1_error_closes_the_handler() {
    let mut handler = Http1Handler::new("a".to_owned(), Protocol::Http);
    let mut update = Update::empty();
    update.pending_read_buffer.extend_from_slice(b"GARBAGE\r\n");
    assert_eq!(handler.update(&mut update).err(), Some(UpdateError::InvalidRequestLine));
    update.pending_read_buffer.clear();
    update.pending_read_buffer.extend_from_slice(b"GET / HTTP/1.1\r\nA: b\r\n\r\n");
    match handler.update(&mut update).unwrap() {
        Http1Step::Done(result) => assert!(result.close_read),
        _ => panic!(),
    }
}

#[test]
fn thread_per_request_error_closes_the_handler() {
    let mut handler = SocketHandler::new("9.9.9.9:1".to_owned());
    let mut update = ThreadUpdate::empty();
    update.pending_read_buffer.extend_from_slice(b"GARBAGE\r\n");
    assert_eq!(handler.update(&mut update).err(), Some(HandlerError::InvalidRequestLine));
    update.pending_read_buffer.clear();
    update.pending_read_buffer.extend_from_slice(b"GET / HTTP/1.1\r\nA: b\r\n\r\n");
    assert!(matches!(handler.update(&mut update).unwrap(), Step::Done));
    assert_eq!(update.pending_read_buffer, b"GET / HTTP/1.1\r\nA: b\r\n\r\n".to_vec());
}

#[test]
fn connection_headers_are_left_out() {
    let mut out = Vec::new();
    let headers = vec![
        ("Accept-Ranges".to_owned(), "bytes".to_owned()),
        ("Content-Range".to_owned(), "bytes 0-1/2".to_owned()),
        ("Upgrade".to_owned(), "websocket".to_owned()),
        ("Content-Encoding".to_owned(), "gzip".to_owned()),
        ("Server".to_owned(), "s".to_owned()),
        ("Date".to_owned(), "d".to_owned()),
    ];
    write_status_and_headers(&mut out, 200, &headers, Some(2));
    assert_eq!(
        out,
        b"HTTP/1.1 200 OK\r\nContent-Encoding: gzip\r\nServer: s\r\nDate: d\r\nContent-Length: 2\r\n\r\n".to_vec()
    );
}

#[test]
fn thread_per_request_leaves_out_connection_headers() {
    let mut handler = SocketHandler::new("9.9.9.9:1".to_owned());
    let mut update = ThreadUpdate::empty();
    update.pending_read_buffer.extend_from_slice(b"GET / HTTP/1.1\r\nA: b\r\n\r\n");
    assert!(matches!(handler.update(&mut update).unwrap(), Step::StartHandler(_)));
    let mut response = Response::text("hi");
    response.headers.push(("Accept-Ranges".to_owned(), "bytes".to_owned()));
    handler.on_response(&mut update, Received::Value(response)).unwrap();
    assert_eq!(
        update.pending_write_buffer,
        b"HTTP/1.1 200 Ok\r\nContent-Type: text/plain; charset=utf8\r\n\r\n".to_vec()
    );
}

#[test]
fn body_analyzer_feeds_in_order() {
    let headers = vec![("Content-Length".to_owned(), "7".to_owned())];
    let mut analyzer = RequestBodyAnalyzer::new(&headers);
    let mut counted = 0;
    for len in [3usize, 2, 5, 4] {
        let o = analyzer.feed(&mut vec![0u8; len]);
        assert_eq!(o.body_data, len.min(7 - counted));
        assert_eq!(o.finished, counted + o.body_data == 7);
        counted += o.body_data;
    }
    assert_eq!(counted, 7);
}

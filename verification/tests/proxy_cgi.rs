use rouille::cgi::{cgi_environment, cgi_header_line, cgi_line_ok, cgi_response_head, CgiHeader};
use rouille::proxy::{header_line_ok, parse_header_line, parse_status_line, proxy_request, ProxyConfig, ProxyError};
use rouille::Request;

#[test]
fn proxy_request_head_and_body() {
    let mut request = Request::fake_http(
        "POST",
        "/a?b=c",
        vec![("Host".to_owned(), "front".to_owned()), ("X".to_owned(), "y".to_owned())],
        b"body".to_vec(),
    );
    let config = ProxyConfig { addr: "backend:80", replace_host: Some("back".to_owned()) };
    let (head, body) = proxy_request(&mut request, &config).unwrap();
    assert_eq!(
        String::from_utf8(head).unwrap(),
        "POST /a?b=c HTTP/1.1\nHost: back\nX: y\nConnection: close\n\n"
    );
    assert_eq!(body, b"body".to_vec());
    match proxy_request(&mut request, &config) {
        Err(ProxyError::BodyAlreadyExtracted) => (),
        _ => panic!(),
    }
}

#[test]
fn proxy_keeps_host_without_replacement() {
    let mut request = Request::fake_http("GET", "/", vec![("Host".to_owned(), "front".to_owned())], vec![]);
    let config = ProxyConfig { addr: "backend:80", replace_host: None };
    let (head, _) = proxy_request(&mut request, &config).unwrap();
    assert_eq!(String::from_utf8(head).unwrap(), "GET / HTTP/1.1\nHost: front\nConnection: close\n\n");
}

#[test]
fn proxy_reads_status_and_headers() {
    assert_eq!(parse_status_line("HTTP/1.1 404 Not Found").unwrap(), 404);
    assert!(matches!(parse_status_line("HTTP/1.1"), Err(ProxyError::HttpParseError)));
    assert!(matches!(parse_status_line("HTTP/1.1 abc"), Err(ProxyError::HttpParseError)));
    assert!(matches!(parse_status_line("HTTP/1.1 70000"), Err(ProxyError::HttpParseError)));
    assert_eq!(parse_header_line("Content-Type: text/html").unwrap(), ("Content-Type".to_owned(), "text/html".to_owned()));
    assert_eq!(parse_header_line("A:xb:c").unwrap(), ("A".to_owned(), "b:c".to_owned()));
    assert!(matches!(parse_header_line("no colon"), Err(ProxyError::HttpParseError)));
    assert!(header_line_ok("no colon"));
    assert!(!header_line_ok("Empty:"));
}

#[test]
fn proxy_error_descriptions() {
    assert_eq!(ProxyError::HttpParseError.description(), "the destination server didn't produce compliant HTTP");
    assert_eq!(ProxyError::BodyAlreadyExtracted.description(), "the body of the request was already extracted");
    assert!(ProxyError::HttpParseError.cause().is_none());
    let err = ProxyError::from(std::io::Error::new(std::io::ErrorKind::Other, "x"));
    assert!(err.cause().is_some());
}

#[test]
fn cgi_environment_of_request() {
    let request = Request::fake_http_from(
        "10.0.0.1:42",
        "POST",
        "/hello%20world?x=1",
        vec![("content-type".to_owned(), "text/plain".to_owned())],
        vec![],
    );
    let env = cgi_environment(&request);
    let get = |name: &str| env.iter().find(|(k, _)| k == name).map(|(_, v)| v.clone());
    assert_eq!(env.len(), 14);
    assert_eq!(get("SERVER_SOFTWARE"), Some("rouille".to_owned()));
    assert_eq!(get("REQUEST_METHOD"), Some("POST".to_owned()));
    assert_eq!(get("PATH_INFO"), Some("/hello world".to_owned()));
    assert_eq!(get("QUERY_STRING"), Some("x=1".to_owned()));
    assert_eq!(get("REMOTE_ADDR"), Some("10.0.0.1:42".to_owned()));
    assert_eq!(get("CONTENT_TYPE"), Some("text/plain".to_owned()));
    assert_eq!(get("CONTENT_LENGTH"), Some("".to_owned()));
}

#[test]
fn cgi_header_lines() {
    assert!(matches!(cgi_header_line("Status: 404 Not Found"), CgiHeader::Status(404)));
    match cgi_header_line("Content-Type: text/html") {
        CgiHeader::Header(n, v) => assert_eq!((n.as_str(), v.as_str()), ("Content-Type", "text/html")),
        _ => panic!(),
    }
    assert!(!cgi_line_ok("Status: 4"));
    assert!(!cgi_line_ok("no colon"));
    let lines = vec!["Content-Type: text/html".to_owned(), "Status: 302 Found".to_owned(), "Location: /".to_owned()];
    let (status, headers) = cgi_response_head(&lines);
    assert_eq!(status, 302);
    assert_eq!(
        headers,
        vec![("Content-Type".to_owned(), "text/html".to_owned()), ("Location".to_owned(), "/".to_owned())]
    );
    assert_eq!(cgi_response_head(&vec![]).0, 200);
}

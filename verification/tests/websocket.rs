use rouille::websocket::{requested_protocols, start, WebsocketError};
use rouille::Request;

fn websocket_request(extra: Vec<(String, String)>) -> Request {
    let mut headers = vec![
        ("Host".to_owned(), "server.example.com".to_owned()),
        ("Connection".to_owned(), "keep-alive, Upgrade".to_owned()),
        ("Upgrade".to_owned(), "WebSocket".to_owned()),
        ("Sec-WebSocket-Version".to_owned(), "13".to_owned()),
        ("Sec-WebSocket-Key".to_owned(), "dGhlIHNhbXBsZSBub25jZQ==".to_owned()),
    ];
    headers.extend(extra);
    Request::fake_http("GET", "/chat", headers, vec![])
}

#[test]
fn websocket_accepts_key() {
    let request = websocket_request(vec![]);
    let response = start(&request, None).unwrap();
    assert_eq!(response.status_code, 101);
    assert!(response.upgrade);
    assert_eq!(
        response.headers,
        vec![
            ("Upgrade".to_owned(), "websocket".to_owned()),
            ("Sec-Websocket-Accept".to_owned(), "s3pPLMBiTxaQ9kYGzzhZRbK+xOo=".to_owned()),
        ]
    );
}

#[test]
fn websocket_with_subprotocol() {
    let request = websocket_request(vec![("Sec-WebSocket-Protocol".to_owned(), "chat, superchat".to_owned())]);
    let response = start(&request, Some("superchat")).unwrap();
    assert_eq!(response.headers[1], ("Sec-Websocket-Protocol".to_owned(), "superchat".to_owned()));
    assert_eq!(start(&request, Some("other")).err(), Some(WebsocketError::WrongSubprotocol));
}

#[test]
fn websocket_refuses_other_requests() {
    let request = Request::fake_http("POST", "/chat", vec![], vec![]);
    assert_eq!(start(&request, None).err(), Some(WebsocketError::InvalidWebsocketRequest));

    let request = Request::fake_http(
        "GET",
        "/chat",
        vec![
            ("Host".to_owned(), "h".to_owned()),
            ("Connection".to_owned(), "Upgrade".to_owned()),
            ("Upgrade".to_owned(), "websocket".to_owned()),
            ("Sec-WebSocket-Version".to_owned(), "8".to_owned()),
            ("Sec-WebSocket-Key".to_owned(), "x".to_owned()),
        ],
        vec![],
    );
    assert_eq!(start(&request, None).err(), Some(WebsocketError::InvalidWebsocketRequest));

    let request = Request::fake_http(
        "GET",
        "/chat",
        vec![
            ("Host".to_owned(), "h".to_owned()),
            ("Connection".to_owned(), "Upgrade".to_owned()),
            ("Upgrade".to_owned(), "websocket".to_owned()),
            ("Sec-WebSocket-Version".to_owned(), "13".to_owned()),
        ],
        vec![],
    );
    assert_eq!(start(&request, None).err(), Some(WebsocketError::InvalidWebsocketRequest));
}

#[test]
fn websocket_protocol_list() {
    let request = websocket_request(vec![("Sec-WebSocket-Protocol".to_owned(), " a, b,, c ".to_owned())]);
    let mut list = requested_protocols(&request);
    assert_eq!(list.len(), 3);
    assert_eq!(list.size_hint(), (3, Some(3)));
    assert_eq!(list.next(), Some("a".to_owned()));
    assert_eq!(list.next(), Some("b".to_owned()));
    assert_eq!(list.next(), Some("c".to_owned()));
    assert_eq!(list.next(), None);

    let request = Request::fake_http("GET", "/", vec![], vec![]);
    assert_eq!(requested_protocols(&request).len(), 0);
}

#[test]
fn websocket_needs_a_host() {
    let request = Request::fake_http(
        "GET",
        "/chat",
        vec![
            ("Connection".to_owned(), "Upgrade".to_owned()),
            ("Upgrade".to_owned(), "websocket".to_owned()),
            ("Sec-WebSocket-Version".to_owned(), "13".to_owned()),
            ("Sec-WebSocket-Key".to_owned(), "dGhlIHNhbXBsZSBub25jZQ==".to_owned()),
        ],
        vec![],
    );
    assert_eq!(start(&request, None).err(), Some(WebsocketError::InvalidWebsocketRequest));
}

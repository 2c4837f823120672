# rouille

A small web micro-framework whose request handling, response building, input parsing,
sessions, routing, proxying, websocket handshakes and connection state machines are written
in Verus and proved against their contracts.

## Layout

- `src/` — the verified library.
  - `request.rs`, `response.rs`: the request and response values, header lookup, query
    parameters, ETags.
  - `content_encoding.rs`: `Accept-Encoding` negotiation, gzip and brotli bodies.
  - `input/`: cookies, basic authentication, plain-text, JSON, form and multipart bodies,
    server-side sessions.
  - `socket_handler/`: the HTTP/1 connection state machines (request line and headers,
    body length, response head and body) and the request-body length analyzer.
  - `server.rs`: the decisions of the event loop (what to read, write, re-register or drop).
  - `proxy.rs`, `cgi.rs`: request heads sent upstream and response heads read back.
  - `websocket.rs`: the handshake and the `Sec-WebSocket-Accept` key.
  - `session.rs`: the session cookie.
  - `route/`, `output/`: URL patterns, method masks and handler answers.
  - `text.rs`, `bytes.rs`, `decimal.rs`, `url_codec.rs`: string, byte and number helpers.
- `tests/` — tests run against the compiled library.
- `app/` — the parts that do I/O (sockets, files, processes, terminal logs) and drive the
  verified state machines.

Calls into outside crates (compression, base64, SHA-1, URL decoding, HTTP header parsing,
multipart parsing, random numbers) go through small trusted wrappers whose contracts are
written next to them.

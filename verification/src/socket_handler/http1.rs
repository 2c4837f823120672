//! The HTTP/1.1 protocol, as a state machine driven by the data that a client sends.
//!
//! The handler reads the request line and the headers out of the data received so far. Once a
//! request is complete it hands it out to be answered elsewhere (`Http1Step::StartHandler`), then
//! asks to be fed the pieces of the response as they come (`Http1Step::PollResponse` and
//! `Http1Handler::on_response`).

use vstd::prelude::*;
use crate::bytes::{drop_front, find_window, first_window, push_bytes};
use crate::text::bytes_range;
use crate::decimal::{decimal, push_decimal};
use crate::request::{headers_view, request_from_parts, utf8_len, Request, RequestView};
use crate::socket_handler::{
    header_block, parse_header_block, parse_request_text, request_line_spec, HttpVersion,
    ParsedHeaders, ParsedHeadersView, Protocol, Received, RegistrationState, Update, UpdateResult,
};
use crate::text::{eq_ignore_ascii_case, eq_ignore_case, string_of};
use crate::url_codec::{string_from_utf8, string_from_utf8_lossy, utf8_lossy};

verus! {

/// The headers with their values decoded as lossy UTF-8.
pub open spec fn lossy_headers(h: Seq<(Seq<char>, Seq<u8>)>) -> Seq<(Seq<char>, Seq<char>)> {
    h.map_values(|p: (Seq<char>, Seq<u8>)| (p.0, utf8_lossy(p.1)))
}

/// Decodes the values of parsed headers as lossy UTF-8.
fn lossy_header_list(parsed: &Vec<(String, Vec<u8>)>) -> (r: Vec<(String, String)>)
    ensures
        headers_view(r@) == lossy_headers(
            parsed@.map_values(|p: (String, Vec<u8>)| (p.0@, p.1@)),
        ),
{
    let ghost pv = parsed@.map_values(|p: (String, Vec<u8>)| (p.0@, p.1@));
    let mut r: Vec<(String, String)> = Vec::new();
    let mut i: usize = 0;
    while i < parsed.len()
        invariant
            i <= parsed@.len(),
            pv == parsed@.map_values(|p: (String, Vec<u8>)| (p.0@, p.1@)),
            headers_view(r@) == lossy_headers(pv.take(i as int)),
        decreases parsed@.len() - i,
    {
        let name = string_of(parsed[i].0.as_str());
        let value = string_from_utf8_lossy(parsed[i].1.as_slice());
        r.push((name, value));
        assert(lossy_headers(pv.take(i + 1)) == lossy_headers(pv.take(i as int)).push(
            (pv[i as int].0, utf8_lossy(pv[i as int].1)),
        ));
        assert(headers_view(r@) == lossy_headers(pv.take(i + 1)));
        i += 1;
    }
    assert(pv.take(parsed@.len() as int) == pv);
    r
}

/// Current state of an HTTP/1 connection.
pub enum Http1HandlerState {
    /// The data received so far does not contain a whole request line.
    WaitingForRqLine {
        /// Offset in the read buffer where new data starts: everything before it was already
        /// there the last time `update` returned.
        new_data_start: usize,
    },
    /// The request line was read, but the data received so far does not contain all the
    /// headers.
    WaitingForHeaders {
        /// Offset in the read buffer where new data starts.
        new_data_start: usize,
        /// HTTP method (e.g. GET, POST, ...) read from the request line.
        method: String,
        /// URL requested by the client, read from the request line.
        path: String,
        /// HTTP version read from the request line.
        version: HttpVersion,
    },
    /// The request is being answered elsewhere and its response is streamed back.
    ExecutingHandler {
        /// True if `Connection: close` was requested by the client.
        connection_close: bool,
    },
    /// After a request with `Connection: close`: nothing more is processed.
    Closed,
}

/// The abstract state of a connection.
pub enum PhaseView {
    WaitingForRqLine { new_data_start: nat },
    WaitingForHeaders {
        new_data_start: nat,
        method: Seq<char>,
        path: Seq<char>,
        version: (u8, u8),
    },
    ExecutingHandler { connection_close: bool },
    Closed,
}

impl View for Http1HandlerState {
    type V = PhaseView;

    open spec fn view(&self) -> PhaseView {
        match self {
            Http1HandlerState::WaitingForRqLine { new_data_start } => PhaseView::WaitingForRqLine {
                new_data_start: *new_data_start as nat,
            },
            Http1HandlerState::WaitingForHeaders { new_data_start, method, path, version } =>
                PhaseView::WaitingForHeaders {
                new_data_start: *new_data_start as nat,
                method: method@,
                path: path@,
                version: (version.0, version.1),
            },
            Http1HandlerState::ExecutingHandler { connection_close } => PhaseView::ExecutingHandler {
                connection_close: *connection_close,
            },
            Http1HandlerState::Closed => PhaseView::Closed,
        }
    }
}

/// Handles the processing of a client connection.
pub struct Http1Handler {
    state: Http1HandlerState,
    client_addr: String,
    original_protocol: Protocol,
}

/// The abstract content of an `Http1Handler`.
pub struct Http1HandlerView {
    pub phase: PhaseView,
    pub client_addr: Seq<char>,
    pub protocol: Protocol,
}

impl View for Http1Handler {
    type V = Http1HandlerView;

    closed spec fn view(&self) -> Http1HandlerView {
        Http1HandlerView {
            phase: self.state@,
            client_addr: self.client_addr@,
            protocol: self.original_protocol,
        }
    }
}

/// What the data of a client made impossible to go on with.
#[derive(Debug, Copy, Clone, PartialEq, Eq, Structural)]
pub enum UpdateError {
    /// The request line is not valid UTF-8, or is not a method, a path and an HTTP version.
    InvalidRequestLine,
    /// The method is longer than 16 bytes.
    MethodTooLong,
    /// The header block could not be parsed, or holds more than 32 headers.
    InvalidHeaders,
}

/// What the server must do after `update` or `on_response`.
pub enum Http1Step {
    /// Nothing more for now: hand this result back.
    Done(UpdateResult),
    /// A request is complete: have it answered elsewhere, streaming the response back, then
    /// hand this result back.
    StartHandler(Request, UpdateResult),
    /// Poll the channel through which the response comes and pass what it gave to
    /// `on_response`.
    PollResponse,
}

/// The abstract content of an `Http1Step`.
pub enum StepView {
    Done(UpdateResult),
    StartHandler(RequestView, UpdateResult),
    PollResponse,
}

impl View for Http1Step {
    type V = StepView;

    open spec fn view(&self) -> StepView {
        match self {
            Http1Step::Done(r) => StepView::Done(*r),
            Http1Step::StartHandler(rq, r) => StepView::StartHandler(rq@, *r),
            Http1Step::PollResponse => StepView::PollResponse,
        }
    }
}

/// A result that asks for nothing.
pub open spec fn idle_result() -> UpdateResult {
    UpdateResult { registration: None, close_read: false, write_flush_suggested: false }
}

/// `\r\n`.
pub open spec fn crlf() -> Seq<u8> {
    seq![13u8, 10u8]
}

/// `\r\n\r\n`.
pub open spec fn crlf_crlf() -> Seq<u8> {
    seq![13u8, 10u8, 13u8, 10u8]
}

/// `n - k`, or 0 if `k` is larger.
pub open spec fn saturating_sub(n: nat, k: nat) -> nat {
    if n >= k {
        (n - k) as nat
    } else {
        0
    }
}

/// The update of a connection waiting for its headers, with `buf` in the read buffer: the new
/// state, the new read buffer and what the server must do.
pub open spec fn headers_phase(
    nds: nat,
    method: Seq<char>,
    path: Seq<char>,
    version: (u8, u8),
    buf: Seq<u8>,
    protocol: Protocol,
    client_addr: Seq<char>,
) -> Result<(PhaseView, Seq<u8>, StepView), UpdateError> {
    let off = saturating_sub(nds, 3);
    match first_window(buf.skip(off as int), crlf_crlf()) {
        None => Ok(
            (
                PhaseView::WaitingForHeaders { new_data_start: buf.len(), method, path, version },
                buf,
                StepView::Done(idle_result()),
            ),
        ),
        Some(p) => match header_block(buf) {
            ParsedHeadersView::Partial | ParsedHeadersView::Invalid => Err(
                UpdateError::InvalidHeaders,
            ),
            ParsedHeadersView::Complete(hs) => Ok(
                (
                    PhaseView::ExecutingHandler { connection_close: false },
                    buf.skip(off + p + 4),
                    StepView::StartHandler(
                        RequestView {
                            method,
                            url: path,
                            headers: lossy_headers(hs),
                            https: protocol == Protocol::Https,
                            data: None,
                            remote_addr: client_addr,
                        },
                        UpdateResult {
                            registration: Some(RegistrationState::FirstTime),
                            close_read: false,
                            write_flush_suggested: false,
                        },
                    ),
                ),
            ),
        },
    }
}

/// The update of a connection in state `phase` with `buf` in the read buffer.
///
/// A connection waiting for its request line looks for `\r\n` from one byte before the new
/// data (a `\r` may end the previous data); the request line is everything before it.
pub open spec fn update_spec(
    phase: PhaseView,
    buf: Seq<u8>,
    protocol: Protocol,
    client_addr: Seq<char>,
) -> Result<(PhaseView, Seq<u8>, StepView), UpdateError> {
    match phase {
        PhaseView::WaitingForRqLine { new_data_start } => {
            let off = saturating_sub(new_data_start, 1);
            match first_window(buf.skip(off as int), crlf()) {
                None => Ok(
                    (
                        PhaseView::WaitingForRqLine { new_data_start: buf.len() },
                        buf,
                        StepView::Done(idle_result()),
                    ),
                ),
                Some(rn) => {
                    let line = buf.take(off + rn);
                    if !vstd::utf8::valid_utf8(line) {
                        Err(UpdateError::InvalidRequestLine)
                    } else {
                        match request_line_spec(vstd::utf8::decode_utf8(line)) {
                            None => Err(UpdateError::InvalidRequestLine),
                            Some((m, p, v)) => if utf8_len(m) > 16 {
                                Err(UpdateError::MethodTooLong)
                            } else {
                                headers_phase(0, m, p, v, buf.skip(off + rn + 2), protocol, client_addr)
                            },
                        }
                    }
                },
            }
        },
        PhaseView::WaitingForHeaders { new_data_start, method, path, version } => headers_phase(
            new_data_start,
            method,
            path,
            version,
            buf,
            protocol,
            client_addr,
        ),
        PhaseView::ExecutingHandler { .. } => Ok((phase, buf, StepView::PollResponse)),
        PhaseView::Closed => Ok(
            (
                PhaseView::Closed,
                buf,
                StepView::Done(
                    UpdateResult { registration: None, close_read: true, write_flush_suggested: false },
                ),
            ),
        ),
    }
}

/// A request that a connection hands out is secure exactly when the connection was accepted
/// over HTTPS, comes from the connection's client, and carries no body yet.
pub proof fn lemma_request_follows_connection(
    phase: PhaseView,
    buf: Seq<u8>,
    protocol: Protocol,
    client_addr: Seq<char>,
)
    ensures
        update_spec(phase, buf, protocol, client_addr) matches Ok((_, _, StepView::StartHandler(req, _)))
            ==> req.https == (protocol == Protocol::Https) && req.remote_addr == client_addr
            && req.data is None,
{
}

/// The read buffer, of length `len`, still holds the data that the state refers to.
pub open spec fn accepts_buffer(phase: PhaseView, len: nat) -> bool {
    match phase {
        PhaseView::WaitingForRqLine { new_data_start } => saturating_sub(new_data_start, 1) <= len,
        PhaseView::WaitingForHeaders { new_data_start, .. } => saturating_sub(new_data_start, 3)
            <= len,
        _ => true,
    }
}

impl Http1Handler {
    /// Starts handling a new client connection. `client_addr` and `original_protocol` go into
    /// the requests that it builds.
    pub fn new(client_addr: String, original_protocol: Protocol) -> (h: Http1Handler)
        ensures
            h@.phase == (PhaseView::WaitingForRqLine { new_data_start: 0 }),
            h@.client_addr == client_addr@,
            h@.protocol == original_protocol,
    {
        Http1Handler {
            state: Http1HandlerState::WaitingForRqLine { new_data_start: 0 },
            client_addr,
            original_protocol,
        }
    }

    /// Whether the read buffer of `update` still holds the data that the handler refers to,
    /// which is what `update` requires: it holds as long as data is only appended to it.
    pub fn accepts(&self, update: &Update) -> (b: bool)
        ensures
            b == accepts_buffer(self@.phase, update.pending_read_buffer@.len()),
    {
        let len = update.pending_read_buffer.len();
        match &self.state {
            Http1HandlerState::WaitingForRqLine { new_data_start } => *new_data_start <= 1
                || *new_data_start - 1 <= len,
            Http1HandlerState::WaitingForHeaders { new_data_start, .. } => *new_data_start <= 3
                || *new_data_start - 3 <= len,
            _ => true,
        }
    }

    /// Processes the data that arrived in the read buffer.
    ///
    /// An error is returned exactly where the request line or the headers cannot be processed;
    /// the handler is then closed and the connection must be dropped.
    pub fn update(&mut self, update: &mut Update) -> (r: Result<Http1Step, UpdateError>)
        requires
            accepts_buffer(old(self)@.phase, old(update).pending_read_buffer@.len()),
        ensures
            final(update).pending_write_buffer@ == old(update).pending_write_buffer@,
            final(self)@.client_addr == old(self)@.client_addr,
            final(self)@.protocol == old(self)@.protocol,
            r is Err ==> final(self)@.phase == PhaseView::Closed,
            match r {
                Ok(step) => update_spec(
                    old(self)@.phase,
                    old(update).pending_read_buffer@,
                    old(self)@.protocol,
                    old(self)@.client_addr,
                ) == Ok::<(PhaseView, Seq<u8>, StepView), UpdateError>((final(self)@.phase, final(update).pending_read_buffer@, step@)),
                Err(e) => update_spec(
                    old(self)@.phase,
                    old(update).pending_read_buffer@,
                    old(self)@.protocol,
                    old(self)@.client_addr,
                ) == Err::<(PhaseView, Seq<u8>, StepView), UpdateError>(e),
            },
    {
        let mut state = Http1HandlerState::Closed;
        std::mem::swap(&mut state, &mut self.state);
        match state {
            Http1HandlerState::WaitingForRqLine { new_data_start } => {
                let off = if new_data_start >= 1 { new_data_start - 1 } else { 0 };
                let pat: Vec<u8> = vec![13u8, 10u8];
                let pat_s = pat.as_slice();
                assert(pat_s@ == crlf());
                let found = find_window(update.pending_read_buffer.as_slice(), off, pat_s);
                match found {
                    None => {
                        self.state = Http1HandlerState::WaitingForRqLine {
                            new_data_start: update.pending_read_buffer.len(),
                        };
                        Ok(Http1Step::Done(UpdateResult { registration: None, close_read: false, write_flush_suggested: false }))
                    },
                    Some(rn) => {
                        let n = update.pending_read_buffer.len();
                        assert(off + rn + 2 <= n);
                        let line = bytes_range(update.pending_read_buffer.as_slice(), 0, off + rn);
                        let text = match string_from_utf8(line) {
                            Ok(t) => t,
                            Err(_) => return Err(UpdateError::InvalidRequestLine),
                        };
                        let (method, path, version) = match parse_request_text(text.as_str()) {
                            Ok(parts) => parts,
                            Err(()) => return Err(UpdateError::InvalidRequestLine),
                        };
                        let method_bytes = method.as_str().as_bytes();
                        if method_bytes.len() > 16 {
                            return Err(UpdateError::MethodTooLong);
                        }
                        proof {
                            let b = old(update).pending_read_buffer@;
                            assert(line@ == b.take(off + rn));
                            assert(update_spec(old(self)@.phase, b, old(self)@.protocol, old(self)@.client_addr)
                                == headers_phase(0, method@, path@, (version.0, version.1), b.skip(off + rn + 2), old(self)@.protocol, old(self)@.client_addr));
                        }
                        drop_front(&mut update.pending_read_buffer, off + rn + 2);
                        self.waiting_for_headers(update, 0, method, path, version)
                    },
                }
            },
            Http1HandlerState::WaitingForHeaders { new_data_start, method, path, version } => {
                self.waiting_for_headers(update, new_data_start, method, path, version)
            },
            Http1HandlerState::ExecutingHandler { connection_close } => {
                self.state = Http1HandlerState::ExecutingHandler { connection_close };
                Ok(Http1Step::PollResponse)
            },
            Http1HandlerState::Closed => {
                self.state = Http1HandlerState::Closed;
                Ok(Http1Step::Done(UpdateResult { registration: None, close_read: true, write_flush_suggested: false }))
            },
        }
    }

    /// The part of `update` for a connection waiting for its headers.
    fn waiting_for_headers(
        &mut self,
        update: &mut Update,
        new_data_start: usize,
        method: String,
        path: String,
        version: HttpVersion,
    ) -> (r: Result<Http1Step, UpdateError>)
        requires
            saturating_sub(new_data_start as nat, 3) <= old(update).pending_read_buffer@.len(),
        ensures
            final(update).pending_write_buffer@ == old(update).pending_write_buffer@,
            final(self)@.client_addr == old(self)@.client_addr,
            final(self)@.protocol == old(self)@.protocol,
            r is Err ==> final(self)@.phase == old(self)@.phase,
            match r {
                Ok(step) => headers_phase(
                    new_data_start as nat,
                    method@,
                    path@,
                    (version.0, version.1),
                    old(update).pending_read_buffer@,
                    old(self)@.protocol,
                    old(self)@.client_addr,
                ) == Ok::<(PhaseView, Seq<u8>, StepView), UpdateError>((final(self)@.phase, final(update).pending_read_buffer@, step@)),
                Err(e) => headers_phase(
                    new_data_start as nat,
                    method@,
                    path@,
                    (version.0, version.1),
                    old(update).pending_read_buffer@,
                    old(self)@.protocol,
                    old(self)@.client_addr,
                ) == Err::<(PhaseView, Seq<u8>, StepView), UpdateError>(e),
            },
    {
        let off = if new_data_start >= 3 { new_data_start - 3 } else { 0 };
        let pat: Vec<u8> = vec![13u8, 10u8, 13u8, 10u8];
        let pat_s = pat.as_slice();
        assert(pat_s@ == crlf_crlf());
        let found = find_window(update.pending_read_buffer.as_slice(), off, pat_s);
        match found {
            None => {
                let len = update.pending_read_buffer.len();
                self.state = Http1HandlerState::WaitingForHeaders {
                    new_data_start: len,
                    method,
                    path,
                    version,
                };
                Ok(Http1Step::Done(UpdateResult { registration: None, close_read: false, write_flush_suggested: false }))
            },
            Some(p) => {
                let n = update.pending_read_buffer.len();
                assert(off + p + 4 <= n);
                let parsed = match parse_header_block(update.pending_read_buffer.as_slice()) {
                    ParsedHeaders::Complete(h) => h,
                    _ => return Err(UpdateError::InvalidHeaders),
                };
                let headers = lossy_header_list(&parsed);
                drop_front(&mut update.pending_read_buffer, off + p + 4);
                let https = match self.original_protocol {
                    Protocol::Https => true,
                    Protocol::Http => false,
                };
                let addr = string_of(self.client_addr.as_str());
                let request = request_from_parts(method, path, headers, https, None, addr);
                self.state = Http1HandlerState::ExecutingHandler { connection_close: false };
                Ok(
                    Http1Step::StartHandler(
                        request,
                        UpdateResult {
                            registration: Some(RegistrationState::FirstTime),
                            close_read: false,
                            write_flush_suggested: false,
                        },
                    ),
                )
            },
        }
    }

    /// Takes in what polling the response channel gave, while a response is being streamed.
    ///
    /// A piece of the response goes to the write buffer and the channel must be polled again;
    /// an empty channel means waiting for the handler's registration; a closed one ends the
    /// response, and the connection waits for the next request (or closes, if the client asked
    /// for it).
    pub fn on_response(&mut self, update: &mut Update, received: Received<Vec<u8>>) -> (r: Http1Step)
        requires
            old(self)@.phase is ExecutingHandler,
        ensures
            final(update).pending_read_buffer@ == old(update).pending_read_buffer@,
            final(self)@.client_addr == old(self)@.client_addr,
            final(self)@.protocol == old(self)@.protocol,
            match received {
                Received::Value(data) => {
                    &&& final(update).pending_write_buffer@ == old(update).pending_write_buffer@
                        + data@
                    &&& final(self)@.phase == old(self)@.phase
                    &&& r@ == StepView::PollResponse
                },
                Received::Empty => {
                    &&& final(update).pending_write_buffer@ == old(update).pending_write_buffer@
                    &&& final(self)@.phase == old(self)@.phase
                    &&& r@ == StepView::Done(
                        UpdateResult {
                            registration: Some(RegistrationState::Reregister),
                            close_read: false,
                            write_flush_suggested: false,
                        },
                    )
                },
                Received::Disconnected => {
                    &&& final(update).pending_write_buffer@ == old(update).pending_write_buffer@
                    &&& if old(self)@.phase->connection_close {
                        &&& final(self)@.phase == PhaseView::Closed
                        &&& r@ == StepView::Done(
                            UpdateResult {
                                registration: None,
                                close_read: true,
                                write_flush_suggested: false,
                            },
                        )
                    } else {
                        &&& final(self)@.phase == (PhaseView::WaitingForRqLine { new_data_start: 0 })
                        &&& r@ == StepView::Done(idle_result())
                    }
                },
            },
    {
        let connection_close = match &self.state {
            Http1HandlerState::ExecutingHandler { connection_close } => *connection_close,
            _ => false,
        };
        match received {
            Received::Value(data) => {
                let mut data = data;
                update.pending_write_buffer.append(&mut data);
                Http1Step::PollResponse
            },
            Received::Empty => Http1Step::Done(
                UpdateResult {
                    registration: Some(RegistrationState::Reregister),
                    close_read: false,
                    write_flush_suggested: false,
                },
            ),
            Received::Disconnected => {
                if connection_close {
                    self.state = Http1HandlerState::Closed;
                    Http1Step::Done(UpdateResult { registration: None, close_read: true, write_flush_suggested: false })
                } else {
                    self.state = Http1HandlerState::WaitingForRqLine { new_data_start: 0 };
                    Http1Step::Done(UpdateResult { registration: None, close_read: false, write_flush_suggested: false })
                }
            },
        }
    }
}

/// The reason phrase that goes with a status code.
#[verifier::opaque]
pub open spec fn reason_phrase(status_code: u16) -> Seq<char> {
    match status_code {
        100 => "Continue"@,
        101 => "Switching Protocols"@,
        102 => "Processing"@,
        118 => "Connection timed out"@,
        200 => "OK"@,
        201 => "Created"@,
        202 => "Accepted"@,
        203 => "Non-Authoritative Information"@,
        204 => "No Content"@,
        205 => "Reset Content"@,
        206 => "Partial Content"@,
        207 => "Multi-Status"@,
        210 => "Content Different"@,
        300 => "Multiple Choices"@,
        301 => "Moved Permanently"@,
        302 => "Found"@,
        303 => "See Other"@,
        304 => "Not Modified"@,
        305 => "Use Proxy"@,
        307 => "Temporary Redirect"@,
        400 => "Bad Request"@,
        401 => "Unauthorized"@,
        402 => "Payment Required"@,
        403 => "Forbidden"@,
        404 => "Not Found"@,
        405 => "Method Not Allowed"@,
        406 => "Not Acceptable"@,
        407 => "Proxy Authentication Required"@,
        408 => "Request Time-out"@,
        409 => "Conflict"@,
        410 => "Gone"@,
        411 => "Length Required"@,
        412 => "Precondition Failed"@,
        413 => "Request Entity Too Large"@,
        414 => "Reques-URI Too Large"@,
        415 => "Unsupported Media Type"@,
        416 => "Request range not satisfiable"@,
        417 => "Expectation Failed"@,
        500 => "Internal Server Error"@,
        501 => "Not Implemented"@,
        502 => "Bad Gateway"@,
        503 => "Service Unavailable"@,
        504 => "Gateway Time-out"@,
        505 => "HTTP Version not supported"@,
        _ => "Unknown"@,
    }
}

/// Returns the phrase corresponding to a status code.
pub fn default_reason_phrase(status_code: u16) -> (r: &'static str)
    ensures
        r@ == reason_phrase(status_code),
{
    reveal(reason_phrase);
    match status_code {
        100 => "Continue",
        101 => "Switching Protocols",
        102 => "Processing",
        118 => "Connection timed out",
        200 => "OK",
        201 => "Created",
        202 => "Accepted",
        203 => "Non-Authoritative Information",
        204 => "No Content",
        205 => "Reset Content",
        206 => "Partial Content",
        207 => "Multi-Status",
        210 => "Content Different",
        300 => "Multiple Choices",
        301 => "Moved Permanently",
        302 => "Found",
        303 => "See Other",
        304 => "Not Modified",
        305 => "Use Proxy",
        307 => "Temporary Redirect",
        400 => "Bad Request",
        401 => "Unauthorized",
        402 => "Payment Required",
        403 => "Forbidden",
        404 => "Not Found",
        405 => "Method Not Allowed",
        406 => "Not Acceptable",
        407 => "Proxy Authentication Required",
        408 => "Request Time-out",
        409 => "Conflict",
        410 => "Gone",
        411 => "Length Required",
        412 => "Precondition Failed",
        413 => "Request Entity Too Large",
        414 => "Reques-URI Too Large",
        415 => "Unsupported Media Type",
        416 => "Request range not satisfiable",
        417 => "Expectation Failed",
        500 => "Internal Server Error",
        501 => "Not Implemented",
        502 => "Bad Gateway",
        503 => "Service Unavailable",
        504 => "Gateway Time-out",
        505 => "HTTP Version not supported",
        _ => "Unknown",
    }
}

/// A header that the connection itself handles, and that a response does not pass on: the
/// length and transfer of the body, ranges, the connection and its upgrade (responses are
/// never upgraded here).
#[verifier::opaque]
pub open spec fn is_connection_header(name: Seq<char>) -> bool {
    ||| eq_ignore_case(name, "Content-Length"@)
    ||| eq_ignore_case(name, "Transfer-Encoding"@)
    ||| eq_ignore_case(name, "Connection"@)
    ||| eq_ignore_case(name, "Trailer"@)
    ||| eq_ignore_case(name, "Accept-Ranges"@)
    ||| eq_ignore_case(name, "Content-Range"@)
    ||| eq_ignore_case(name, "Upgrade"@)
}

/// Whether a response header is one that the connection itself handles.
pub fn connection_header(name: &str) -> (b: bool)
    ensures
        b == is_connection_header(name@),
{
    reveal(is_connection_header);
    eq_ignore_ascii_case(name, "Content-Length") || eq_ignore_ascii_case(name, "Transfer-Encoding")
        || eq_ignore_ascii_case(name, "Connection") || eq_ignore_ascii_case(name, "Trailer")
        || eq_ignore_ascii_case(name, "Accept-Ranges") || eq_ignore_ascii_case(name, "Content-Range")
        || eq_ignore_ascii_case(name, "Upgrade")
}

/// The lines `name: value` of the headers that a response passes on.
pub open spec fn header_lines(h: Seq<(Seq<char>, Seq<char>)>) -> Seq<u8>
    decreases h.len(),
{
    if h.len() == 0 {
        Seq::empty()
    } else if is_connection_header(h.last().0) {
        header_lines(h.drop_last())
    } else {
        header_lines(h.drop_last()) + vstd::utf8::encode_utf8(h.last().0) + vstd::utf8::encode_utf8(
            ": "@,
        ) + vstd::utf8::encode_utf8(h.last().1) + vstd::utf8::encode_utf8("\r\n"@)
    }
}

/// Some header's name matches `name` without regard to ASCII case.
pub open spec fn has_header(h: Seq<(Seq<char>, Seq<char>)>, name: Seq<char>) -> bool
    decreases h.len(),
{
    if h.len() == 0 {
        false
    } else {
        has_header(h.drop_last(), name) || eq_ignore_case(h.last().0, name)
    }
}

/// The status line of a response.
pub open spec fn status_line(status_code: u16) -> Seq<u8> {
    vstd::utf8::encode_utf8("HTTP/1.1 "@) + decimal(status_code as nat) + seq![32u8]
        + vstd::utf8::encode_utf8(reason_phrase(status_code)) + vstd::utf8::encode_utf8("\r\n"@)
}

/// What follows the headers that a response passes on: `Server` and `Date` when missing, the
/// length of the body and the empty line.
pub open spec fn closing_headers(h: Seq<(Seq<char>, Seq<char>)>, body_size: usize) -> Seq<u8> {
    (if has_header(h, "Server"@) {
        Seq::empty()
    } else {
        vstd::utf8::encode_utf8("Server: rouille\r\n"@)
    }) + (if has_header(h, "Date"@) {
        Seq::empty()
    } else {
        vstd::utf8::encode_utf8("Date: TODO\r\n"@)
    }) + vstd::utf8::encode_utf8("Content-Length: "@) + decimal(body_size as nat)
        + vstd::utf8::encode_utf8("\r\n"@) + vstd::utf8::encode_utf8("\r\n"@)
}

/// The status line and the headers of a response, as written on the connection.
pub open spec fn status_and_headers(
    status_code: u16,
    h: Seq<(Seq<char>, Seq<char>)>,
    body_size: usize,
) -> Seq<u8> {
    status_line(status_code) + header_lines(h) + closing_headers(h, body_size)
}

/// The header lines of two lists one after the other are those of the first, then those of the
/// second.
pub proof fn lemma_header_lines_append(a: Seq<(Seq<char>, Seq<char>)>, b: Seq<(Seq<char>, Seq<char>)>)
    ensures
        header_lines(a + b) == header_lines(a) + header_lines(b),
    decreases b.len(),
{
    if b.len() == 0 {
        assert(a + b == a);
    } else {
        lemma_header_lines_append(a, b.drop_last());
        assert((a + b).drop_last() == a + b.drop_last());
        assert((a + b).last() == b.last());
    }
}

/// Whether some header of two lists one after the other has the name is whether one of them
/// has it.
pub proof fn lemma_has_header_append(
    a: Seq<(Seq<char>, Seq<char>)>,
    b: Seq<(Seq<char>, Seq<char>)>,
    name: Seq<char>,
)
    ensures
        has_header(a + b, name) == (has_header(a, name) || has_header(b, name)),
    decreases b.len(),
{
    if b.len() == 0 {
        assert(a + b == a);
    } else {
        lemma_has_header_append(a, b.drop_last(), name);
        assert((a + b).drop_last() == a + b.drop_last());
        assert((a + b).last() == b.last());
    }
}

/// A response header that the connection handles (`Content-Length`, `Transfer-Encoding`,
/// `Connection`, `Trailer`, `Accept-Ranges`, `Content-Range`, `Upgrade`, in any ASCII case) is
/// not copied: the head written with it is the head written without it. So the head holds one
/// `Content-Length` line, the one that gives the size of the body.
pub proof fn lemma_connection_header_not_written(
    status_code: u16,
    before: Seq<(Seq<char>, Seq<char>)>,
    name: Seq<char>,
    value: Seq<char>,
    after: Seq<(Seq<char>, Seq<char>)>,
    body_size: usize,
)
    requires
        eq_ignore_case(name, "Content-Length"@) || eq_ignore_case(name, "Transfer-Encoding"@)
            || eq_ignore_case(name, "Connection"@) || eq_ignore_case(name, "Trailer"@)
            || eq_ignore_case(name, "Accept-Ranges"@) || eq_ignore_case(name, "Content-Range"@)
            || eq_ignore_case(name, "Upgrade"@),
    ensures
        status_and_headers(status_code, before.push((name, value)) + after, body_size)
            == status_and_headers(status_code, before + after, body_size),
{
    reveal(is_connection_header);
    reveal_strlit("Content-Length");
    reveal_strlit("Transfer-Encoding");
    reveal_strlit("Connection");
    reveal_strlit("Trailer");
    reveal_strlit("Accept-Ranges");
    reveal_strlit("Content-Range");
    reveal_strlit("Upgrade");
    reveal_strlit("Server");
    reveal_strlit("Date");
    let one = seq![(name, value)];
    assert(before.push((name, value)) == before + one);
    assert(before + one + after == before + (one + after));
    lemma_header_lines_append(before, one + after);
    lemma_header_lines_append(one, after);
    lemma_header_lines_append(before, after);
    assert(one.drop_last() == Seq::<(Seq<char>, Seq<char>)>::empty());
    assert(one.last() == (name, value));
    assert(is_connection_header(name));
    assert(header_lines(Seq::<(Seq<char>, Seq<char>)>::empty()) == Seq::<u8>::empty());
    assert(header_lines(one) == Seq::<u8>::empty());
    assert(name.len() >= 7);
    assert(!eq_ignore_case(name, "Server"@));
    assert(!eq_ignore_case(name, "Date"@));
    assert(Seq::<u8>::empty() + header_lines(after) == header_lines(after));
    lemma_has_header_append(before, one + after, "Server"@);
    lemma_has_header_append(one, after, "Server"@);
    lemma_has_header_append(before, after, "Server"@);
    lemma_has_header_append(before, one + after, "Date"@);
    lemma_has_header_append(one, after, "Date"@);
    lemma_has_header_append(before, after, "Date"@);
    assert(!has_header(Seq::<(Seq<char>, Seq<char>)>::empty(), "Server"@));
    assert(!has_header(Seq::<(Seq<char>, Seq<char>)>::empty(), "Date"@));
    assert(!has_header(one, "Server"@));
    assert(!has_header(one, "Date"@));
}

/// Writes the status line and the headers of a response to `out`. The headers that the
/// connection handles itself are left out; `Server` and `Date` are added when missing, and
/// `Content-Length` gives the size of the body.
#[verifier::spinoff_prover]
#[verifier::rlimit(40)]
pub fn write_status_and_headers(
    out: &mut Vec<u8>,
    status_code: u16,
    headers: &[(String, String)],
    body_size: Option<usize>,
)
    requires
        body_size is Some,
    ensures
        final(out)@ == old(out)@ + status_and_headers(
            status_code,
            headers_view(headers@),
            body_size->0,
        ),
{
    let ghost hv = headers_view(headers@);
    push_bytes(out, "HTTP/1.1 ".as_bytes());
    push_decimal(out, status_code as u64);
    out.push(32u8);
    let phrase = default_reason_phrase(status_code);
    push_bytes(out, phrase.as_bytes());
    push_bytes(out, "\r\n".as_bytes());
    assert(out@ =~= old(out)@ + status_line(status_code));
    let ghost head = out@;
    let (found_server_header, found_date_header) = push_header_lines(out, headers);
    let ghost lines = out@;
    if !found_server_header {
        push_bytes(out, "Server: rouille\r\n".as_bytes());
    }
    if !found_date_header {
        push_bytes(out, "Date: TODO\r\n".as_bytes());
    }
    push_bytes(out, "Content-Length: ".as_bytes());
    let size = match body_size {
        Some(n) => n,
        None => 0,
    };
    push_decimal(out, size as u64);
    push_bytes(out, "\r\n".as_bytes());
    push_bytes(out, "\r\n".as_bytes());
    assert(out@ =~= lines + closing_headers(hv, size));
    assert(out@ =~= old(out)@ + status_and_headers(status_code, hv, size));
}

/// Writes the lines of the headers that a response passes on; says whether a `Server` and a
/// `Date` header were among them.
fn push_header_lines(out: &mut Vec<u8>, headers: &[(String, String)]) -> (r: (bool, bool))
    ensures
        final(out)@ == old(out)@ + header_lines(headers_view(headers@)),
        r.0 == has_header(headers_view(headers@), "Server"@),
        r.1 == has_header(headers_view(headers@), "Date"@),
{
    let ghost hv = headers_view(headers@);
    let mut found_server_header = false;
    let mut found_date_header = false;
    let mut i: usize = 0;
    while i < headers.len()
        invariant
            i <= headers@.len(),
            hv == headers_view(headers@),
            out@ == old(out)@ + header_lines(hv.take(i as int)),
            found_server_header == has_header(hv.take(i as int), "Server"@),
            found_date_header == has_header(hv.take(i as int), "Date"@),
        decreases headers@.len() - i,
    {
        let name = headers[i].0.as_str();
        let value = headers[i].1.as_str();
        assert(hv.take(i + 1).drop_last() == hv.take(i as int));
        assert(hv.take(i + 1).last() == (name@, value@));
        if !found_server_header && eq_ignore_ascii_case(name, "Server") {
            found_server_header = true;
        }
        if !found_date_header && eq_ignore_ascii_case(name, "Date") {
            found_date_header = true;
        }
        let skip = connection_header(name);
        if !skip {
            let ghost before = out@;
            push_bytes(out, name.as_bytes());
            push_bytes(out, ": ".as_bytes());
            push_bytes(out, value.as_bytes());
            push_bytes(out, "\r\n".as_bytes());
            assert(out@ =~= before + (vstd::utf8::encode_utf8(name@) + vstd::utf8::encode_utf8(": "@)
                + vstd::utf8::encode_utf8(value@) + vstd::utf8::encode_utf8("\r\n"@)));
        }
        i += 1;
    }
    assert(hv.take(headers@.len() as int) == hv);
    (found_server_header, found_date_header)
}

} // verus!

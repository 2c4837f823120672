//! A simpler connection handler that answers one request, in a thread of its own.
//!
//! It reads the request line and the headers, hands the request out to be answered
//! (`Step::StartHandler`), waits for the response (`Step::PollResponse` and
//! `SocketHandler::on_response`), then sends it in pieces of at most 256 bytes.

use vstd::prelude::*;
use crate::bytes::{drop_front, find_window, first_window, push_bytes};
use crate::decimal::{decimal, push_decimal};
use crate::request::{headers_view, request_from_parts, RequestView};
use crate::response::Response;
use crate::socket_handler::{
    header_block, parse_header_block, parse_request_text, request_line_spec, HttpVersion,
    ParsedHeaders, ParsedHeadersView, Received,
};
use crate::text::{bytes_range, string_of};
use crate::url_codec::string_from_utf8;
use crate::Request;

verus! {

/// Represents the communication between the `SocketHandler` and the outside.
///
/// The outside fills `pending_read_buffer` with incoming data and removes data from
/// `pending_write_buffer`, then calls `update`.
pub struct Update {
    /// Filled by the user of the handler. The data that comes from the client.
    pub pending_read_buffer: Vec<u8>,
    /// Offset within `pending_read_buffer` where new data is available. Everything before this
    /// offset was already in `pending_read_buffer` the last time `update` returned.
    pub new_data_start: usize,
    /// Set to false by the socket handler when it will no longer process incoming data. If both
    /// `accepts_read` is false and `pending_write_buffer` is empty, the socket can be dropped.
    pub accepts_read: bool,
    /// Filled by `update`. The data that must be sent back to the client.
    pub pending_write_buffer: Vec<u8>,
    /// Set by the socket handler when the user must call `update` once the handler's
    /// registration becomes ready. The user must then clear it.
    pub registration: bool,
}

impl Update {
    /// Builds an `Update` with nothing in it.
    pub fn empty() -> (u: Update)
        ensures
            u.pending_read_buffer@.len() == 0,
            u.new_data_start == 0,
            u.accepts_read,
            u.pending_write_buffer@.len() == 0,
            !u.registration,
    {
        Update {
            pending_read_buffer: Vec::new(),
            new_data_start: 0,
            accepts_read: true,
            pending_write_buffer: Vec::new(),
            registration: false,
        }
    }
}

/// State of the connection.
enum SocketHandlerState {
    WaitingForRqLine,
    WaitingForHeaders { method: String, path: String, version: HttpVersion },
    ExecutingHandler,
    SendingResponse { head: Vec<u8>, head_pos: usize, body: Vec<u8>, body_pos: usize },
    Closed,
}

/// The abstract state of the connection.
pub enum HandlerPhase {
    WaitingForRqLine,
    WaitingForHeaders { method: Seq<char>, path: Seq<char>, version: (u8, u8) },
    ExecutingHandler,
    /// The rest of the response still to send: what is left of the head, then of the body.
    SendingResponse { head: Seq<u8>, body: Seq<u8> },
    Closed,
}

/// Handles the processing of a client connection.
pub struct SocketHandler {
    state: SocketHandlerState,
    client_addr: Option<String>,
}

/// The abstract content of a `SocketHandler`.
pub struct SocketHandlerView {
    pub phase: HandlerPhase,
    /// The address of the client, until the request is handed out.
    pub client_addr: Option<Seq<char>>,
}

impl View for SocketHandler {
    type V = SocketHandlerView;

    closed spec fn view(&self) -> SocketHandlerView {
        SocketHandlerView {
            phase: match &self.state {
                SocketHandlerState::WaitingForRqLine => HandlerPhase::WaitingForRqLine,
                SocketHandlerState::WaitingForHeaders { method, path, version } =>
                    HandlerPhase::WaitingForHeaders {
                    method: method@,
                    path: path@,
                    version: (version.0, version.1),
                },
                SocketHandlerState::ExecutingHandler => HandlerPhase::ExecutingHandler,
                SocketHandlerState::SendingResponse { head, head_pos, body, body_pos } =>
                    HandlerPhase::SendingResponse {
                    head: head@.skip(*head_pos as int),
                    body: body@.skip(*body_pos as int),
                },
                SocketHandlerState::Closed => HandlerPhase::Closed,
            },
            client_addr: match &self.client_addr {
                Some(a) => Some(a@),
                None => None,
            },
        }
    }
}

impl SocketHandler {
    #[verifier::type_invariant]
    closed spec fn positions_in_range(&self) -> bool {
        match &self.state {
            SocketHandlerState::SendingResponse { head, head_pos, body, body_pos } => *head_pos
                <= head@.len() && *body_pos <= body@.len(),
            _ => true,
        }
    }
}

/// What the data of a client made impossible to go on with.
#[derive(Debug, Copy, Clone, PartialEq, Eq, Structural)]
pub enum HandlerError {
    /// The request line is not valid UTF-8, or is not a method, a path and an HTTP version.
    InvalidRequestLine,
    /// The header block is not valid.
    InvalidHeaders,
    /// The offset of the new data lies beyond the read buffer.
    OffsetOutOfRange,
    /// A second request arrived: this handler answers only one.
    AlreadyAnswered,
    /// The response asks to upgrade the connection, which this handler does not do.
    UpgradeRequested,
}

/// What the server must do after `update` or `on_response`.
pub enum Step {
    /// Nothing more for now.
    Done,
    /// A request is complete: have it answered in another thread, send the response through a
    /// channel and make the registration of the `Update` ready.
    StartHandler(Request),
    /// Poll the channel through which the response comes and pass what it gave to
    /// `on_response`.
    PollResponse,
}

/// The abstract content of a `Step`.
pub enum StepView {
    Done,
    StartHandler(RequestView),
    PollResponse,
}

impl View for Step {
    type V = StepView;

    open spec fn view(&self) -> StepView {
        match self {
            Step::Done => StepView::Done,
            Step::StartHandler(rq) => StepView::StartHandler(rq@),
            Step::PollResponse => StepView::PollResponse,
        }
    }
}

/// `\r\n`.
pub open spec fn crlf() -> Seq<u8> {
    seq![13u8, 10u8]
}

/// `\r\n\r\n`.
pub open spec fn crlf_crlf() -> Seq<u8> {
    seq![13u8, 10u8, 13u8, 10u8]
}

/// `n - k`, or 0 if `k` is larger.
pub open spec fn saturating_sub(n: nat, k: nat) -> nat {
    if n >= k {
        (n - k) as nat
    } else {
        0
    }
}

/// The abstract outcome of an `update`: the new state, the client's address that is left, the
/// new read buffer, whether a registration was handed out, and what the server must do.
pub struct UpdateOutcome {
    pub phase: HandlerPhase,
    pub client_addr: Option<Seq<char>>,
    pub read_buffer: Seq<u8>,
    pub registration: bool,
    pub step: StepView,
}

/// The update of a connection waiting for its headers.
pub open spec fn headers_phase(
    method: Seq<char>,
    path: Seq<char>,
    version: (u8, u8),
    buf: Seq<u8>,
    nds: nat,
    client_addr: Option<Seq<char>>,
    registration: bool,
) -> Result<UpdateOutcome, HandlerError> {
    let off = saturating_sub(nds, 3);
    if off > buf.len() {
        Err(HandlerError::OffsetOutOfRange)
    } else {
    match first_window(buf.skip(off as int), crlf_crlf()) {
        None => Ok(
            UpdateOutcome {
                phase: HandlerPhase::WaitingForHeaders { method, path, version },
                client_addr,
                read_buffer: buf,
                registration,
                step: StepView::Done,
            },
        ),
        Some(p) => if header_block(buf) is Invalid {
            Err(HandlerError::InvalidHeaders)
        } else {
            match client_addr {
                None => Err(HandlerError::AlreadyAnswered),
                Some(addr) => Ok(
                    UpdateOutcome {
                        phase: HandlerPhase::ExecutingHandler,
                        client_addr: None,
                        read_buffer: buf.skip(off + p + 4),
                        registration: true,
                        step: StepView::StartHandler(
                            RequestView {
                                method,
                                url: path,
                                headers: Seq::empty(),
                                https: false,
                                data: None,
                                remote_addr: addr,
                            },
                        ),
                    },
                ),
            }
        },
    }
    }
}

/// The update of a connection in state `phase`, before any piece of a response is sent.
pub open spec fn update_spec(
    phase: HandlerPhase,
    buf: Seq<u8>,
    nds: nat,
    client_addr: Option<Seq<char>>,
    registration: bool,
) -> Result<UpdateOutcome, HandlerError> {
    match phase {
        HandlerPhase::WaitingForRqLine => {
            let off = saturating_sub(nds, 1);
            if off > buf.len() {
                Err(HandlerError::OffsetOutOfRange)
            } else {
            match first_window(buf.skip(off as int), crlf()) {
                None => Ok(
                    UpdateOutcome {
                        phase,
                        client_addr,
                        read_buffer: buf,
                        registration,
                        step: StepView::Done,
                    },
                ),
                Some(rn) => {
                    let line = buf.take(off + rn);
                    if !vstd::utf8::valid_utf8(line) {
                        Err(HandlerError::InvalidRequestLine)
                    } else {
                        match request_line_spec(vstd::utf8::decode_utf8(line)) {
                            None => Err(HandlerError::InvalidRequestLine),
                            Some((m, p, v)) => headers_phase(
                                m,
                                p,
                                v,
                                buf.skip(off + rn + 2),
                                0,
                                client_addr,
                                registration,
                            ),
                        }
                    }
                },
            }
            }
        },
        HandlerPhase::WaitingForHeaders { method, path, version } => headers_phase(
            method,
            path,
            version,
            buf,
            nds,
            client_addr,
            registration,
        ),
        HandlerPhase::ExecutingHandler => Ok(
            UpdateOutcome {
                phase,
                client_addr,
                read_buffer: buf,
                registration,
                step: StepView::PollResponse,
            },
        ),
        _ => Ok(
            UpdateOutcome { phase, client_addr, read_buffer: buf, registration, step: StepView::Done },
        ),
    }
}

/// The head of a response as this handler writes it: the status line, then a line per header,
/// then an empty line.
pub open spec fn response_head(status_code: u16, h: Seq<(Seq<char>, Seq<char>)>) -> Seq<u8> {
    vstd::utf8::encode_utf8("HTTP/1.1 "@) + decimal(status_code as nat) + vstd::utf8::encode_utf8(
        " Ok\r\n"@,
    ) + plain_header_lines(h) + vstd::utf8::encode_utf8("\r\n"@)
}

/// The lines `name: value` of the headers, without those that the connection handles.
pub open spec fn plain_header_lines(h: Seq<(Seq<char>, Seq<char>)>) -> Seq<u8>
    decreases h.len(),
{
    if h.len() == 0 {
        Seq::empty()
    } else if crate::socket_handler::http1::is_connection_header(h.last().0) {
        plain_header_lines(h.drop_last())
    } else {
        plain_header_lines(h.drop_last()) + vstd::utf8::encode_utf8(h.last().0)
            + vstd::utf8::encode_utf8(": "@) + vstd::utf8::encode_utf8(h.last().1)
            + vstd::utf8::encode_utf8("\r\n"@)
    }
}

/// The size of the pieces in which a response is sent.
pub open spec fn chunk_len(rest: nat) -> nat {
    if rest < 256 {
        rest
    } else {
        256
    }
}

/// Writes the head of a response.
fn write_response_head(out: &mut Vec<u8>, status_code: u16, headers: &Vec<(String, String)>)
    ensures
        final(out)@ == old(out)@ + response_head(status_code, headers_view(headers@)),
{
    push_bytes(out, "HTTP/1.1 ".as_bytes());
    push_decimal(out, status_code as u64);
    push_bytes(out, " Ok\r\n".as_bytes());
    let ghost hv = headers_view(headers@);
    let ghost start = out@;
    let mut i: usize = 0;
    while i < headers.len()
        invariant
            i <= headers@.len(),
            hv == headers_view(headers@),
            out@ == start + plain_header_lines(hv.take(i as int)),
        decreases headers@.len() - i,
    {
        let name = headers[i].0.as_str();
        let value = headers[i].1.as_str();
        assert(hv.take(i + 1).drop_last() == hv.take(i as int));
        assert(hv.take(i + 1).last() == (name@, value@));
        if !crate::socket_handler::http1::connection_header(name) {
            let ghost before = out@;
            push_bytes(out, name.as_bytes());
            push_bytes(out, ": ".as_bytes());
            push_bytes(out, value.as_bytes());
            push_bytes(out, "\r\n".as_bytes());
            assert(out@ =~= before + (vstd::utf8::encode_utf8(name@) + vstd::utf8::encode_utf8(": "@)
                + vstd::utf8::encode_utf8(value@) + vstd::utf8::encode_utf8("\r\n"@)));
        }
        i += 1;
    }
    assert(hv.take(headers@.len() as int) == hv);
    push_bytes(out, "\r\n".as_bytes());
    assert(out@ =~= old(out)@ + response_head(status_code, hv));
}

impl SocketHandler {
    /// Starts handling a client connection; `client_addr` goes into the request.
    pub fn new(client_addr: String) -> (h: SocketHandler)
        ensures
            h@.phase == HandlerPhase::WaitingForRqLine,
            h@.client_addr == Some(client_addr@),
    {
        SocketHandler { state: SocketHandlerState::WaitingForRqLine, client_addr: Some(client_addr) }
    }

    /// Processes the data that arrived in the read buffer, or sends the next piece of the
    /// response.
    ///
    /// While a response is being sent, each call appends its next piece of at most 256 bytes
    /// (the head and the body are read separately) to the write buffer, and once it is all sent
    /// the connection waits for a request again. An error closes the handler: the connection
    /// must then be dropped.
    pub fn update(&mut self, update: &mut Update) -> (r: Result<Step, HandlerError>)
        ensures
            final(update).new_data_start == old(update).new_data_start,
            final(update).accepts_read == old(update).accepts_read,
            match old(self)@.phase {
                HandlerPhase::SendingResponse { head, body } => {
                    &&& r matches Ok(Step::Done)
                    &&& final(update).pending_read_buffer@ == old(update).pending_read_buffer@
                    &&& final(update).registration == old(update).registration
                    &&& final(self)@.client_addr == old(self)@.client_addr
                    &&& sent_piece(head, body, old(update).pending_write_buffer@,
                        final(update).pending_write_buffer@, final(self)@.phase)
                },
                _ => {
                    &&& final(update).pending_write_buffer@ == old(update).pending_write_buffer@
                    &&& r is Err ==> final(self)@.phase == HandlerPhase::Closed
                    &&& match r {
                        Ok(step) => update_spec(
                            old(self)@.phase,
                            old(update).pending_read_buffer@,
                            old(update).new_data_start as nat,
                            old(self)@.client_addr,
                            old(update).registration,
                        ) == Ok::<UpdateOutcome, HandlerError>(
                            UpdateOutcome {
                                phase: final(self)@.phase,
                                client_addr: final(self)@.client_addr,
                                read_buffer: final(update).pending_read_buffer@,
                                registration: final(update).registration,
                                step: step@,
                            },
                        ),
                        Err(e) => update_spec(
                            old(self)@.phase,
                            old(update).pending_read_buffer@,
                            old(update).new_data_start as nat,
                            old(self)@.client_addr,
                            old(update).registration,
                        ) == Err::<UpdateOutcome, HandlerError>(e),
                    }
                },
            },
    {
        proof {
            use_type_invariant(&*self);
        }
        let mut state = SocketHandlerState::Closed;
        std::mem::swap(&mut state, &mut self.state);
        match state {
            SocketHandlerState::WaitingForRqLine => {
                let nds = update.new_data_start;
                let off = if nds >= 1 { nds - 1 } else { 0 };
                if off > update.pending_read_buffer.len() {
                    return Err(HandlerError::OffsetOutOfRange);
                }
                let pat: Vec<u8> = vec![13u8, 10u8];
                let pat_s = pat.as_slice();
                assert(pat_s@ == crlf());
                let found = find_window(update.pending_read_buffer.as_slice(), off, pat_s);
                match found {
                    None => {
                        self.state = SocketHandlerState::WaitingForRqLine;
                        Ok(Step::Done)
                    },
                    Some(rn) => {
                        let n = update.pending_read_buffer.len();
                        assert(off + rn + 2 <= n);
                        let line = bytes_range(update.pending_read_buffer.as_slice(), 0, off + rn);
                        let text = match string_from_utf8(line) {
                            Ok(t) => t,
                            Err(_) => return Err(HandlerError::InvalidRequestLine),
                        };
                        let (method, path, version) = match parse_request_text(text.as_str()) {
                            Ok(parts) => parts,
                            Err(()) => return Err(HandlerError::InvalidRequestLine),
                        };
                        proof {
                            let b = old(update).pending_read_buffer@;
                            assert(line@ == b.take(off + rn));
                        }
                        drop_front(&mut update.pending_read_buffer, off + rn + 2);
                        self.waiting_for_headers(update, 0, method, path, version)
                    },
                }
            },
            SocketHandlerState::WaitingForHeaders { method, path, version } => {
                let nds = update.new_data_start;
                self.waiting_for_headers(update, nds, method, path, version)
            },
            SocketHandlerState::ExecutingHandler => {
                self.state = SocketHandlerState::ExecutingHandler;
                Ok(Step::PollResponse)
            },
            SocketHandlerState::SendingResponse { head, head_pos, body, body_pos } => {
                self.send_piece(update, head, head_pos, body, body_pos);
                Ok(Step::Done)
            },
            SocketHandlerState::Closed => {
                self.state = SocketHandlerState::Closed;
                Ok(Step::Done)
            },
        }
    }

    /// The part of `update` for a connection waiting for its headers.
    fn waiting_for_headers(
        &mut self,
        update: &mut Update,
        nds: usize,
        method: String,
        path: String,
        version: HttpVersion,
    ) -> (r: Result<Step, HandlerError>)
        ensures
            final(update).new_data_start == old(update).new_data_start,
            final(update).accepts_read == old(update).accepts_read,
            final(update).pending_write_buffer@ == old(update).pending_write_buffer@,
            r is Err ==> final(self)@.phase == old(self)@.phase,
            match r {
                Ok(step) => headers_phase(
                    method@,
                    path@,
                    (version.0, version.1),
                    old(update).pending_read_buffer@,
                    nds as nat,
                    old(self)@.client_addr,
                    old(update).registration,
                ) == Ok::<UpdateOutcome, HandlerError>(
                    UpdateOutcome {
                        phase: final(self)@.phase,
                        client_addr: final(self)@.client_addr,
                        read_buffer: final(update).pending_read_buffer@,
                        registration: final(update).registration,
                        step: step@,
                    },
                ),
                Err(e) => headers_phase(
                    method@,
                    path@,
                    (version.0, version.1),
                    old(update).pending_read_buffer@,
                    nds as nat,
                    old(self)@.client_addr,
                    old(update).registration,
                ) == Err::<UpdateOutcome, HandlerError>(e),
            },
    {
        proof {
            use_type_invariant(&*self);
        }
        let off = if nds >= 3 { nds - 3 } else { 0 };
        if off > update.pending_read_buffer.len() {
            return Err(HandlerError::OffsetOutOfRange);
        }
        let pat: Vec<u8> = vec![13u8, 10u8, 13u8, 10u8];
        let pat_s = pat.as_slice();
        assert(pat_s@ == crlf_crlf());
        let found = find_window(update.pending_read_buffer.as_slice(), off, pat_s);
        match found {
            None => {
                self.state = SocketHandlerState::WaitingForHeaders { method, path, version };
                Ok(Step::Done)
            },
            Some(p) => {
                let n = update.pending_read_buffer.len();
                assert(off + p + 4 <= n);
                match parse_header_block(update.pending_read_buffer.as_slice()) {
                    ParsedHeaders::Invalid => return Err(HandlerError::InvalidHeaders),
                    _ => {},
                }
                let addr = match &self.client_addr {
                    Some(a) => string_of(a.as_str()),
                    None => return Err(HandlerError::AlreadyAnswered),
                };
                self.client_addr = None;
                drop_front(&mut update.pending_read_buffer, off + p + 4);
                let no_headers: Vec<(String, String)> = Vec::new();
                assert(headers_view(no_headers@) =~= Seq::empty());
                let request = request_from_parts(method, path, no_headers, false, None, addr);
                update.registration = true;
                self.state = SocketHandlerState::ExecutingHandler;
                Ok(Step::StartHandler(request))
            },
        }
    }

    /// Appends the next piece of the response being sent to the write buffer.
    fn send_piece(
        &mut self,
        update: &mut Update,
        head: Vec<u8>,
        head_pos: usize,
        body: Vec<u8>,
        body_pos: usize,
    )
        requires
            head_pos <= head@.len(),
            body_pos <= body@.len(),
        ensures
            final(update).pending_read_buffer@ == old(update).pending_read_buffer@,
            final(update).new_data_start == old(update).new_data_start,
            final(update).accepts_read == old(update).accepts_read,
            final(update).registration == old(update).registration,
            final(self)@.client_addr == old(self)@.client_addr,
            sent_piece(
                head@.skip(head_pos as int),
                body@.skip(body_pos as int),
                old(update).pending_write_buffer@,
                final(update).pending_write_buffer@,
                final(self)@.phase,
            ),
    {
        let hl = head.len();
        let bl = body.len();
        if head_pos < hl {
            let n = if hl - head_pos < 256 { hl - head_pos } else { 256 };
            let piece = bytes_range(head.as_slice(), head_pos, head_pos + n);
            push_bytes(&mut update.pending_write_buffer, piece.as_slice());
            assert(head@.skip(head_pos as int).take(n as int) == piece@);
            assert(head@.skip(head_pos as int).skip(n as int) == head@.skip(head_pos + n));
            self.state = SocketHandlerState::SendingResponse {
                head,
                head_pos: head_pos + n,
                body,
                body_pos,
            };
        } else if body_pos < bl {
            let n = if bl - body_pos < 256 { bl - body_pos } else { 256 };
            let piece = bytes_range(body.as_slice(), body_pos, body_pos + n);
            push_bytes(&mut update.pending_write_buffer, piece.as_slice());
            assert(body@.skip(body_pos as int).take(n as int) == piece@);
            assert(body@.skip(body_pos as int).skip(n as int) == body@.skip(body_pos + n));
            self.state = SocketHandlerState::SendingResponse {
                head,
                head_pos,
                body,
                body_pos: body_pos + n,
            };
        } else {
            self.state = SocketHandlerState::WaitingForRqLine;
        }
    }

    /// Takes in what polling the response channel gave, while the request is being answered.
    ///
    /// A response is turned into its head and its body, and its first piece is sent at once;
    /// anything else leaves the connection waiting.
    pub fn on_response(&mut self, update: &mut Update, received: Received<Response>) -> (r: Result<
        (),
        HandlerError,
    >)
        requires
            old(self)@.phase is ExecutingHandler,
        ensures
            final(update).pending_read_buffer@ == old(update).pending_read_buffer@,
            final(update).new_data_start == old(update).new_data_start,
            final(update).accepts_read == old(update).accepts_read,
            final(update).registration == old(update).registration,
            final(self)@.client_addr == old(self)@.client_addr,
            match received {
                Received::Value(response) => if response.upgrade {
                    r is Err && r->Err_0 == HandlerError::UpgradeRequested
                } else {
                    &&& r is Ok
                    &&& sent_piece(
                        response_head(response.status_code, headers_view(response.headers@)),
                        response.data@.data,
                        old(update).pending_write_buffer@,
                        final(update).pending_write_buffer@,
                        final(self)@.phase,
                    )
                },
                _ => {
                    &&& r is Ok
                    &&& final(update).pending_write_buffer@ == old(update).pending_write_buffer@
                    &&& final(self)@.phase == old(self)@.phase
                },
            },
    {
        match received {
            Received::Value(response) => {
                if response.upgrade {
                    return Err(HandlerError::UpgradeRequested);
                }
                let mut head: Vec<u8> = Vec::new();
                write_response_head(&mut head, response.status_code, &response.headers);
                let (body, _) = response.data.into_inner();
                assert(head@.skip(0) == head@);
                assert(body@.skip(0) == body@);
                self.send_piece(update, head, 0, body, 0);
                Ok(())
            },
            _ => Ok(()),
        }
    }
}

/// Sending the next piece of a response whose unsent rest is `head` then `body` turned the
/// write buffer `before` into `after` and left the connection in state `phase`.
pub open spec fn sent_piece(
    head: Seq<u8>,
    body: Seq<u8>,
    before: Seq<u8>,
    after: Seq<u8>,
    phase: HandlerPhase,
) -> bool {
    if head.len() > 0 {
        let n = chunk_len(head.len()) as int;
        after == before + head.take(n) && phase == (HandlerPhase::SendingResponse {
            head: head.skip(n),
            body,
        })
    } else if body.len() > 0 {
        let n = chunk_len(body.len()) as int;
        after == before + body.take(n) && phase == (HandlerPhase::SendingResponse {
            head,
            body: body.skip(n),
        })
    } else {
        after == before && phase == HandlerPhase::WaitingForRqLine
    }
}

/// Sending a response piece by piece loses and repeats nothing: after each piece, what was
/// written plus what is left to send is what was written before plus the whole rest, and the
/// connection goes back to waiting for a request only once nothing is left.
pub proof fn lemma_sending_keeps_every_byte(
    head: Seq<u8>,
    body: Seq<u8>,
    before: Seq<u8>,
    after: Seq<u8>,
    phase: HandlerPhase,
)
    requires
        sent_piece(head, body, before, after, phase),
    ensures
        phase matches HandlerPhase::SendingResponse { head: h2, body: b2 } ==> after + h2 + b2
            == before + head + body && h2.len() + b2.len() < head.len() + body.len(),
        phase is WaitingForRqLine ==> head.len() == 0 && body.len() == 0 && after == before,
{
    if head.len() > 0 {
        let n = chunk_len(head.len()) as int;
        assert(head == head.take(n) + head.skip(n));
        assert(before + head.take(n) + head.skip(n) + body == before + head + body);
    } else if body.len() > 0 {
        let n = chunk_len(body.len()) as int;
        assert(body == body.take(n) + body.skip(n));
        assert(head =~= Seq::<u8>::empty());
        assert(before + body.take(n) + head + body.skip(n) == before + head + body);
    }
}

} // verus!

//! The decisions of the server's event loop: what to make of each outcome of reading and writing
//! a socket, and how to register a connection again once its handler has run.

use vstd::prelude::*;
use crate::bytes::{drop_front, push_bytes};
use crate::socket_handler::{RegistrationState, UpdateResult};

verus! {

/// What reading a socket, into a buffer of 256 bytes, gave.
#[derive(Debug, Copy, Clone, PartialEq, Eq, Structural)]
pub enum ReadOutcome {
    /// This many bytes were read.
    Data(usize),
    /// Interrupted before anything was read.
    Interrupted,
    /// Nothing more can be read for now.
    WouldBlock,
    /// Any other error.
    Failed,
}

/// What the server does next while reading a socket.
#[derive(Debug, Copy, Clone, PartialEq, Eq, Structural)]
pub enum IoAction {
    /// Read (or write) again.
    Continue,
    /// Stop, and go on with the connection.
    Stop,
    /// Drop the connection without registering it again.
    Drop,
}

/// Takes in one read of a stream: the bytes read go to the end of the read buffer. Reading goes
/// on until the stream is at its end (`Data(0)`) or would block; an error other than an
/// interruption drops the connection.
pub fn record_read(buffer: &mut Vec<u8>, chunk: &[u8], outcome: ReadOutcome) -> (a: IoAction)
    requires
        outcome matches ReadOutcome::Data(n) ==> n <= chunk@.len(),
    ensures
        match outcome {
            ReadOutcome::Data(n) => {
                &&& final(buffer)@ == old(buffer)@ + chunk@.take(n as int)
                &&& a == if n == 0 {
                    IoAction::Stop
                } else {
                    IoAction::Continue
                }
            },
            ReadOutcome::Interrupted => final(buffer)@ == old(buffer)@ && a == IoAction::Continue,
            ReadOutcome::WouldBlock => final(buffer)@ == old(buffer)@ && a == IoAction::Stop,
            ReadOutcome::Failed => final(buffer)@ == old(buffer)@ && a == IoAction::Drop,
        },
{
    match outcome {
        ReadOutcome::Data(n) => {
            let piece = crate::text::bytes_range(chunk, 0, n);
            push_bytes(buffer, piece.as_slice());
            if n == 0 {
                IoAction::Stop
            } else {
                IoAction::Continue
            }
        },
        ReadOutcome::Interrupted => IoAction::Continue,
        ReadOutcome::WouldBlock => IoAction::Stop,
        ReadOutcome::Failed => IoAction::Drop,
    }
}

/// What writing the write buffer to a socket gave.
#[derive(Debug, Copy, Clone, PartialEq, Eq, Structural)]
pub enum WriteOutcome {
    /// This many bytes, from the start of the buffer, were written.
    Written(usize),
    /// Interrupted before anything was written.
    Interrupted,
    /// Nothing more can be written for now.
    WouldBlock,
    /// Any other error.
    Failed,
}

/// Takes in one write to a stream: the bytes written leave the front of the write buffer.
/// Writing goes on while there is something to write; a write of nothing or one that would
/// block stops it, and an error other than an interruption drops the connection.
pub fn record_write(buffer: &mut Vec<u8>, outcome: WriteOutcome) -> (a: IoAction)
    requires
        outcome matches WriteOutcome::Written(n) ==> n <= old(buffer)@.len(),
    ensures
        match outcome {
            WriteOutcome::Written(n) => {
                &&& final(buffer)@ == old(buffer)@.skip(n as int)
                &&& a == if n == 0 || final(buffer)@.len() == 0 {
                    IoAction::Stop
                } else {
                    IoAction::Continue
                }
            },
            WriteOutcome::Interrupted => final(buffer)@ == old(buffer)@ && a == IoAction::Continue,
            WriteOutcome::WouldBlock => final(buffer)@ == old(buffer)@ && a == IoAction::Stop,
            WriteOutcome::Failed => final(buffer)@ == old(buffer)@ && a == IoAction::Drop,
        },
{
    match outcome {
        WriteOutcome::Written(n) => {
            if n == 0 {
                return IoAction::Stop;
            }
            drop_front(buffer, n);
            if buffer.len() == 0 {
                IoAction::Stop
            } else {
                IoAction::Continue
            }
        },
        WriteOutcome::Interrupted => IoAction::Continue,
        WriteOutcome::WouldBlock => IoAction::Stop,
        WriteOutcome::Failed => IoAction::Drop,
    }
}

/// What a socket is registered for.
#[derive(Debug, Copy, Clone, PartialEq, Eq, Structural)]
pub struct Interest {
    pub readable: bool,
    pub writable: bool,
}

/// A stream is watched for reading while its handler still reads, and for writing while there
/// is data to send.
pub open spec fn interest_spec(read_closed: bool, write_pending: bool) -> Interest {
    Interest { readable: !read_closed, writable: write_pending }
}

/// What a stream is registered for next.
pub fn stream_interest(read_closed: bool, write_pending: bool) -> (i: Interest)
    ensures
        i == interest_spec(read_closed, write_pending),
{
    Interest { readable: !read_closed, writable: write_pending }
}

/// Whether a stream is registered for anything.
pub open spec fn is_empty_interest(i: Interest) -> bool {
    !i.readable && !i.writable
}

/// What the server does with a stream after its handler has run.
#[derive(Debug, Copy, Clone, PartialEq, Eq, Structural)]
pub struct Reregistration {
    /// The handler will read no more.
    pub read_closed: bool,
    /// Flushing the data written so far was suggested.
    pub write_flush_suggested: bool,
    /// The handler's registration, to register (or register again), watching for both
    /// reading and writing.
    pub registration: Option<RegistrationState>,
    /// What the stream itself is registered for again, if anything.
    pub stream: Option<Interest>,
    /// The connection is kept; otherwise it is dropped.
    pub keep: bool,
}

/// How a stream is registered again once its handler has run.
pub open spec fn reregistration_spec(
    read_closed: bool,
    write_flush_suggested: bool,
    result: UpdateResult,
    write_pending: bool,
) -> Reregistration {
    let closed = read_closed || result.close_read;
    let interest = interest_spec(closed, write_pending);
    let stream = if is_empty_interest(interest) {
        None
    } else {
        Some(interest)
    };
    Reregistration {
        read_closed: closed,
        write_flush_suggested: write_flush_suggested || result.write_flush_suggested,
        registration: result.registration,
        stream,
        keep: result.registration is Some || stream is Some,
    }
}

/// Decides how a stream is registered again once its handler has run: the flags that the
/// handler raised stay raised, the handler's registration is passed on, the stream is watched
/// for what it still needs, and a stream that needs nothing and has no registration is dropped.
pub fn after_handler_update(
    read_closed: bool,
    write_flush_suggested: bool,
    result: &UpdateResult,
    write_pending: bool,
) -> (r: Reregistration)
    ensures
        r == reregistration_spec(read_closed, write_flush_suggested, *result, write_pending),
{
    let read_closed = read_closed || result.close_read;
    let write_flush_suggested = write_flush_suggested || result.write_flush_suggested;
    let interest = stream_interest(read_closed, write_pending);
    let stream = if !interest.readable && !interest.writable {
        None
    } else {
        Some(interest)
    };
    let keep = result.registration.is_some() || stream.is_some();
    Reregistration {
        read_closed,
        write_flush_suggested,
        registration: result.registration,
        stream,
        keep,
    }
}

/// What a stream is registered for after a write, or `None` if it is dropped: it is watched
/// for reading while its handler reads and for writing while data is left.
pub fn after_write(read_closed: bool, write_pending: bool) -> (r: Option<Interest>)
    ensures
        r == (if is_empty_interest(interest_spec(read_closed, write_pending)) {
            None
        } else {
            Some(interest_spec(read_closed, write_pending))
        }),
{
    let interest = stream_interest(read_closed, write_pending);
    if !interest.readable && !interest.writable {
        None
    } else {
        Some(interest)
    }
}

/// What accepting a connection on a listener gave.
#[derive(Debug, Copy, Clone, PartialEq, Eq, Structural)]
pub enum AcceptOutcome {
    /// A connection was accepted.
    Accepted,
    /// No connection is waiting.
    WouldBlock,
    /// Any other error.
    Failed,
}

/// A listener accepts connections until none is waiting, then is registered again; an error
/// drops it.
pub fn after_accept(outcome: AcceptOutcome) -> (a: IoAction)
    ensures
        a == match outcome {
            AcceptOutcome::Accepted => IoAction::Continue,
            AcceptOutcome::WouldBlock => IoAction::Stop,
            AcceptOutcome::Failed => IoAction::Drop,
        },
{
    match outcome {
        AcceptOutcome::Accepted => IoAction::Continue,
        AcceptOutcome::WouldBlock => IoAction::Stop,
        AcceptOutcome::Failed => IoAction::Drop,
    }
}

/// A connection is dropped exactly when nothing is left to do with it: its handler reads no
/// more, no data waits to be written, and the handler handed out no registration.
pub proof fn lemma_dropped_exactly_when_idle(
    read_closed: bool,
    write_flush_suggested: bool,
    result: UpdateResult,
    write_pending: bool,
)
    ensures
        !reregistration_spec(read_closed, write_flush_suggested, result, write_pending).keep <==> (
        (read_closed || result.close_read) && !write_pending && result.registration is None),
{
}

} // verus!

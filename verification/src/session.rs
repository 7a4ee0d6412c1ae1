//! The per-connection state machine.
//!
//! A connection serves exactly one request: it starts out awaiting the
//! request bytes, stores the assembled response, awaits writability,
//! and is destroyed once the response is written — no reuse. The
//! socket itself lives with the reactor; the library keeps the phase
//! and the buffered response, and classifies each read result the way
//! the read loop acts on it.

use vstd::prelude::*;
use crate::errors::IoErrorKind;

verus! {

/// A connection's lifecycle phase.
#[derive(Clone, Copy, PartialEq, Eq, Structural, Debug)]
pub enum SessionPhase {
    /// The request has not been read yet.
    AwaitingRequest,
    /// The response is buffered and waits for the socket to be writable.
    AwaitingWrite,
}

/// A connection's state: its phase and, once assembled, its response.
pub struct Session {
    pub phase: SessionPhase,
    pub response: Option<Vec<u8>>,
}

/// How the read loop acts on one socket read's result.
#[derive(Clone, Copy, PartialEq, Eq, Structural, Debug)]
pub enum ReadStep {
    /// Some bytes arrived; keep reading.
    Grew,
    /// The request is complete: the peer closed, or the socket has
    /// nothing more without blocking.
    Complete,
    /// A signal interrupted the read; read again at once.
    Retry,
    /// The connection failed; tear it down.
    Abort,
}

impl Session {
    /// A fresh connection: awaiting its request, no response yet.
    pub fn new() -> (s: Session)
        ensures
            s.phase is AwaitingRequest,
            s.response is None,
    {
        Session { phase: SessionPhase::AwaitingRequest, response: None }
    }

    /// Stores the assembled response and moves the connection to the
    /// write phase.
    pub fn store_response(&mut self, response: Vec<u8>)
        requires
            old(self).phase is AwaitingRequest,
        ensures
            final(self).phase is AwaitingWrite,
            final(self).response == Some(response),
    {
        self.phase = SessionPhase::AwaitingWrite;
        self.response = Some(response);
    }
}

/// Decides how a finished read loop ends: a request arrived only when
/// at least one byte did. An immediate end of input with no bytes at
/// all is a connection error — the peer vanished, not an orderly
/// close — and tears the connection down.
pub fn request_received(bytes_read: usize) -> (r: bool)
    ensures
        r == (bytes_read != 0),
{
    bytes_read != 0
}

/// Classifies one socket read: zero bytes end the request, bytes keep
/// the loop going, an interruption is retried, exhaustion ends the
/// request, and every other error tears the connection down.
pub fn classify_read(result: &Result<usize, IoErrorKind>) -> (r: ReadStep)
    ensures
        match result {
            Ok(n) => r == (if *n == 0 {
                ReadStep::Complete
            } else {
                ReadStep::Grew
            }),
            Err(kind) => r == (match kind {
                IoErrorKind::Interrupted => ReadStep::Retry,
                IoErrorKind::WouldBlock => ReadStep::Complete,
                _ => ReadStep::Abort,
            }),
        },
{
    match result {
        Ok(n) => if *n == 0 {
            ReadStep::Complete
        } else {
            ReadStep::Grew
        },
        Err(kind) => match kind {
            IoErrorKind::Interrupted => ReadStep::Retry,
            IoErrorKind::WouldBlock => ReadStep::Complete,
            _ => ReadStep::Abort,
        },
    }
}

} // verus!

//! The server's error taxonomy.
//!
//! Kinds, not types: a peer that closes or resets its connection and a read
//! that exceeds its timeout are the two ordinary ways a session ends, and
//! are told apart from real failures so that they are never escalated. A
//! poisoned lock is serious but survivable; a failed queue primitive is
//! irrecoverable for the operation that hit it; `Idle` is an internal
//! control-flow signal meaning "no connection ready right now" and is never
//! surfaced to users.

use vstd::prelude::*;

verus! {

#[derive(Debug, Clone, Copy, PartialEq, Eq, Structural)]
pub enum ServerErrorKind {
    ProtocolViolation,
    ClientDisconnected,
    ClientNotFound,
    Timeout,
    PoisonedLock,
    Irrecoverable,
    Idle,
    Other,
}

#[derive(Debug)]
pub struct ServerError {
    msg: String,
    kind: ServerErrorKind,
}

/// What the server reads from a failed transport operation: the kind of
/// the underlying I/O failure, as the platform reports it.
#[derive(Debug, Clone, Copy, PartialEq, Eq, Structural)]
pub enum IoFailure {
    UnexpectedEof,
    NotConnected,
    BrokenPipe,
    ConnectionReset,
    WouldBlock,
    Other,
}

/// The kind a transport failure maps to: a vanished peer is an ordinary
/// disconnect, an elapsed read deadline is a timeout, anything else is
/// unclassified.
pub open spec fn spec_kind_of_io(failure: IoFailure) -> ServerErrorKind {
    match failure {
        IoFailure::UnexpectedEof => ServerErrorKind::ClientDisconnected,
        IoFailure::NotConnected => ServerErrorKind::ClientDisconnected,
        IoFailure::BrokenPipe => ServerErrorKind::ClientDisconnected,
        IoFailure::ConnectionReset => ServerErrorKind::ClientDisconnected,
        IoFailure::WouldBlock => ServerErrorKind::Timeout,
        IoFailure::Other => ServerErrorKind::Other,
    }
}

impl ServerError {
    pub closed spec fn spec_msg(&self) -> Seq<char> {
        self.msg@
    }

    pub closed spec fn spec_kind(&self) -> ServerErrorKind {
        self.kind
    }

    /// An unclassified error carrying only its account.
    pub fn new_msg(msg: String) -> (r: ServerError)
        ensures
            r.spec_msg() == msg@,
            r.spec_kind() == ServerErrorKind::Other,
    {
        ServerError { msg, kind: ServerErrorKind::Other }
    }

    /// An error of a chosen kind.
    pub fn new_kind(msg: String, kind: ServerErrorKind) -> (r: ServerError)
        ensures
            r.spec_msg() == msg@,
            r.spec_kind() == kind,
    {
        ServerError { msg, kind }
    }

    pub fn kind(&self) -> (r: ServerErrorKind)
        ensures
            r == self.spec_kind(),
    {
        self.kind
    }

    /// The human-readable account of the failure.
    pub fn message(&self) -> (r: &String)
        ensures
            r@ == self.spec_msg(),
    {
        &self.msg
    }

    /// Classifies a transport failure: a vanished peer and an elapsed read
    /// deadline get their own kinds and fixed messages; anything else keeps
    /// the platform's account and stays unclassified.
    pub fn from_io(failure: IoFailure, detail: String) -> (r: ServerError)
        ensures
            r.spec_kind() == spec_kind_of_io(failure),
            r.spec_kind() == ServerErrorKind::ClientDisconnected ==> r.spec_msg()
                == "Unexpected disconnection"@,
            r.spec_kind() == ServerErrorKind::Timeout ==> r.spec_msg() == "Connection timeout"@,
            r.spec_kind() == ServerErrorKind::Other ==> r.spec_msg() == detail@,
    {
        match failure {
            IoFailure::UnexpectedEof | IoFailure::NotConnected | IoFailure::BrokenPipe
            | IoFailure::ConnectionReset => ServerError::new_kind(
                "Unexpected disconnection".to_owned(),
                ServerErrorKind::ClientDisconnected,
            ),
            IoFailure::WouldBlock => ServerError::new_kind(
                "Connection timeout".to_owned(),
                ServerErrorKind::Timeout,
            ),
            IoFailure::Other => ServerError::new_msg(detail),
        }
    }

    /// The error for a lock whose holder panicked: serious, logged, but
    /// the server keeps running.
    pub fn from_poisoned_lock(detail: String) -> (r: ServerError)
        ensures
            r.spec_kind() == ServerErrorKind::PoisonedLock,
            r.spec_msg() == detail@,
    {
        ServerError::new_kind(detail, ServerErrorKind::PoisonedLock)
    }

    /// The error for a failed pool primitive: irrecoverable for the
    /// operation that hit it.
    pub fn from_pool_failure(detail: String) -> (r: ServerError)
        ensures
            r.spec_kind() == ServerErrorKind::Irrecoverable,
            r.spec_msg() == detail@,
    {
        ServerError::new_kind(detail, ServerErrorKind::Irrecoverable)
    }

    /// True for the two ordinary ways a session ends — the peer went away
    /// or its read deadline elapsed — which are never escalated.
    pub fn is_expected_session_end(&self) -> (r: bool)
        ensures
            r == (self.spec_kind() == ServerErrorKind::ClientDisconnected || self.spec_kind()
                == ServerErrorKind::Timeout),
    {
        self.kind == ServerErrorKind::ClientDisconnected || self.kind == ServerErrorKind::Timeout
    }
}

} // verus!

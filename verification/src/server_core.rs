//! The server's lifecycle: accept loop, session dispatch, controller.
//!
//! The accept loop moves through `Starting → Accepting → Stopping →
//! Stopped`. While accepting, it never blocks on the listener: a ready
//! connection is handed to a freshly spawned session thread, "no
//! connection ready" means sleeping one poll interval, any other accept
//! failure is fatal and stops the loop, and the shutdown flag is honoured
//! before every attempt. The controller is consumed exactly once to shut
//! the server down, so double-shutdown is impossible by construction. The
//! threads, the listener and the clock live with the embedding program;
//! verified here is every decision the loop takes.

use vstd::prelude::*;
use crate::machine::Machine;
use crate::machine::filled_level;
use crate::machine::MACHINE_CAPACITY;
use crate::protocol::ClientMessage;
use crate::protocol::ServerMessage;
use crate::server_error::ServerError;
use crate::server_error::ServerErrorKind;
use crate::server_error::IoFailure;
use crate::server_error::spec_kind_of_io;

verus! {

#[derive(Debug, Clone, Copy, PartialEq, Eq, Structural)]
pub enum ServerPhase {
    Starting,
    Accepting,
    Stopping,
    Stopped,
}

/// What one accept attempt observed: a connection, nothing ready right
/// now, or a fatal listener failure.
#[derive(Debug, Clone, Copy, PartialEq, Eq, Structural)]
pub enum AcceptEvent {
    Connection,
    NoneReady,
    Failed,
}

/// What the accept loop must do next.
#[derive(Debug, Clone, Copy, PartialEq, Eq, Structural)]
pub enum AcceptDirective {
    /// Hand the new connection to a fresh session thread.
    SpawnSession,
    /// Sleep one poll interval, then try again.
    Sleep,
    /// Leave the loop and begin the shutdown sweep.
    StopAccepting,
}

/// How a session acts on what it received.
#[derive(Debug, Clone, Copy, PartialEq, Eq, Structural)]
pub enum SessionDirective {
    /// Send this reply and keep the session going.
    Reply(ServerMessage),
    /// End the session without noise: a quit, a disconnect or a timeout.
    CloseQuietly,
    /// End the session and log the failure.
    CloseLogged,
}

/// The server core: its lifecycle phase and the shared domain resource
/// every session mutates under one lock.
pub struct ServerCore {
    phase: ServerPhase,
    machine: Machine,
}

impl ServerCore {
    pub closed spec fn spec_phase(&self) -> ServerPhase {
        self.phase
    }

    pub closed spec fn inv(&self) -> bool {
        self.machine.inv()
    }

    /// The resource level all sessions share.
    pub closed spec fn spec_level(&self) -> u32 {
        self.machine.spec_pool()
    }

    /// The level right now, for the caller's chance rule.
    pub fn current_level(&self) -> (r: u32)
        ensures
            r == self.spec_level(),
    {
        self.machine.get_pool()
    }

    /// A server about to bind its listener, with the machine holding the
    /// configured initial coins.
    pub fn new(initial_coins: u32) -> (r: Result<ServerCore, &'static str>)
        ensures
            r is Ok <==> initial_coins <= MACHINE_CAPACITY,
            r is Ok ==> r->Ok_0.spec_phase() == ServerPhase::Starting && r->Ok_0.spec_level()
                == initial_coins && r->Ok_0.inv(),
    {
        let machine = Machine::with(initial_coins)?;
        Ok(ServerCore { phase: ServerPhase::Starting, machine })
    }

    /// The listener is bound and non-blocking, and readiness has been
    /// signalled to the caller: the loop may accept.
    pub fn listener_bound(&mut self)
        requires
            old(self).spec_phase() == ServerPhase::Starting,
        ensures
            final(self).spec_phase() == ServerPhase::Accepting,
            final(self).spec_level() == old(self).spec_level(),
            final(self).inv() == old(self).inv(),
    {
        self.phase = ServerPhase::Accepting;
    }

    /// One turn of the accept loop. The shutdown flag is read first: once
    /// it is set no further connection is admitted, whatever the listener
    /// had ready. Otherwise a connection spawns a session, an idle
    /// listener means one poll-interval sleep, and any other failure is
    /// fatal.
    pub fn accept_step(&mut self, shutdown: bool, event: AcceptEvent) -> (r: AcceptDirective)
        requires
            old(self).spec_phase() == ServerPhase::Accepting,
        ensures
            final(self).spec_level() == old(self).spec_level(),
            final(self).inv() == old(self).inv(),
            shutdown ==> final(self).spec_phase() == ServerPhase::Stopping && r
                == AcceptDirective::StopAccepting,
            !shutdown ==> match event {
                AcceptEvent::Connection => final(self).spec_phase() == ServerPhase::Accepting && r
                    == AcceptDirective::SpawnSession,
                AcceptEvent::NoneReady => final(self).spec_phase() == ServerPhase::Accepting && r
                    == AcceptDirective::Sleep,
                AcceptEvent::Failed => final(self).spec_phase() == ServerPhase::Stopping && r
                    == AcceptDirective::StopAccepting,
            },
    {
        if shutdown {
            self.phase = ServerPhase::Stopping;
            return AcceptDirective::StopAccepting;
        }
        match event {
            AcceptEvent::Connection => AcceptDirective::SpawnSession,
            AcceptEvent::NoneReady => AcceptDirective::Sleep,
            AcceptEvent::Failed => {
                self.phase = ServerPhase::Stopping;
                AcceptDirective::StopAccepting
            },
        }
    }

    /// The joiner owned by the loop has been dropped and every session
    /// thread joined: the server is down.
    pub fn sessions_swept(&mut self)
        requires
            old(self).spec_phase() == ServerPhase::Stopping,
        ensures
            final(self).spec_phase() == ServerPhase::Stopped,
            final(self).spec_level() == old(self).spec_level(),
            final(self).inv() == old(self).inv(),
    {
        self.phase = ServerPhase::Stopped;
    }

    /// Dispatches one decoded request against the shared resource, inside
    /// the caller's critical section. An insert raises the level by one
    /// (capped) and releases `fell` coins, decided by the chance rule
    /// outside; a consult reports the level; a quit ends the session with
    /// no reply.
    pub fn process_message(&mut self, msg: ClientMessage, fell: u32) -> (r: Option<ServerMessage>)
        requires
            old(self).inv(),
            msg is Insert ==> fell <= filled_level(old(self).spec_level()),
        ensures
            final(self).inv(),
            final(self).spec_phase() == old(self).spec_phase(),
            match msg {
                ClientMessage::Insert => r == Some(ServerMessage::FellCoins(fell)) && final(self).spec_level() == filled_level(old(self).spec_level()) - fell,
                ClientMessage::ConsultPool => r == Some(
                    ServerMessage::PoolState(old(self).spec_level()),
                ) && final(self).spec_level() == old(self).spec_level(),
                ClientMessage::Quit => r is None && final(self).spec_level() == old(self).spec_level(),
            },
    {
        match msg {
            ClientMessage::Insert => {
                let released = self.machine.insert_coin(fell);
                Some(ServerMessage::FellCoins(released))
            },
            ClientMessage::ConsultPool => Some(ServerMessage::PoolState(self.machine.get_pool())),
            ClientMessage::Quit => None,
        }
    }

    /// One turn of a session loop: a decoded request is dispatched and
    /// answered; a quit, a disconnect and a timeout end the session
    /// quietly; any other failure ends it and is logged. No error ever
    /// leaves the session.
    pub fn session_step(&mut self, incoming: Result<ClientMessage, ServerError>, fell: u32) -> (r:
        SessionDirective)
        requires
            old(self).inv(),
            incoming == Result::<ClientMessage, ServerError>::Ok(ClientMessage::Insert) ==> fell
                <= filled_level(old(self).spec_level()),
        ensures
            final(self).inv(),
            final(self).spec_phase() == old(self).spec_phase(),
            match incoming {
                Ok(msg) => match msg {
                    ClientMessage::Insert => r == SessionDirective::Reply(
                        ServerMessage::FellCoins(fell),
                    ) && final(self).spec_level() == filled_level(old(self).spec_level()) - fell,
                    ClientMessage::ConsultPool => r == SessionDirective::Reply(
                        ServerMessage::PoolState(old(self).spec_level()),
                    ) && final(self).spec_level() == old(self).spec_level(),
                    ClientMessage::Quit => r == SessionDirective::CloseQuietly && final(self).spec_level() == old(self).spec_level(),
                },
                Err(e) => final(self).spec_level() == old(self).spec_level() && r == if e.spec_kind()
                    == ServerErrorKind::ClientDisconnected || e.spec_kind()
                    == ServerErrorKind::Timeout {
                    SessionDirective::CloseQuietly
                } else {
                    SessionDirective::CloseLogged
                },
            },
    {
        match incoming {
            Ok(msg) => match self.process_message(msg, fell) {
                Some(reply) => SessionDirective::Reply(reply),
                None => SessionDirective::CloseQuietly,
            },
            Err(e) => {
                if e.is_expected_session_end() {
                    SessionDirective::CloseQuietly
                } else {
                    SessionDirective::CloseLogged
                }
            },
        }
    }
}

/// Classifies a failed accept attempt: an idle listener is the internal
/// `Idle` signal, never surfaced to users; anything else keeps the
/// transport classification.
pub fn classify_accept_failure(failure: IoFailure, detail: String) -> (r: ServerError)
    ensures
        failure is WouldBlock ==> r.spec_kind() == ServerErrorKind::Idle && r.spec_msg()
            == "Idle"@,
        !(failure is WouldBlock) ==> r.spec_kind() == spec_kind_of_io(failure),
{
    match failure {
        IoFailure::WouldBlock => ServerError::new_kind("Idle".to_owned(), ServerErrorKind::Idle),
        _ => ServerError::from_io(failure, detail),
    }
}

/// The lifecycle handle held by whoever started the server. Shutting down
/// consumes it, so a second shutdown cannot be expressed; its record shows
/// the flag was raised and the accept-loop thread joined, in that order.
pub struct ControllerCore {
    shutdown_signaled: bool,
    accept_thread_joined: bool,
}

impl ControllerCore {
    pub closed spec fn spec_signaled(&self) -> bool {
        self.shutdown_signaled
    }

    pub closed spec fn spec_joined(&self) -> bool {
        self.accept_thread_joined
    }

    /// The handle for a freshly started server: nothing signalled yet.
    pub fn new() -> (r: ControllerCore)
        ensures
            !r.spec_signaled(),
            !r.spec_joined(),
    {
        ControllerCore { shutdown_signaled: false, accept_thread_joined: false }
    }

    /// Shuts the server down: raises the shared flag, then blocks joining
    /// the accept-loop thread. Consuming `self` is what makes
    /// double-shutdown impossible.
    pub fn close(self) -> (r: ControllerCore)
        ensures
            r.spec_signaled(),
            r.spec_joined(),
    {
        let signaled = ControllerCore { shutdown_signaled: true, ..self };
        ControllerCore { accept_thread_joined: true, ..signaled }
    }
}

} // verus!

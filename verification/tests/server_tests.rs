use coin_server::protocol::{encode_server_msg, ClientMessage, ServerMessage};
use coin_server::server_core::{
    classify_accept_failure, AcceptDirective, AcceptEvent, ControllerCore, ServerCore,
    SessionDirective,
};
use coin_server::server_error::{IoFailure, ServerError, ServerErrorKind};

#[test]
fn end_to_end_session_scenario() {
    // A server starts with 200 coins and a client connects.
    let mut server = ServerCore::new(200).unwrap();
    server.listener_bound();
    let spawned = server.accept_step(false, AcceptEvent::Connection);
    assert_eq!(spawned, AcceptDirective::SpawnSession);

    // The client sends 't'; no coins fall this time: the reply is
    // 'f' + "00000" and the level was incremented by one beforehand.
    let reply = server.process_message(ClientMessage::Insert, 0).unwrap();
    assert_eq!(reply, ServerMessage::FellCoins(0));
    assert_eq!(encode_server_msg(reply).unwrap(), "f00000".as_bytes());

    // Another 't', and this time 7 coins fall: a nonzero amount,
    // consistent with the level having been incremented first.
    let reply = server.process_message(ClientMessage::Insert, 7).unwrap();
    assert_eq!(reply, ServerMessage::FellCoins(7));
    assert_eq!(encode_server_msg(reply).unwrap(), "f00007".as_bytes());

    // 'y' reports the current level: 200 + 1 + 1 - 7.
    let reply = server.process_message(ClientMessage::ConsultPool, 0).unwrap();
    assert_eq!(reply, ServerMessage::PoolState(195));
    assert_eq!(encode_server_msg(reply).unwrap(), "p00195".as_bytes());

    // 'q' ends the session with no reply.
    assert!(server.process_message(ClientMessage::Quit, 0).is_none());
}

#[test]
fn idle_server_shuts_down_within_one_poll_turn() {
    // No job submitted, no connection ever accepted: the next accept
    // turn after the flag is raised already leaves the loop, and the
    // controller completes.
    let mut server = ServerCore::new(0).unwrap();
    server.listener_bound();
    let idle = server.accept_step(false, AcceptEvent::NoneReady);
    assert_eq!(idle, AcceptDirective::Sleep);
    let halt = server.accept_step(true, AcceptEvent::NoneReady);
    assert_eq!(halt, AcceptDirective::StopAccepting);
    server.sessions_swept();
    let _done = ControllerCore::new().close();
}

#[test]
fn a_fatal_accept_error_stops_the_loop() {
    let mut server = ServerCore::new(0).unwrap();
    server.listener_bound();
    let halt = server.accept_step(false, AcceptEvent::Failed);
    assert_eq!(halt, AcceptDirective::StopAccepting);
    server.sessions_swept();
}

#[test]
fn shutdown_ignores_a_pending_connection() {
    let mut server = ServerCore::new(0).unwrap();
    server.listener_bound();
    let halt = server.accept_step(true, AcceptEvent::Connection);
    assert_eq!(halt, AcceptDirective::StopAccepting);
}

#[test]
fn session_ends_quietly_on_quit_disconnect_and_timeout() {
    let mut server = ServerCore::new(10).unwrap();
    assert_eq!(
        server.session_step(Ok(ClientMessage::Quit), 0),
        SessionDirective::CloseQuietly
    );
    let disconnected = ServerError::from_io(IoFailure::ConnectionReset, String::new());
    assert_eq!(
        server.session_step(Err(disconnected), 0),
        SessionDirective::CloseQuietly
    );
    let timed_out = ServerError::from_io(IoFailure::WouldBlock, String::new());
    assert_eq!(
        server.session_step(Err(timed_out), 0),
        SessionDirective::CloseQuietly
    );
}

#[test]
fn session_logs_other_failures_and_replies_to_requests() {
    let mut server = ServerCore::new(10).unwrap();
    let odd = ServerError::new_msg("something else".to_string());
    assert_eq!(server.session_step(Err(odd), 0), SessionDirective::CloseLogged);
    assert_eq!(
        server.session_step(Ok(ClientMessage::ConsultPool), 0),
        SessionDirective::Reply(ServerMessage::PoolState(10))
    );
    assert_eq!(
        server.session_step(Ok(ClientMessage::Insert), 11),
        SessionDirective::Reply(ServerMessage::FellCoins(11))
    );
}

#[test]
fn accept_failures_are_classified() {
    let idle = classify_accept_failure(IoFailure::WouldBlock, String::new());
    assert_eq!(idle.kind(), ServerErrorKind::Idle);
    assert_eq!(idle.message(), "Idle");

    let reset = classify_accept_failure(IoFailure::ConnectionReset, String::new());
    assert_eq!(reset.kind(), ServerErrorKind::ClientDisconnected);
}

#[test]
fn io_failures_map_to_their_kinds() {
    for f in [
        IoFailure::UnexpectedEof,
        IoFailure::NotConnected,
        IoFailure::BrokenPipe,
        IoFailure::ConnectionReset,
    ] {
        let e = ServerError::from_io(f, String::new());
        assert_eq!(e.kind(), ServerErrorKind::ClientDisconnected);
        assert_eq!(e.message(), "Unexpected disconnection");
        assert!(e.is_expected_session_end());
    }
    let t = ServerError::from_io(IoFailure::WouldBlock, String::new());
    assert_eq!(t.kind(), ServerErrorKind::Timeout);
    assert_eq!(t.message(), "Connection timeout");
    assert!(t.is_expected_session_end());

    let o = ServerError::from_io(IoFailure::Other, "address in use".to_string());
    assert_eq!(o.kind(), ServerErrorKind::Other);
    assert_eq!(o.message(), "address in use");
    assert!(!o.is_expected_session_end());
}

#[test]
fn error_constructors_keep_kind_and_message() {
    let a = ServerError::new_msg("plain".to_string());
    assert_eq!(a.kind(), ServerErrorKind::Other);
    assert_eq!(a.message(), "plain");

    let b = ServerError::new_kind("poisoned".to_string(), ServerErrorKind::PoisonedLock);
    assert_eq!(b.kind(), ServerErrorKind::PoisonedLock);

    let c = ServerError::from_poisoned_lock("holder panicked".to_string());
    assert_eq!(c.kind(), ServerErrorKind::PoisonedLock);

    let d = ServerError::from_pool_failure("send on closed channel".to_string());
    assert_eq!(d.kind(), ServerErrorKind::Irrecoverable);

    let e = ServerError::new_kind("gone".to_string(), ServerErrorKind::ClientNotFound);
    assert_eq!(e.kind(), ServerErrorKind::ClientNotFound);

    let f = ServerError::new_kind("bad byte".to_string(), ServerErrorKind::ProtocolViolation);
    assert_eq!(f.kind(), ServerErrorKind::ProtocolViolation);
}

use vrc_stt::messages::{handle_read, on_listener_event, ConnectionState, ConnectionStep, ListenerAction, ListenerEvent};
use vrc_stt::messages::{frame_line, read_error_ends_connection, FrontendMessage, ReadErrorKind, SocketMessage};

#[test]
fn keep_alive_messages_are_dropped() {
    assert!(FrontendMessage::from_socket_message(SocketMessage::Ping).is_none());
    assert!(FrontendMessage::from_socket_message(SocketMessage::Pong).is_none());
}

#[test]
fn other_messages_pass_through() {
    assert!(matches!(
        FrontendMessage::from_socket_message(SocketMessage::STTRecordStart),
        Some(FrontendMessage::STTRecordStart)
    ));
    assert!(matches!(
        FrontendMessage::from_socket_message(SocketMessage::STTRecordProcessing),
        Some(FrontendMessage::STTRecordProcessing)
    ));
    match FrontendMessage::from_socket_message(SocketMessage::STTRecordEndWithText("hi".into())) {
        Some(FrontendMessage::STTRecordEndWithText(t)) => assert_eq!(t, "hi"),
        other => panic!("unexpected {:?}", other),
    }
    match FrontendMessage::from_socket_message(SocketMessage::STTRecordEndWithError("bad".into())) {
        Some(FrontendMessage::STTRecordEndWithError(t)) => assert_eq!(t, "bad"),
        other => panic!("unexpected {:?}", other),
    }
}

#[test]
fn lines_end_with_newline() {
    assert_eq!(frame_line("\"Ping\""), "\"Ping\"\n");
    assert_eq!(frame_line(""), "\n");
}

#[test]
fn only_timeouts_keep_the_connection() {
    assert!(!read_error_ends_connection(ReadErrorKind::WouldBlock));
    assert!(!read_error_ends_connection(ReadErrorKind::TimedOut));
    assert!(read_error_ends_connection(ReadErrorKind::Other));
}

#[test]
fn connection_steps() {
    assert!(matches!(handle_read(true, Ok(Some(SocketMessage::STTRecordStart))), ConnectionStep::Stop));
    assert!(matches!(handle_read(true, Err(ReadErrorKind::Other)), ConnectionStep::Stop));
    assert!(matches!(
        handle_read(false, Ok(Some(SocketMessage::STTRecordStart))),
        ConnectionStep::Forward(FrontendMessage::STTRecordStart)
    ));
    assert!(matches!(handle_read(false, Ok(Some(SocketMessage::Ping))), ConnectionStep::Skip));
    assert!(matches!(handle_read(false, Ok(None)), ConnectionStep::Skip));
    assert!(matches!(handle_read(false, Err(ReadErrorKind::TimedOut)), ConnectionStep::Skip));
    assert!(matches!(handle_read(false, Err(ReadErrorKind::Other)), ConnectionStep::Disconnect));
}

#[test]
fn listener_announces_serves_and_reports_connections() {
    let (s, a) = on_listener_event(ConnectionState::Listening, false, ListenerEvent::Incoming(true));
    assert_eq!(s, ConnectionState::Connected);
    assert!(matches!(a, ListenerAction::Announce(FrontendMessage::BackendConnected)));
    let (s, a) = on_listener_event(s, false, ListenerEvent::Announced(true));
    assert_eq!(s, ConnectionState::Connected);
    assert!(matches!(a, ListenerAction::Serve));
    let (s, a) = on_listener_event(s, false, ListenerEvent::ConnectionEnded);
    assert_eq!(s, ConnectionState::Disconnected);
    assert!(matches!(a, ListenerAction::Report(FrontendMessage::BackendDisconnected)));
}

#[test]
fn listener_stops_on_shutdown_or_failed_announcement() {
    let (s, a) = on_listener_event(ConnectionState::Listening, true, ListenerEvent::Incoming(true));
    assert_eq!(s, ConnectionState::Listening);
    assert!(matches!(a, ListenerAction::Stop));
    let (_, a) = on_listener_event(ConnectionState::Connected, false, ListenerEvent::Announced(false));
    assert!(matches!(a, ListenerAction::Stop));
    let (s, a) = on_listener_event(ConnectionState::Disconnected, false, ListenerEvent::Incoming(false));
    assert_eq!(s, ConnectionState::Disconnected);
    assert!(matches!(a, ListenerAction::AwaitNext));
}

use roker::connection::ConnAction;
use roker::connection::ConnEvent;
use roker::connection::ConnState;
use roker::connection::is_heartbeat_message;
use roker::connection::negotiate_interval;
use roker::stomp::StompCommand;
use roker::stomp::StompError;

#[test]
fn negotiation_takes_the_larger_interval() {
    assert_eq!(negotiate_interval(3000, 5000), 5000);
    assert_eq!(negotiate_interval(5000, 3000), 5000);
    assert_eq!(negotiate_interval(4000, 4000), 4000);
}

#[test]
fn negotiation_with_zero_means_no_heartbeat() {
    assert_eq!(negotiate_interval(0, 5000), 0);
    assert_eq!(negotiate_interval(5000, 0), 0);
    assert_eq!(negotiate_interval(0, 0), 0);
}

#[test]
fn heartbeat_only_messages_are_recognized() {
    assert!(is_heartbeat_message(""));
    assert!(is_heartbeat_message("\n"));
    assert!(is_heartbeat_message("\n\n"));
    assert!(!is_heartbeat_message(" "));
    assert!(!is_heartbeat_message("SEND\n\n"));
}

#[test]
fn zero_intervals_create_no_timers() {
    let state = ConnState::new(0, 0);
    assert!(!state.has_client_timer());
    assert!(!state.has_server_timer());
}

#[test]
fn nonzero_intervals_create_timers() {
    let state = ConnState::new(5000, 3000);
    assert!(state.has_client_timer());
    assert!(state.has_server_timer());
}

#[test]
fn silence_past_the_interval_times_out() {
    let mut state = ConnState::new(5000, 0);
    let action = state.on_event(ConnEvent::ClientTimerFired);
    assert!(matches!(action, ConnAction::CloseHeartbeatTimeout));
}

#[test]
fn heartbeat_prevents_the_next_timeout_check() {
    let mut state = ConnState::new(5000, 0);
    let action = state.on_event(ConnEvent::Inbound("\n".to_string()));
    assert!(matches!(action, ConnAction::Continue));
    // The very next check finds the mark and consumes it.
    let action = state.on_event(ConnEvent::ClientTimerFired);
    assert!(matches!(action, ConnAction::Continue));
    // Nothing arrived since that check, so the one after times out.
    let action = state.on_event(ConnEvent::ClientTimerFired);
    assert!(matches!(action, ConnAction::CloseHeartbeatTimeout));
}

#[test]
fn any_real_frame_also_counts_as_liveness() {
    let mut state = ConnState::new(5000, 0);
    let action = state.on_event(ConnEvent::Inbound("DISCONNECT\n\n".to_string()));
    assert!(matches!(action, ConnAction::Deliver(_)));
    let action = state.on_event(ConnEvent::ClientTimerFired);
    assert!(matches!(action, ConnAction::Continue));
}

#[test]
fn inbound_frames_are_delivered_parsed() {
    let mut state = ConnState::new(0, 0);
    let action = state.on_event(ConnEvent::Inbound(
        "SEND\ndestination:/queue/a\n\nhello".to_string(),
    ));
    match action {
        ConnAction::Deliver(frame) => {
            assert_eq!(frame.command(), StompCommand::Send);
            assert_eq!(
                frame.headers(),
                &[("destination".to_string(), "/queue/a".to_string())]
            );
            assert_eq!(frame.body(), Some("hello"));
        },
        _ => panic!("expected the frame to be delivered"),
    }
}

#[test]
fn malformed_inbound_frame_is_answered_and_fatal() {
    let mut state = ConnState::new(0, 0);
    let action = state.on_event(ConnEvent::Inbound("SHOUT\n\n".to_string()));
    match action {
        ConnAction::ReplyErrorAndClose(frame, reason) => {
            assert_eq!(reason, StompError::UnknownCommand);
            assert_eq!(frame.command(), StompCommand::Error);
            assert_eq!(
                frame.headers(),
                &[("message".to_string(), "Unknown command received".to_string())]
            );
        },
        _ => panic!("expected an error reply"),
    }
}

#[test]
fn server_timer_asks_for_an_outgoing_heartbeat() {
    let mut state = ConnState::new(0, 3000);
    let action = state.on_event(ConnEvent::ServerTimerFired);
    assert!(matches!(action, ConnAction::SendHeartbeat));
}

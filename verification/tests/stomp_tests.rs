use roker::stomp::StompCommand;
use roker::stomp::StompError;
use roker::stomp::StompFrame;

fn all_commands() -> Vec<StompCommand> {
    vec![
        StompCommand::Connect,
        StompCommand::Stomp,
        StompCommand::Connected,
        StompCommand::Error,
        StompCommand::Send,
        StompCommand::Subscribe,
        StompCommand::Unsubscribe,
        StompCommand::Begin,
        StompCommand::Commit,
        StompCommand::Abort,
        StompCommand::Ack,
        StompCommand::Nack,
        StompCommand::Disconnect,
        StompCommand::Message,
        StompCommand::Receipt,
    ]
}

#[test]
fn command_token_round_trip() {
    for c in all_commands() {
        assert_eq!(StompCommand::from_token(c.as_str()), Ok(c));
    }
}

#[test]
fn command_tokens_are_exact() {
    assert_eq!(StompCommand::Send.as_str(), "SEND");
    assert_eq!(StompCommand::Disconnect.as_str(), "DISCONNECT");
    assert_eq!(StompCommand::Unsubscribe.as_str(), "UNSUBSCRIBE");
}

#[test]
fn unknown_tokens_are_rejected() {
    assert_eq!(StompCommand::from_token(""), Err(StompError::UnknownCommand));
    assert_eq!(StompCommand::from_token("send"), Err(StompError::UnknownCommand));
    assert_eq!(StompCommand::from_token("Send"), Err(StompError::UnknownCommand));
    assert_eq!(StompCommand::from_token("SEND "), Err(StompError::UnknownCommand));
    assert_eq!(StompCommand::from_token("SENDX"), Err(StompError::UnknownCommand));
    assert_eq!(StompCommand::from_token("CONNEC"), Err(StompError::UnknownCommand));
}

#[test]
fn new_frame_is_empty() {
    let frame = StompFrame::new(StompCommand::Disconnect);
    assert_eq!(frame.command(), StompCommand::Disconnect);
    assert!(frame.headers().is_empty());
    assert!(frame.body().is_none());
}

#[test]
fn push_header_keeps_order_and_duplicates() {
    let mut frame = StompFrame::new(StompCommand::Send);
    frame.push_header("destination".to_string(), "/queue/a".to_string());
    frame.push_header("destination".to_string(), "/queue/b".to_string());
    frame.push_header("receipt".to_string(), "42".to_string());
    let headers = frame.headers();
    assert_eq!(headers.len(), 3);
    assert_eq!(headers[0], ("destination".to_string(), "/queue/a".to_string()));
    assert_eq!(headers[1], ("destination".to_string(), "/queue/b".to_string()));
    assert_eq!(headers[2], ("receipt".to_string(), "42".to_string()));
}

#[test]
fn set_body_returns_previous_body() {
    let mut frame = StompFrame::new(StompCommand::Send);
    assert_eq!(frame.set_body("first".to_string()), None);
    assert_eq!(frame.set_body("second".to_string()), Some("first".to_string()));
    assert_eq!(frame.body(), Some("second"));
}

#[test]
fn push_body_first_call_sets_the_body() {
    let mut frame = StompFrame::new(StompCommand::Send);
    frame.push_body("only line".to_string());
    assert_eq!(frame.body(), Some("only line"));
}

#[test]
fn push_body_joins_lines_with_single_newlines() {
    let mut frame = StompFrame::new(StompCommand::Send);
    frame.push_body("line1".to_string());
    frame.push_body("line2".to_string());
    frame.push_body("".to_string());
    frame.push_body("line4".to_string());
    assert_eq!(frame.body(), Some("line1\nline2\n\nline4"));
}

#[test]
fn error_frame_for_unknown_command() {
    let frame = StompFrame::error_frame(StompError::UnknownCommand);
    assert_eq!(frame.command(), StompCommand::Error);
    assert_eq!(
        frame.headers(),
        &[("message".to_string(), "Unknown command received".to_string())]
    );
    assert!(frame.body().is_none());
}

#[test]
fn error_frame_for_malformed_header() {
    let frame = StompFrame::error_frame(StompError::MalformedHeader);
    assert_eq!(frame.command(), StompCommand::Error);
    assert_eq!(
        frame.headers(),
        &[("message".to_string(), "Malformed header received".to_string())]
    );
    assert!(frame.body().is_none());
}
